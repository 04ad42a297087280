//! Typing a teleport code with a controller. A booth reads its code from
//! the keyboard, five letters, and a pad has no letters; so once a pad
//! button is pressed in a booth, the window shows five slots over it. Up
//! and down step a slot through A to Z, left and right move between slots,
//! A enters the code and B clears it. From guidance level 1, which lists the
//! codes seen this game, X fills the slots with each of them in turn. The
//! code is then typed on the keys the booth reads, a letter at a time, so
//! the booth itself runs unchanged.

use vstd::prelude::*;

verus! {

/// The code being put together in the slots.
#[derive(Clone, Copy, Debug, Default, PartialEq, Eq)]
pub struct Entry {
    /// Each slot's letter, or `None` while it is empty.
    pub slots: [Option<u8>; 5],
    /// The slot up and down change.
    pub at: usize,
    /// Which of the seen codes X last filled in, if any.
    pub seen: Option<usize>,
    /// Entered, and being typed.
    pub entered: bool,
}

/// A slot's letter a step through A to Z, round the end; an empty slot
/// starts at A going up and Z going down.
pub open spec fn stepped(slot: Option<u8>, up: bool) -> u8 {
    match slot {
        None => if up { 0x41u8 } else { 0x5Au8 },
        Some(c) => if up {
            if c == 0x5Au8 { 0x41u8 } else { (c + 1) as u8 }
        } else {
            if c == 0x41u8 { 0x5Au8 } else { (c - 1) as u8 }
        },
    }
}

/// The slots all filled, as the code they spell.
pub open spec fn full_code(slots: [Option<u8>; 5]) -> Option<[u8; 5]> {
    if slots[0] is Some && slots[1] is Some && slots[2] is Some && slots[3] is Some && slots[4] is Some {
        Some([slots[0]->0, slots[1]->0, slots[2]->0, slots[3]->0, slots[4]->0])
    } else {
        None
    }
}

impl Entry {
    /// Nothing typed yet.
    pub open spec fn empty() -> Entry {
        Entry { slots: [None, None, None, None, None], at: 0, seen: None, entered: false }
    }

    /// Up (`true`) or down: the slot's letter a step through A to Z, round
    /// the end; an empty slot starts at A going up and Z going down.
    pub fn step(&mut self, up: bool)
        requires
            old(self).entered || old(self).at < 5,
            !old(self).entered && old(self).slots[old(self).at as int] is Some ==> {
                let c = old(self).slots[old(self).at as int]->0;
                (up ==> c != 255) && (!up ==> c != 0)
            },
        ensures
            *final(self) == if old(self).entered {
                *old(self)
            } else {
                Entry {
                    slots: vstd::array::spec_array_update(
                        old(self).slots,
                        old(self).at as int,
                        Some(stepped(old(self).slots[old(self).at as int], up)),
                    ),
                    seen: None,
                    ..*old(self)
                }
            },
    {
        if self.entered {
            return;
        }
        let slot = self.slots[self.at];
        let letter: u8 = match slot {
            None => if up {
                0x41u8
            } else {
                0x5Au8
            },
            Some(c) => if up {
                if c == 0x5Au8 {
                    0x41u8
                } else {
                    c + 1
                }
            } else {
                if c == 0x41u8 {
                    0x5Au8
                } else {
                    c - 1
                }
            },
        };
        let ghost before = self.slots;
        self.slots[self.at] = Some(letter);
        assert(self.slots =~= vstd::array::spec_array_update(before, self.at as int, Some(letter)));
        self.seen = None;
    }

    /// Left (`false`) or right: the next slot, stopping at the ends.
    pub fn move_to(&mut self, right: bool)
        requires
            old(self).at < usize::MAX,
        ensures
            *final(self) == if old(self).entered {
                *old(self)
            } else {
                Entry {
                    at: if right {
                        if old(self).at + 1 > 4 { 4 } else { (old(self).at + 1) as usize }
                    } else {
                        if old(self).at == 0 { 0 } else { (old(self).at - 1) as usize }
                    },
                    ..*old(self)
                }
            },
    {
        if self.entered {
            return;
        }
        self.at = if right {
            if self.at + 1 > 4 {
                4
            } else {
                self.at + 1
            }
        } else {
            if self.at == 0 {
                0
            } else {
                self.at - 1
            }
        };
    }

    /// B: every slot empty, back to the first.
    pub fn clear(&mut self)
        ensures
            *final(self) == if old(self).entered { *old(self) } else { Entry::empty() },
    {
        if !self.entered {
            *self = Entry { slots: [None; 5], at: 0, seen: None, entered: false };
            assert(self.slots =~= Entry::empty().slots);
        }
    }

    /// X: the next of the codes seen this game, into the slots.
    pub fn next_seen(&mut self, seen: &[[u8; 5]])
        requires
            old(self).seen matches Some(k) ==> k < usize::MAX,
        ensures
            *final(self) == if old(self).entered || seen@.len() == 0 {
                *old(self)
            } else {
                let k = match old(self).seen {
                    Some(k) => ((k + 1) % (seen@.len() as int)) as usize,
                    None => 0usize,
                };
                Entry {
                    slots: [
                        Some(seen@[k as int][0]),
                        Some(seen@[k as int][1]),
                        Some(seen@[k as int][2]),
                        Some(seen@[k as int][3]),
                        Some(seen@[k as int][4]),
                    ],
                    seen: Some(k),
                    at: 4,
                    ..*old(self)
                }
            },
    {
        if self.entered || seen.len() == 0 {
            return;
        }
        let k = match self.seen {
            Some(k) => (k + 1) % seen.len(),
            None => 0,
        };
        let code = seen[k];
        self.slots = [Some(code[0]), Some(code[1]), Some(code[2]), Some(code[3]), Some(code[4])];
        self.seen = Some(k);
        self.at = 4;
    }

    /// A: the code to type, once every slot has a letter.
    pub fn enter(&mut self) -> (code: Option<[u8; 5]>)
        ensures
            code == if old(self).entered { None } else { full_code(old(self).slots) },
            *final(self) == if code is Some { Entry { entered: true, ..*old(self) } } else { *old(self) },
    {
        if self.entered {
            return None;
        }
        match (self.slots[0], self.slots[1], self.slots[2], self.slots[3], self.slots[4]) {
            (Some(a), Some(b), Some(c), Some(d), Some(e)) => {
                self.entered = true;
                Some([a, b, c, d, e])
            },
            _ => None,
        }
    }
}

/// A slot steps round A to Z: a step keeps a letter, or an empty slot's
/// first letter, within A to Z, and a step back gives back the letter.
pub proof fn steps_go_round(c: u8, up: bool)
    requires
        0x41 <= c <= 0x5A,
    ensures
        0x41 <= stepped(Some(c), up) <= 0x5A,
        0x41 <= stepped(None, up) <= 0x5A,
        stepped(Some(stepped(Some(c), up)), !up) == c,
{
}

} // verus!
