//! A gamepad, read as the Kempston joystick.
//!
//! A Kempston interface is a joystick port: the game reads five bits and
//! cannot tell what moved them, so a gamepad drives them exactly as the
//! hardware would. The D-pad and the left stick move left and right, and up
//! and down only on the hover platform; the bottom face button is down (a
//! platform), the right one up (an item), and the left one fires, as
//! platformers lay them out; the top one does nothing in play. Pause is the
//! odd one out (on a Spectrum it is a key, not a joystick button), so Start
//! presses the pause key. Select opens the guidance picker, where the D-pad
//! works it, A does an action wherever the pad's maker puts A, and B or
//! Select closes it.
//!
//! Reading the pads themselves is the program's business; this is what is
//! made of what they report.

use vstd::prelude::*;

verus! {

/// Which letters a pad's face buttons carry, from the maker it reports
/// itself as. The buttons are read by position, whatever is printed on
/// them, so this changes only the letters shown in a legend, and which
/// button confirms.
#[derive(Clone, Copy, Debug, PartialEq, Eq, Structural, Default)]
pub enum Layout {
    /// A on the bottom, B right, X left, Y top. The default: what most pads
    /// for a computer are printed with, and what an unrecognised pad is
    /// taken to be.
    #[default]
    Xbox,
    /// A right, B bottom, X top, Y left.
    Nintendo,
    /// The cross at the bottom, the circle right, the square left, the
    /// triangle on top.
    PlayStation,
}

/// Nintendo's USB vendor: a Pro Controller, Joy-Cons, or a third-party pad
/// in its Nintendo mode, which reports itself as one.
pub const NINTENDO: u16 = 0x057E;
/// Sony's.
pub const PLAYSTATION: u16 = 0x054C;

impl Layout {
    /// The layout a pad reporting `vendor` carries.
    pub fn of(vendor: Option<u16>) -> (l: Layout)
        ensures
            l == match vendor {
                Some(v) => if v == NINTENDO {
                    Layout::Nintendo
                } else if v == PLAYSTATION {
                    Layout::PlayStation
                } else {
                    Layout::Xbox
                },
                None => Layout::Xbox,
            },
    {
        match vendor {
            Some(NINTENDO) => Layout::Nintendo,
            Some(PLAYSTATION) => Layout::PlayStation,
            _ => Layout::Xbox,
        }
    }

    /// Whether the button that confirms is the right-hand one rather than
    /// the bottom one: A is on the right of a Nintendo pad, and A confirms.
    /// The cross confirms on a PlayStation pad, at the bottom as on an Xbox
    /// one.
    pub fn confirms_east(self) -> (b: bool)
        ensures
            b == (self == Layout::Nintendo),
    {
        self == Layout::Nintendo
    }
}

/// What the pads are asking for this frame.
#[derive(Clone, Copy, Debug, Default, PartialEq, Eq, Structural)]
pub struct Pad {
    /// The Kempston bits: the D-pad's and the stick's (`dirs`) and the face
    /// buttons' together.
    pub bits: u8,
    /// The Kempston bits of the D-pad and the stick alone, so that up and
    /// down on them can be left out while BLOB walks, and of the face
    /// buttons alone.
    pub dirs: u8,
    pub buttons: u8,
    /// Start is held: pause.
    pub start: bool,
    /// Pressed since the last poll, for the picker: each is one press, not
    /// a button held down.
    pub select: bool,
    pub up: bool,
    pub down: bool,
    pub left: bool,
    pub right: bool,
    /// The bottom face button (A on an Xbox pad).
    pub south: bool,
    /// The right face button (B on an Xbox pad).
    pub east: bool,
    /// The letters the first connected pad carries.
    pub layout: Layout,
}

impl Pad {
    /// The press that does the picker's highlighted action: A, which is the
    /// bottom button, or the right one on a pad whose A is there.
    pub fn confirm(&self) -> (b: bool)
        ensures
            b == if self.layout == Layout::Nintendo { self.east } else { self.south },
    {
        if self.layout.confirms_east() {
            self.east
        } else {
            self.south
        }
    }

    /// The press that goes back: B, the other of the two.
    pub fn cancel(&self) -> (b: bool)
        ensures
            b == if self.layout == Layout::Nintendo { self.south } else { self.east },
    {
        if self.layout.confirms_east() {
            self.south
        } else {
            self.east
        }
    }
}

/// What is remembered of the pads from one poll to the next: which of
/// Select, the four directions and the bottom and right face buttons were
/// down, to tell a press from a hold; and what is kept from the game until
/// it is let go.
#[derive(Clone, Copy, Debug)]
pub struct Gamepad {
    /// Whether Select, up, down, left, right, the bottom and the right face
    /// button were down at the last poll.
    pub was: [bool; 7],
    /// Joystick bits, and Start, kept from the game until they are let go:
    /// what was held as the picker closed.
    pub held_back: u8,
    pub start_held_back: bool,
    /// Whether the next poll starts holding back whatever is down.
    pub hold_back_next: bool,
}

/// What the pads report this poll, before anything is made of it: the
/// direction and face-button bits, Start, and which of Select, up, down,
/// left, right, the bottom and the right face button are down.
#[derive(Clone, Copy, Debug)]
pub struct Reading {
    pub dirs: u8,
    pub buttons: u8,
    pub start: bool,
    pub now: [bool; 7],
    pub layout: Layout,
}

impl Gamepad {
    /// Nothing held, nothing remembered.
    pub fn none() -> (g: Gamepad)
        ensures
            forall|i: int| 0 <= i < 7 ==> !#[trigger] g.was[i],
            g.held_back == 0,
            !g.start_held_back,
            !g.hold_back_next,
    {
        Gamepad { was: [false; 7], held_back: 0, start_held_back: false, hold_back_next: false }
    }

    /// From the next poll, keeps whatever is held then from the game until
    /// each is let go: the button that closed the picker is not also a
    /// platform, a shot or a pause.
    pub fn hold_back_held(&mut self)
        ensures
            *final(self) == (Gamepad { hold_back_next: true, ..*old(self) }),
    {
        self.hold_back_next = true;
    }

    /// Takes out of `pad` what is being held back, and lets go of what is
    /// no longer held. A hold started now holds back all that is down.
    pub fn hold_back(&mut self, pad: &mut Pad)
        ensures
            ({
                let held = if old(self).hold_back_next { old(pad).bits } else { old(self).held_back };
                let start_held = if old(self).hold_back_next { old(pad).start } else { old(self).start_held_back };
                let kept = held & old(pad).bits;
                let start_kept = start_held && old(pad).start;
                &&& *final(self) == (Gamepad {
                    hold_back_next: false,
                    held_back: kept,
                    start_held_back: start_kept,
                    ..*old(self)
                })
                &&& *final(pad) == (Pad {
                    bits: old(pad).bits & !kept,
                    dirs: old(pad).dirs & !kept,
                    buttons: old(pad).buttons & !kept,
                    start: old(pad).start && !start_kept,
                    ..*old(pad)
                })
            }),
    {
        if self.hold_back_next {
            self.hold_back_next = false;
            self.held_back = pad.bits;
            self.start_held_back = pad.start;
        }
        self.held_back = self.held_back & pad.bits;
        self.start_held_back = self.start_held_back && pad.start;
        pad.bits = pad.bits & !self.held_back;
        pad.dirs = pad.dirs & !self.held_back;
        pad.buttons = pad.buttons & !self.held_back;
        pad.start = pad.start && !self.start_held_back;
    }

    /// What the pads are asking for, from what they report now: the bits
    /// as they are, a press for each button down now and not at the last
    /// poll, and what is held back taken out.
    pub fn read(&mut self, r: Reading) -> (pad: Pad)
        ensures
            final(self).was == r.now,
            ({
                let fresh = Pad {
                    bits: r.dirs | r.buttons,
                    dirs: r.dirs,
                    buttons: r.buttons,
                    start: r.start,
                    select: r.now[0] && !old(self).was[0],
                    up: r.now[1] && !old(self).was[1],
                    down: r.now[2] && !old(self).was[2],
                    left: r.now[3] && !old(self).was[3],
                    right: r.now[4] && !old(self).was[4],
                    south: r.now[5] && !old(self).was[5],
                    east: r.now[6] && !old(self).was[6],
                    layout: r.layout,
                };
                let held = if old(self).hold_back_next { fresh.bits } else { old(self).held_back };
                let start_held = if old(self).hold_back_next { fresh.start } else { old(self).start_held_back };
                let kept = held & fresh.bits;
                let start_kept = start_held && fresh.start;
                &&& final(self).held_back == kept
                &&& final(self).start_held_back == start_kept
                &&& !final(self).hold_back_next
                &&& pad == (Pad {
                    bits: fresh.bits & !kept,
                    dirs: fresh.dirs & !kept,
                    buttons: fresh.buttons & !kept,
                    start: fresh.start && !start_kept,
                    ..fresh
                })
            }),
    {
        let now = r.now;
        let mut result = Pad {
            bits: r.dirs | r.buttons,
            dirs: r.dirs,
            buttons: r.buttons,
            start: r.start,
            select: now[0] && !self.was[0],
            up: now[1] && !self.was[1],
            down: now[2] && !self.was[2],
            left: now[3] && !self.was[3],
            right: now[4] && !self.was[4],
            south: now[5] && !self.was[5],
            east: now[6] && !self.was[6],
            layout: r.layout,
        };
        self.was = now;
        self.hold_back(&mut result);
        result
    }
}

} // verus!
