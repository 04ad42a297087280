//! The codes of the screens that take over the room: which key code cards
//! a security door or the Cheops pyramid asks for, and which of them the
//! items carried answer.

use vstd::prelude::*;

verus! {

/// The access card, which answers any card and is kept.
pub const MASTER_KEY: u8 = 0x0F;
/// The "?" card, which stands in for one card nothing else answers.
pub const WILDCARD: u8 = 0x0E;

/// Where a security door's screen draws its code, which the code is made
/// from along with the game's seed and the room.
pub const DOOR_CODE_AT: (u8, u8) = (0x11, 0x0B);

/// A card number, 9 to 13, from a byte of the code.
pub open spec fn card(a: u8) -> u8 {
    ((a & 0x3F) % 5 + 9) as u8
}

/// The three cards the code is made of: each byte of it the one before,
/// mixed with a byte of the seed and the room, the row or the column.
pub open spec fn code_spec(seed: u16, room: u16, row: u8, col: u8) -> [u8; 3] {
    let seed_lo = (seed % 256) as u8;
    let seed_hi = (seed / 256) as u8;
    let first = row ^ seed_hi ^ ((room % 256) as u8);
    let second = first ^ seed_lo ^ col;
    let third = second ^ seed_hi ^ row;
    [card(first), card(second), card(third)]
}

/// The key code cards a code asks for, by graphic (9 to 13), made from the
/// game's `seed`, the `room` and where the screen draws the code
/// (`row`, `col`). A door's screen asks for all three, a pyramid's for the
/// first two.
pub fn code_items(seed: u16, room: u16, row: u8, col: u8) -> (cards: [u8; 3])
    ensures
        cards == code_spec(seed, room, row, col),
        forall|i: int| 0 <= i < 3 ==> 9 <= #[trigger] cards@[i] <= 13,
{
    let seed_lo = (seed % 256) as u8;
    let seed_hi = (seed / 256) as u8;
    let first = row ^ seed_hi ^ ((room % 256) as u8);
    let second = first ^ seed_lo ^ col;
    let third = second ^ seed_hi ^ row;
    [(first & 0x3F) % 5 + 9, (second & 0x3F) % 5 + 9, (third & 0x3F) % 5 + 9]
}

/// Whether inventory slot `s` is not used up yet: `used` has a bit a
/// slot, 8 for the first.
pub open spec fn free(used: u8, s: int) -> bool {
    used & (8u8 >> (s as u8)) == 0
}

/// What slot `s` answers for card `wanted`: the access card, which stays,
/// or the card itself, which is used up.
pub open spec fn hit_at(wanted: u8, slots: [u8; 4], used: u8, s: int) -> Option<(usize, bool)> {
    if !free(used, s) {
        None
    } else if slots[s] == MASTER_KEY {
        Some((s as usize, false))
    } else if slots[s] == wanted {
        Some((s as usize, true))
    } else {
        None
    }
}

/// The first slot from `s` on that answers `wanted`.
pub open spec fn first_hit(wanted: u8, slots: [u8; 4], used: u8, s: int) -> Option<(usize, bool)>
    decreases 4 - s,
{
    if s >= 4 || s < 0 {
        None
    } else {
        match hit_at(wanted, slots, used, s) {
            Some(h) => Some(h),
            None => first_hit(wanted, slots, used, s + 1),
        }
    }
}

/// The first free slot from `s` on holding the "?" card.
pub open spec fn first_wild(slots: [u8; 4], used: u8, s: int) -> Option<usize>
    decreases 4 - s,
{
    if s >= 4 || s < 0 {
        None
    } else if free(used, s) && slots[s] == WILDCARD {
        Some(s as usize)
    } else {
        first_wild(slots, used, s + 1)
    }
}

/// The slot that answers card `wanted`, and whether it is used up.
pub open spec fn match_spec(wanted: u8, slots: [u8; 4], used: u8) -> Option<(usize, bool)> {
    match first_hit(wanted, slots, used, 0) {
        Some(h) => Some(h),
        None => match first_wild(slots, used, 0) {
            Some(s) => Some((s, true)),
            None => None,
        },
    }
}

/// The inventory slot that answers a code's card `wanted`, among `slots`
/// (the carried items' graphics) not yet `used` (a bit a slot, 8 for the
/// first): the access card, which answers any and stays, or that card, or
/// failing both a "?" card. Says whether the slot is used up.
pub fn match_slot(wanted: u8, slots: [u8; 4], used: u8) -> (m: Option<(usize, bool)>)
    ensures
        m == match_spec(wanted, slots, used),
        m matches Some((s, _)) ==> s < 4,
{
    let mut s: usize = 0;
    while s < 4
        invariant
            s <= 4,
            first_hit(wanted, slots, used, 0) == first_hit(wanted, slots, used, s as int),
        decreases 4 - s,
    {
        let is_free = used & (8u8 >> (s as u8)) == 0;
        if is_free && slots[s] == MASTER_KEY {
            return Some((s, false));
        }
        if is_free && slots[s] == wanted {
            return Some((s, true));
        }
        s = s + 1;
    }
    let mut w: usize = 0;
    while w < 4
        invariant
            w <= 4,
            first_hit(wanted, slots, used, 0) is None,
            first_wild(slots, used, 0) == first_wild(slots, used, w as int),
        decreases 4 - w,
    {
        if used & (8u8 >> (w as u8)) == 0 && slots[w] == WILDCARD {
            return Some((w, true));
        }
        w = w + 1;
    }
    None
}

/// The answers to the first cards of a code, and the slots they used up.
pub open spec fn answers(wanted: Seq<u8>, slots: [u8; 4]) -> (Seq<bool>, u8)
    decreases wanted.len(),
{
    if wanted.len() == 0 {
        (seq![], 0)
    } else {
        let (done, used) = answers(wanted.drop_last(), slots);
        let hit = match_spec(wanted.last(), slots, used);
        let used2 = match hit {
            Some((slot, true)) => used | (8u8 >> (slot as u8)),
            _ => used,
        };
        (done.push(hit is Some), used2)
    }
}

/// Which of a code's cards `wanted` the carried items `slots` answer, as a
/// door's screen checks them in turn.
pub fn answered(wanted: &[u8], slots: [u8; 4]) -> (r: Vec<bool>)
    ensures
        r@ == answers(wanted@, slots).0,
{
    let mut used: u8 = 0;
    let mut r: Vec<bool> = Vec::new();
    let mut i: usize = 0;
    while i < wanted.len()
        invariant
            i <= wanted@.len(),
            (r@, used) == answers(wanted@.take(i as int), slots),
        decreases wanted@.len() - i,
    {
        let w = wanted[i];
        assert(wanted@.take(i + 1).drop_last() =~= wanted@.take(i as int));
        let hit = match_slot(w, slots, used);
        match hit {
            Some((slot, true)) => {
                used = used | (8u8 >> (slot as u8));
            },
            _ => {},
        }
        r.push(hit.is_some());
        i = i + 1;
    }
    assert(wanted@.take(i as int) =~= wanted@);
    r
}

proof fn hits_are_slots(wanted: u8, slots: [u8; 4], used: u8, s: int)
    requires
        0 <= s,
    ensures
        first_hit(wanted, slots, used, s) matches Some((t, _)) ==> t < 4,
        first_wild(slots, used, s) matches Some(t) ==> t < 4,
    decreases 4 - s,
{
    if s < 4 {
        hits_are_slots(wanted, slots, used, s + 1);
    }
}

proof fn first_hit_finds(wanted: u8, slots: [u8; 4], used: u8, s: int, k: int)
    requires
        0 <= s <= k < 4,
        free(used, k),
        slots[k] == MASTER_KEY,
    ensures
        first_hit(wanted, slots, used, s) is Some,
    decreases k - s,
{
    if s < k && hit_at(wanted, slots, used, s) is None {
        first_hit_finds(wanted, slots, used, s + 1, k);
    }
}

proof fn hit_is_not_master(wanted: u8, slots: [u8; 4], used: u8, s: int, k: int)
    requires
        0 <= s,
        0 <= k < 4,
        slots[k] == MASTER_KEY,
        first_hit(wanted, slots, used, s) matches Some((t, true)),
    ensures
        (first_hit(wanted, slots, used, s)->0).0 != k,
    decreases 4 - s,
{
    if s < 4 && hit_at(wanted, slots, used, s) is None {
        hit_is_not_master(wanted, slots, used, s + 1, k);
    }
}

proof fn answers_keep_master_free(wanted: Seq<u8>, slots: [u8; 4], k: int)
    requires
        0 <= k < 4,
        slots[k] == MASTER_KEY,
    ensures
        free(answers(wanted, slots).1, k),
        forall|i: int| 0 <= i < wanted.len() ==> #[trigger] answers(wanted, slots).0[i],
        answers(wanted, slots).0.len() == wanted.len(),
    decreases wanted.len(),
{
    if wanted.len() == 0 {
        let kk = k as u8;
        assert(0u8 & (8u8 >> kk) == 0) by (bit_vector);
    } else {
        answers_keep_master_free(wanted.drop_last(), slots, k);
        let (done, used) = answers(wanted.drop_last(), slots);
        first_hit_finds(wanted.last(), slots, used, 0, k);
        hits_are_slots(wanted.last(), slots, used, 0);
        let hit = match_spec(wanted.last(), slots, used);
        match hit {
            Some((slot, true)) => {
                hit_is_not_master(wanted.last(), slots, used, 0, k);
                let t = slot as u8;
                let kk = k as u8;
                assert(t < 4 && kk < 4 && t != kk);
                assert(used & (8u8 >> kk) == 0 ==> (used | (8u8 >> t)) & (8u8 >> kk) == 0) by (bit_vector)
                    requires
                        t < 4,
                        kk < 4,
                        t != kk,
                ;
            },
            _ => {},
        }
        let r = answers(wanted, slots).0;
        assert forall|i: int| 0 <= i < wanted.len() implies #[trigger] r[i] by {
            if i < wanted.len() - 1 {
                assert(r[i] == done[i]);
            }
        }
    }
}

/// The access card answers every card of a code: carried, it is never used
/// up, so each card in turn finds it if nothing before it answers.
pub proof fn the_access_card_answers_every_card(wanted: Seq<u8>, slots: [u8; 4], k: int)
    requires
        0 <= k < 4,
        slots[k] == MASTER_KEY,
    ensures
        answers(wanted, slots).0 == Seq::new(wanted.len(), |i: int| true),
{
    answers_keep_master_free(wanted, slots, k);
    assert(answers(wanted, slots).0 =~= Seq::new(wanted.len(), |i: int| true));
}

} // verus!
