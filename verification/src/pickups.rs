//! The items of the planet and the sets of rooms the game keeps: an item
//! table entry in the original's packed form, the random bonus, and a
//! 512-bit set of rooms.

use vstd::prelude::*;

verus! {

/// Number of entries in the item table.
pub const ITEM_COUNT: usize = 45;

/// How many rooms the planet has.
pub const ROOM_COUNT: u16 = 512;

/// One entry of the item table, kept in the original's packed form:
/// `[colour << 5 | col, room_high << 7 | row, room_low, graphic]`. A row of
/// 0 means the item has not been put in its room yet.
#[derive(Clone, Copy, Debug)]
pub struct Item(pub [u8; 4]);

impl PartialEq for Item {
    fn eq(&self, other: &Self) -> (same: bool) {
        let same = self.0[0] == other.0[0] && self.0[1] == other.0[1] && self.0[2] == other.0[2]
            && self.0[3] == other.0[3];
        proof {
            if same {
                assert(self.0 =~= other.0);
            }
        }
        same
    }
}

impl vstd::std_specs::cmp::PartialEqSpecImpl for Item {
    open spec fn obeys_eq_spec() -> bool {
        true
    }

    open spec fn eq_spec(&self, other: &Self) -> bool {
        self.0 == other.0
    }
}

impl Eq for Item {}

impl Item {
    pub open spec fn room_spec(self) -> u16 {
        (self.0[2] + 256 * (self.0[1] / 128)) as u16
    }

    pub open spec fn row_spec(self) -> u8 {
        self.0[1] % 128
    }

    pub open spec fn col_spec(self) -> u8 {
        self.0[0] % 32
    }

    pub open spec fn colour_spec(self) -> u8 {
        self.0[0] / 32
    }

    pub open spec fn graphic_spec(self) -> u8 {
        self.0[3]
    }

    /// The room the item belongs to: the room byte, with its ninth bit in
    /// bit 7 of the row byte.
    pub fn room(&self) -> (r: u16)
        ensures
            r == self.room_spec(),
            r < ROOM_COUNT,
    {
        let lo = self.0[2];
        let hi = self.0[1];
        let r = lo as u16 | ((hi >> 7u8) as u16) << 8u16;
        assert(r == lo + 256 * (hi / 128)) by (bit_vector)
            requires
                r == lo as u16 | ((hi >> 7u8) as u16) << 8u16,
        ;
        r
    }

    /// The character row it lies at; 0 until it has been placed.
    pub fn row(&self) -> (r: u8)
        ensures
            r == self.row_spec(),
    {
        let b = self.0[1];
        assert(b & 0x7F == b % 128) by (bit_vector);
        b & 0x7F
    }

    pub fn col(&self) -> (c: u8)
        ensures
            c == self.col_spec(),
    {
        let b = self.0[0];
        assert(b & 0x1F == b % 32) by (bit_vector);
        b & 0x1F
    }

    pub fn colour(&self) -> (c: u8)
        ensures
            c == self.colour_spec(),
    {
        let b = self.0[0];
        assert(b >> 5u8 == b / 32) by (bit_vector);
        b >> 5u8
    }

    pub fn graphic(&self) -> (g: u8)
        ensures
            g == self.graphic_spec(),
    {
        self.0[3]
    }
}

/// The random bonus pickup in the current room.
#[derive(Clone, Copy, Debug, PartialEq, Eq, Structural)]
pub struct Bonus {
    pub col: u8,
    pub row: u8,
    /// 0 when there is no bonus.
    pub graphic: u8,
    pub attr: u8,
}

impl Default for Bonus {
    fn default() -> (b: Bonus)
        ensures
            b == (Bonus { col: 0, row: 0, graphic: 0, attr: 0 }),
    {
        Bonus { col: 0, row: 0, graphic: 0, attr: 0 }
    }
}

/// The bit of a room in its byte of a [`RoomSet`], most significant first.
pub open spec fn room_bit(room: u16) -> u8 {
    0x80u8 >> ((room % 8) as u8)
}

/// The set with no room in it.
pub open spec fn no_rooms() -> RoomSet {
    RoomSet(vstd::array::spec_array_fill_for_copy_type::<u8, 64>(0u8))
}

/// A 512-bit set of rooms, most significant bit first.
#[derive(Clone, Debug)]
pub struct RoomSet(pub [u8; 64]);

impl Default for RoomSet {
    fn default() -> (s: RoomSet)
        ensures
            s == no_rooms(),
            forall|r: u16| !#[trigger] s.has(r),
    {
        let s = RoomSet([0u8; 64]);
        assert(s.0 =~= no_rooms().0);
        assert forall|r: u16| !#[trigger] s.has(r) by {
            if r < ROOM_COUNT {
                let b = room_bit(r);
                assert(0u8 & b == 0) by (bit_vector);
            }
        }
        s
    }
}

impl PartialEq for RoomSet {
    fn eq(&self, other: &Self) -> (same: bool) {
        let mut i: usize = 0;
        while i < 64
            invariant
                i <= 64,
                forall|k: int| 0 <= k < i ==> self.0[k] == other.0[k],
            decreases 64 - i,
        {
            if self.0[i] != other.0[i] {
                return false;
            }
            i = i + 1;
        }
        assert(self.0 =~= other.0);
        true
    }
}

impl vstd::std_specs::cmp::PartialEqSpecImpl for RoomSet {
    open spec fn obeys_eq_spec() -> bool {
        true
    }

    open spec fn eq_spec(&self, other: &Self) -> bool {
        self.0 == other.0
    }
}

impl Eq for RoomSet {}

impl RoomSet {
    /// Whether `room` is in the set; no number past the last room is.
    pub open spec fn has(&self, room: u16) -> bool {
        room < ROOM_COUNT && self.0[(room / 8) as int] & room_bit(room) != 0
    }

    pub fn contains(&self, room: u16) -> (b: bool)
        requires
            room < ROOM_COUNT,
        ensures
            b == self.has(room),
    {
        assert(room & 7 == room % 8) by (bit_vector);
        assert(room >> 3u16 == room / 8) by (bit_vector);
        let bit: u8 = 0x80u8 >> ((room & 7) as u8);
        self.0[(room >> 3) as usize] & bit != 0
    }

    /// Puts `room` in the set, or takes it out.
    pub fn set(&mut self, room: u16, on: bool)
        requires
            room < ROOM_COUNT,
        ensures
            forall|r: u16| #[trigger] final(self).has(r) == if r == room { on } else { old(self).has(r) },
    {
        assert(room & 7 == room % 8) by (bit_vector);
        let k: u8 = (room & 7) as u8;
        let bit: u8 = 0x80u8 >> k;
        assert(room >> 3u16 == room / 8) by (bit_vector);
        let i = (room >> 3) as usize;
        let byte = self.0[i];
        let new_byte = if on { byte | bit } else { byte & !bit };
        self.0[i] = new_byte;
        assert forall|r: u16| #[trigger] self.has(r) == if r == room { on } else { old(self).has(r) } by {
            if r < ROOM_COUNT && r / 8 == room / 8 {
                let j: u8 = (r % 8) as u8;
                let b2: u8 = 0x80u8 >> j;
                assert(k < 8 && j < 8);
                if r == room {
                    assert(j == k);
                    assert((byte | bit) & bit != 0 && (byte & !bit) & bit == 0) by (bit_vector)
                        requires
                            bit == 0x80u8 >> k,
                            k < 8,
                    ;
                } else {
                    assert(j != k);
                    assert((byte | bit) & b2 == byte & b2 && (byte & !bit) & b2 == byte & b2) by (bit_vector)
                        requires
                            bit == 0x80u8 >> k,
                            b2 == 0x80u8 >> j,
                            k < 8,
                            j < 8,
                            j != k,
                    ;
                }
            }
        }
    }
}

/// What [`reduce`] gives: `a - n`, wrapped round a byte, then reduced
/// modulo `n`.
pub open spec fn reduce_spec(a: u8, n: u8) -> u8 {
    (((a - n) % 256) % (n as int)) as u8
}

/// Subtracts `n` repeatedly until the result is below `n`. The subtraction
/// happens at least once and wraps, so this is not quite `a % n`.
pub fn reduce(a: u8, n: u8) -> (r: u8)
    requires
        n != 0,
    ensures
        r == reduce_spec(a, n),
        r < n,
{
    let mut a = ((a as u16 + 256 - n as u16) % 256) as u8;
    let ghost first = a;
    while a >= n
        invariant
            a as int % n as int == first as int % n as int,
            n != 0,
        decreases a,
    {
        assert((a - n) as int % n as int == a as int % n as int) by (nonlinear_arith)
            requires
                a >= n,
                n > 0,
        ;
        a = a - n;
    }
    assert(a as int % n as int == a as int) by (nonlinear_arith)
        requires
            a < n,
    ;
    a
}

} // verus!
