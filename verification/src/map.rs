//! The planet as a map, for the guidance panel: which edges of each room can
//! be left through and where a room is divided inside, and which rooms hold
//! the core pieces still needed.
//!
//! Walking off a room's left or right edge moves one room along, and off its
//! top or bottom sixteen, so the 512 rooms are a grid 16 wide and 32 tall
//! and a room's number is its place on it.
//!
//! A room is read here from its cells, free or solid, as a [`Cells`] grid of
//! the play area: row 0 of it is the screen's character row
//! [`FIRST_ROW`].

use vstd::prelude::*;
use crate::pickups::{Item, RoomSet, ROOM_COUNT};

verus! {

/// The map's width and height, in rooms.
pub const COLS: u16 = 16;
pub const ROWS: u16 = 32;

/// The room holding the planet's core.
pub const CORE_ROOM: u16 = 199;

/// The first and last character rows the room occupies on screen, and its
/// last column.
pub const FIRST_ROW: u8 = 6;
pub const LAST_ROW: u8 = 23;
pub const LAST_COL: u8 = 31;

/// Where BLOB's top-left cell can be: he is two cells by two, so one row and
/// one column short of the room.
pub const SPOTS_DOWN: usize = 17;
pub const SPOTS_ACROSS: usize = 31;

/// The length of each edge in cells, clockwise from the top-left corner:
/// top, right, bottom, left. A place on the edge is measured in the same
/// cells, from 0 up to [`AROUND`].
pub const TOP: u8 = 32;
pub const SIDE: u8 = 18;
pub const AROUND: u8 = 100;

/// One step of a route across the map: the room it reaches, and whether it
/// gets there by teleporter rather than on foot.
#[derive(Clone, Copy, Debug, PartialEq, Eq, Structural)]
pub struct Step {
    pub room: u16,
    pub teleport: bool,
}

/// The play area's cells, free or solid: bit `col` of `rows[r]` is set
/// where the cell at screen row `FIRST_ROW + r`, column `col`, lets BLOB
/// through.
#[derive(Clone, Copy, Debug, PartialEq, Eq)]
pub struct Cells {
    pub rows: [u32; 18],
}

impl Cells {
    /// Whether the cell at screen (`row`, `col`) is free; nothing outside
    /// the play area is.
    pub open spec fn free(self, row: int, col: int) -> bool {
        FIRST_ROW <= row <= LAST_ROW && 0 <= col <= LAST_COL && self.rows[row - FIRST_ROW] & (1u32 << (col as u32))
            != 0
    }

    /// Whether BLOB fits with his top-left cell at screen (`row`, `col`).
    pub open spec fn window(self, row: int, col: int) -> bool {
        self.free(row, col) && self.free(row, col + 1) && self.free(row + 1, col) && self.free(row + 1, col + 1)
    }

    pub fn is_free(&self, row: u8, col: u8) -> (b: bool)
        ensures
            b == self.free(row as int, col as int),
    {
        if row < FIRST_ROW || row > LAST_ROW || col > LAST_COL {
            return false;
        }
        self.rows[(row - FIRST_ROW) as usize] & (1u32 << (col as u32)) != 0
    }

    pub fn fits(&self, row: u8, col: u8) -> (b: bool)
        requires
            row < 255,
            col < 255,
        ensures
            b == self.window(row as int, col as int),
    {
        self.is_free(row, col) && self.is_free(row, col + 1) && self.is_free(row + 1, col) && self.is_free(row + 1, col + 1)
    }
}

/// Which edges of a room have an opening, a gap BLOB fits through, and the
/// walls inside it between openings that do not reach each other.
///
/// An opening is where he can reach the edge, not a promise that he can get
/// there: a gap high in a wall can need a lift, and a door can be shut.
#[derive(Clone, Copy, Debug, PartialEq, Eq)]
pub struct Openings {
    pub left: bool,
    pub right: bool,
    pub up: bool,
    pub down: bool,
    /// Walls inside the room, where they stand: the solid cells between
    /// openings that do not reach each other.
    pub divides: Divides,
}

impl Default for Openings {
    fn default() -> (o: Openings)
        ensures
            !o.left && !o.right && !o.up && !o.down,
            o.divides.is_empty(),
    {
        Openings { left: false, right: false, up: false, down: false, divides: Divides::default() }
    }
}

/// The solid cells that keep two of a room's openings apart, a bit per cell
/// (bit `col` of `cells[row]`, rows from the top of the play area), and
/// which of them are a door's or a teleport pad's: the two parts they keep
/// apart become one when doors and pads are open.
#[derive(Clone, Copy, Debug, PartialEq, Eq)]
pub struct Divides {
    pub cells: [u32; 18],
    pub doors: [u32; 18],
}

impl Default for Divides {
    fn default() -> (d: Divides)
        ensures
            d.is_empty(),
    {
        Divides { cells: [0u32; 18], doors: [0u32; 18] }
    }
}

impl Divides {
    pub open spec fn is_empty(self) -> bool {
        forall|r: int| 0 <= r < 18 ==> #[trigger] self.cells[r] == 0 && self.doors[r] == 0
    }

    pub open spec fn wall_spec(self, row: int, col: int) -> bool {
        0 <= row < 18 && 0 <= col < 32 && self.cells[row] & (1u32 << (col as u32)) != 0
    }

    pub open spec fn door_spec(self, row: int, col: int) -> bool {
        0 <= row < 18 && 0 <= col < 32 && self.doors[row] & (1u32 << (col as u32)) != 0
    }

    /// Whether the cell at (`row`, `col`) of the play area is a wall.
    pub fn wall(&self, row: usize, col: usize) -> (b: bool)
        ensures
            b == self.wall_spec(row as int, col as int),
    {
        row < 18 && col < 32 && self.cells[row] & (1u32 << (col as u32)) != 0
    }

    /// Whether the cell at (`row`, `col`) is a door's or a pad's.
    pub fn door(&self, row: usize, col: usize) -> (b: bool)
        ensures
            b == self.door_spec(row as int, col as int),
    {
        row < 18 && col < 32 && self.doors[row] & (1u32 << (col as u32)) != 0
    }
}

/// Whether some row from `from` up to `to` (not included) has a window at
/// column `col`.
pub open spec fn window_in_rows(cells: Cells, from: int, to: int, col: int) -> bool {
    exists|row: int| from <= row < to && #[trigger] cells.window(row, col)
}

/// Whether some column from 0 up to `to` has a window at `row`.
pub open spec fn window_in_cols(cells: Cells, row: int, to: int) -> bool {
    exists|col: int| 0 <= col < to && #[trigger] cells.window(row, col)
}

/// The four edges of a room: an edge is open where a two-by-two window of
/// free cells touches it.
pub open spec fn scan_spec(cells: Cells) -> (bool, bool, bool, bool) {
    (
        window_in_rows(cells, FIRST_ROW as int, LAST_ROW as int, 0),
        window_in_rows(cells, FIRST_ROW as int, LAST_ROW as int, LAST_COL - 1),
        window_in_cols(cells, FIRST_ROW as int, LAST_COL as int),
        window_in_cols(cells, LAST_ROW - 1, LAST_COL as int),
    )
}

fn any_window_in_rows(cells: &Cells, col: u8) -> (b: bool)
    requires
        col < LAST_COL,
    ensures
        b == window_in_rows(*cells, FIRST_ROW as int, LAST_ROW as int, col as int),
{
    let mut row = FIRST_ROW;
    while row < LAST_ROW
        invariant
            FIRST_ROW <= row <= LAST_ROW,
            col < LAST_COL,
            !window_in_rows(*cells, FIRST_ROW as int, row as int, col as int),
        decreases LAST_ROW - row,
    {
        if cells.fits(row, col) {
            return true;
        }
        row = row + 1;
    }
    false
}

fn any_window_in_cols(cells: &Cells, row: u8) -> (b: bool)
    requires
        FIRST_ROW <= row < LAST_ROW,
    ensures
        b == window_in_cols(*cells, row as int, LAST_COL as int),
{
    let mut col: u8 = 0;
    while col < LAST_COL
        invariant
            col <= LAST_COL,
            FIRST_ROW <= row < LAST_ROW,
            !window_in_cols(*cells, row as int, col as int),
        decreases LAST_COL - col,
    {
        if cells.fits(row, col) {
            return true;
        }
        col = col + 1;
    }
    false
}

/// Reads the four edges of a room from its cells.
///
/// BLOB is two cells by two. Leaving a room sends him through the left
/// edge from columns 0–1, the right from 30–31, the top once he rises past
/// the top two rows and the bottom from the bottom two. So an edge is open
/// where a two-by-two window of free cells touches it.
pub fn scan(cells: &Cells) -> (o: Openings)
    ensures
        (o.left, o.right, o.up, o.down) == scan_spec(*cells),
        o.divides.is_empty(),
{
    Openings {
        left: any_window_in_rows(cells, 0),
        right: any_window_in_rows(cells, LAST_COL - 1),
        up: any_window_in_cols(cells, FIRST_ROW),
        down: any_window_in_cols(cells, LAST_ROW - 1),
        divides: Divides::default(),
    }
}

/// An item is carried while it is being picked up (row 1) or in the
/// inventory (rows 2 to 5).
pub open spec fn carried(item: Item) -> bool {
    1 <= item.row_spec() <= 5
}

/// A delivered piece is parked in the core room at row 10.
pub open spec fn delivered(item: Item) -> bool {
    item.room_spec() == CORE_ROOM && item.row_spec() == 0x0A
}

/// A hole of the core is open for `graphic`: its slot has bit 7 set and the
/// rest of the byte is the graphic of the piece that fills it.
pub open spec fn hole_for(slots: Seq<u8>, graphic: u8) -> bool {
    exists|k: int| 0 <= k < slots.len() && #[trigger] slots[k] & 0x80 != 0 && slots[k] & 0x7F == graphic
}

/// Some item with `graphic` is carried.
pub open spec fn carrying(items: Seq<Item>, graphic: u8) -> bool {
    exists|k: int| 0 <= k < items.len() && carried(#[trigger] items[k]) && items[k].graphic_spec() == graphic
}

/// The core still wants a piece with `graphic`, and none is being carried.
pub open spec fn wanted(slots: Seq<u8>, items: Seq<Item>, graphic: u8) -> bool {
    hole_for(slots, graphic) && !carrying(items, graphic)
}

/// An item that marks its room: a piece still wanted, lying somewhere to go.
pub open spec fn marks(slots: Seq<u8>, items: Seq<Item>, item: Item) -> bool {
    wanted(slots, items, item.graphic_spec()) && !carried(item) && !delivered(item)
}

fn hole_open_for(slots: &[u8; 9], graphic: u8) -> (b: bool)
    ensures
        b == hole_for(slots@, graphic),
{
    let mut k: usize = 0;
    while k < 9
        invariant
            k <= 9,
            forall|j: int| 0 <= j < k ==> !(#[trigger] slots@[j] & 0x80 != 0 && slots@[j] & 0x7F == graphic),
        decreases 9 - k,
    {
        if slots[k] & 0x80 != 0 && slots[k] & 0x7F == graphic {
            assert(slots@[k as int] & 0x80 != 0 && slots@[k as int] & 0x7F == graphic);
            return true;
        }
        k = k + 1;
    }
    false
}

fn any_carried(items: &[Item], graphic: u8) -> (b: bool)
    ensures
        b == carrying(items@, graphic),
{
    let mut k: usize = 0;
    while k < items.len()
        invariant
            k <= items@.len(),
            forall|j: int| 0 <= j < k ==> !(carried(#[trigger] items@[j]) && items@[j].graphic_spec() == graphic),
        decreases items@.len() - k,
    {
        let row = items[k].row();
        if 1 <= row && row <= 5 && items[k].graphic() == graphic {
            assert(carried(items@[k as int]) && items@[k as int].graphic_spec() == graphic);
            return true;
        }
        k = k + 1;
    }
    false
}

/// The rooms of the items that would fill a hole still open in the core.
///
/// A hole is open while its slot has bit 7 set, and the rest of the byte is
/// the graphic of the piece that fills it: the core takes any carried item
/// with that graphic, so every item with it counts, wherever it is. An
/// item's row is 1 while it is being picked up and 2 to 5 in the inventory,
/// and a delivered one is parked in the core room at row 10; neither is
/// somewhere to go. An item not yet placed in its room has row 0 and still
/// counts; its room is known.
///
/// A hole whose piece is being carried marks nothing: most pieces come in
/// twos, and the other one is not needed while you have one.
pub fn missing_piece_rooms(core_slots: &[u8; 9], items: &[Item]) -> (rooms: RoomSet)
    ensures
        forall|r: u16|
            #[trigger] rooms.has(r) <==> exists|k: int|
                0 <= k < items@.len() && #[trigger] items@[k].room_spec() == r && marks(core_slots@, items@, items@[k]),
{
    let mut rooms = RoomSet::default();
    let mut k: usize = 0;
    while k < items.len()
        invariant
            k <= items@.len(),
            forall|r: u16|
                #[trigger] rooms.has(r) <==> exists|j: int|
                    0 <= j < k && #[trigger] items@[j].room_spec() == r && marks(core_slots@, items@, items@[j]),
        decreases items@.len() - k,
    {
        let item = items[k];
        let graphic = item.graphic();
        let room = item.room();
        let row = item.row();
        let is_carried = 1 <= row && row <= 5;
        let is_delivered = room == CORE_ROOM && row == 0x0A;
        if hole_open_for(core_slots, graphic) && !any_carried(items, graphic) && !is_carried && !is_delivered {
            let ghost before = rooms;
            rooms.set(room, true);
            assert forall|r: u16|
                #[trigger] rooms.has(r) <==> exists|j: int|
                    0 <= j < k + 1 && #[trigger] items@[j].room_spec() == r && marks(core_slots@, items@, items@[j]) by {
                if r == room {
                    assert(items@[k as int].room_spec() == r);
                } else if rooms.has(r) {
                    assert(before.has(r));
                } else {
                    assert(!before.has(r));
                }
            }
        } else {
            assert(!marks(core_slots@, items@, items@[k as int]));
            assert forall|r: u16|
                #[trigger] rooms.has(r) <==> exists|j: int|
                    0 <= j < k + 1 && #[trigger] items@[j].room_spec() == r && marks(core_slots@, items@, items@[j]) by {
                if rooms.has(r) {
                    let j = choose|j: int|
                        0 <= j < k && #[trigger] items@[j].room_spec() == r && marks(core_slots@, items@, items@[j]);
                    assert(0 <= j < k + 1);
                }
            }
        }
        k = k + 1;
    }
    rooms
}

/// The places BLOB's top-left cell can be, numbered row by row: place `i`
/// is at row `i / 31` of [`SPOTS_DOWN`], column `i % 31`.
pub const SPOTS: usize = 527;

/// Whether BLOB fits at place `i`.
pub open spec fn fits_at(cells: Cells, i: int) -> bool {
    0 <= i < SPOTS && cells.window(FIRST_ROW + i / 31, i % 31)
}

/// Places side by side or one above the other.
pub open spec fn beside(i: int, j: int) -> bool {
    &&& 0 <= i < SPOTS
    &&& 0 <= j < SPOTS
    &&& ((j == i + 1 && i % 31 != 30) || (i == j + 1 && j % 31 != 30) || j == i + 31 || i == j + 31)
}

/// A walk through places BLOB fits, each beside the one before.
pub open spec fn walk(cells: Cells, p: Seq<int>) -> bool {
    &&& p.len() > 0
    &&& forall|k: int| 0 <= k < p.len() ==> fits_at(cells, #[trigger] p[k])
    &&& forall|k: int| 0 <= k < p.len() - 1 ==> beside(#[trigger] p[k], p[k + 1])
}

/// Whether BLOB can move from place `a` to place `b`, over free cells.
pub open spec fn joined(cells: Cells, a: int, b: int) -> bool {
    exists|p: Seq<int>| walk(cells, p) && p[0] == a && p.last() == b
}

proof fn walk_extends(cells: Cells, p: Seq<int>, j: int)
    requires
        walk(cells, p),
        fits_at(cells, j),
        beside(p.last(), j),
    ensures
        walk(cells, p.push(j)),
        p.push(j)[0] == p[0],
        p.push(j).last() == j,
{
    let q = p.push(j);
    assert forall|k: int| 0 <= k < q.len() implies fits_at(cells, #[trigger] q[k]) by {
        if k < p.len() {
            assert(q[k] == p[k]);
        }
    }
    assert forall|k: int| 0 <= k < q.len() - 1 implies beside(#[trigger] q[k], q[k + 1]) by {
        if k < p.len() - 1 {
            assert(q[k] == p[k] && q[k + 1] == p[k + 1]);
        } else {
            assert(q[k] == p.last());
        }
    }
}

proof fn walk_reversed(cells: Cells, p: Seq<int>)
    requires
        walk(cells, p),
    ensures
        walk(cells, p.reverse()),
        p.reverse()[0] == p.last(),
        p.reverse().last() == p[0],
{
    let q = p.reverse();
    assert forall|k: int| 0 <= k < q.len() implies fits_at(cells, #[trigger] q[k]) by {
        assert(q[k] == p[p.len() - 1 - k]);
    }
    assert forall|k: int| 0 <= k < q.len() - 1 implies beside(#[trigger] q[k], q[k + 1]) by {
        assert(q[k] == p[p.len() - 1 - k]);
        assert(q[k + 1] == p[p.len() - 2 - k]);
        assert(beside(p[p.len() - 2 - k], p[p.len() - 2 - k + 1]));
    }
}

proof fn walk_joined(cells: Cells, p: Seq<int>, q: Seq<int>)
    requires
        walk(cells, p),
        walk(cells, q),
        p.last() == q[0],
    ensures
        walk(cells, p + q.drop_first()),
        (p + q.drop_first())[0] == p[0],
        (p + q.drop_first()).last() == q.last(),
{
    let w = p + q.drop_first();
    assert forall|k: int| 0 <= k < w.len() implies fits_at(cells, #[trigger] w[k]) by {
        if k < p.len() {
            assert(w[k] == p[k]);
        } else {
            assert(w[k] == q[k - p.len() + 1]);
        }
    }
    assert forall|k: int| 0 <= k < w.len() - 1 implies beside(#[trigger] w[k], w[k + 1]) by {
        if k < p.len() - 1 {
            assert(w[k] == p[k] && w[k + 1] == p[k + 1]);
        } else if k == p.len() - 1 {
            assert(w[k] == q[0]);
            assert(w[k + 1] == q[1]);
        } else {
            assert(w[k] == q[k - p.len() + 1]);
            assert(w[k + 1] == q[k - p.len() + 2]);
        }
    }
    if q.len() == 1 {
        assert(w =~= p);
    }
}

/// Places two apart in a row where BLOB fits have the place between them
/// free too: the two windows cover its cells.
proof fn fits_between(cells: Cells, i: int)
    requires
        fits_at(cells, i),
        fits_at(cells, i + 2),
        i % 31 <= 28,
    ensures
        fits_at(cells, i + 1),
{
    assert((i + 1) / 31 == i / 31 && (i + 2) / 31 == i / 31);
    assert((i + 1) % 31 == i % 31 + 1 && (i + 2) % 31 == i % 31 + 2);
}

/// How many of `s` are 0.
pub open spec fn zeros(s: Seq<u8>) -> nat
    decreases s.len(),
{
    if s.len() == 0 {
        0
    } else {
        zeros(s.drop_last()) + if s.last() == 0 { 1nat } else { 0nat }
    }
}

proof fn zeros_update(s: Seq<u8>, i: int, v: u8)
    requires
        0 <= i < s.len(),
        s[i] == 0,
        v != 0,
    ensures
        zeros(s.update(i, v)) + 1 == zeros(s),
    decreases s.len(),
{
    let t = s.update(i, v);
    if i < s.len() - 1 {
        zeros_update(s.drop_last(), i, v);
        assert(t.drop_last() =~= s.drop_last().update(i, v));
    } else {
        assert(t.drop_last() =~= s.drop_last());
    }
}

/// The parts of a room BLOB can move between, ignoring gravity: every place
/// his top-left cell fits is numbered by the part it is in, and 0 where he
/// does not fit. Two places in the same part are joined by free cells, so a
/// solid wall between them gives them different numbers.
#[derive(Clone, Debug, PartialEq, Eq)]
pub struct Parts {
    spots: Vec<u8>,
}

/// What the parts' numbering promises of a room: a number where BLOB
/// fits and 0 where he does not, the same number beside each other, and
/// the same number only where he can move from one to the other.
pub open spec fn numbered(cells: Cells, parts: Seq<u8>) -> bool {
    &&& parts.len() == SPOTS
    &&& forall|i: int| 0 <= i < SPOTS ==> (#[trigger] parts[i] != 0) == fits_at(cells, i)
    &&& forall|i: int, j: int| #![trigger parts[i], parts[j]] beside(i, j) && fits_at(cells, i) && fits_at(cells, j) ==> parts[i] == parts[j]
    &&& forall|i: int, j: int| #![trigger parts[i], parts[j]] 0 <= i < SPOTS && 0 <= j < SPOTS && parts[i] != 0 && parts[i] == parts[j] ==> joined(cells, i, j)
}

/// Whether BLOB fits at place `i`.
fn fits_spot(cells: &Cells, i: usize) -> (b: bool)
    requires
        i < SPOTS,
    ensures
        b == fits_at(*cells, i as int),
{
    cells.fits(FIRST_ROW + (i / 31) as u8, (i % 31) as u8)
}

/// The flood fill's state while part `next` grows: numbers only where BLOB
/// fits, none above `next`, each number's places joined to its first, and
/// every numbered place off the stack, other than the one in `hand`, with
/// its neighbours numbered alike.
#[verifier::opaque]
pub open spec fn filling(cells: Cells, spots: Seq<u8>, todo: Seq<usize>, seeds: Seq<int>, next: u8, hand: int) -> bool {
    &&& spots.len() == SPOTS
    &&& seeds.len() == next + 1
    &&& forall|i: int| 0 <= i < SPOTS && #[trigger] spots[i] != 0 ==> fits_at(cells, i) && spots[i] <= next
        && joined(cells, seeds[spots[i] as int], i)
    &&& forall|t: int| 0 <= t < todo.len() ==> #[trigger] todo[t] < SPOTS && spots[todo[t] as int] == next
    &&& forall|i: int, j: int| #![trigger spots[i], spots[j]] beside(i, j) && fits_at(cells, i) && fits_at(cells, j)
        && spots[i] != 0 && !todo.contains(i as usize) && i != hand ==> spots[j] == spots[i]
}

/// Numbers place `k` with `next` and stacks it, when BLOB fits there and it
/// has no number yet.
fn visit(cells: &Cells, spots: &mut Vec<u8>, todo: &mut Vec<usize>, k: usize, next: u8)
    requires
        k < SPOTS,
        old(spots)@.len() == SPOTS,
    ensures
        if old(spots)@[k as int] == 0 && fits_at(*cells, k as int) {
            final(spots)@ == old(spots)@.update(k as int, next) && final(todo)@ == old(todo)@.push(k)
        } else {
            final(spots)@ == old(spots)@ && final(todo)@ == old(todo)@
        },
{
    if spots[k] == 0 && fits_spot(cells, k) {
        spots.set(k, next);
        todo.push(k);
    }
}

proof fn visited(
    cells: Cells,
    s0: Seq<u8>,
    t0: Seq<usize>,
    s1: Seq<u8>,
    t1: Seq<usize>,
    seeds: Seq<int>,
    next: u8,
    j: int,
    k: int,
)
    requires
        filling(cells, s0, t0, seeds, next, j),
        next != 0,
        0 <= j < SPOTS,
        s0[j] == next,
        beside(j, k),
        if s0[k] == 0 && fits_at(cells, k) {
            s1 == s0.update(k, next) && t1 == t0.push(k as usize)
        } else {
            s1 == s0 && t1 == t0
        },
    ensures
        filling(cells, s1, t1, seeds, next, j),
        s1.len() == SPOTS,
        s1[j] == next,
        fits_at(cells, k) ==> s1[k] == next,
        forall|i: int| 0 <= i < SPOTS && s0[i] != 0 ==> #[trigger] s1[i] == s0[i],
        zeros(s1) + t1.len() <= zeros(s0) + t0.len(),
{
    reveal(filling);
    if s0[k] == 0 && fits_at(cells, k) {
        zeros_update(s0, k, next);
        let p = choose|p: Seq<int>| walk(cells, p) && p[0] == seeds[next as int] && p.last() == j;
        walk_extends(cells, p, k);
        assert(joined(cells, seeds[next as int], k));
        assert forall|i: int| 0 <= i < SPOTS && #[trigger] s1[i] != 0 implies fits_at(cells, i) && s1[i] <= next
            && joined(cells, seeds[s1[i] as int], i) by {
            if i != k {
                assert(s0[i] == s1[i]);
            }
        }
        assert forall|t: int| 0 <= t < t1.len() implies #[trigger] t1[t] < SPOTS && s1[t1[t] as int] == next by {
            if t < t0.len() {
                assert(t1[t] == t0[t]);
            }
        }
        assert forall|i: int, m: int| #![trigger s1[i], s1[m]] beside(i, m) && fits_at(cells, i) && fits_at(cells, m)
            && s1[i] != 0 && !t1.contains(i as usize) && i != j implies s1[m] == s1[i] by {
            assert(t1[t1.len() - 1] == k as usize);
            assert(i != k);
            assert(s1[i] == s0[i]);
            assert forall|t: int| 0 <= t < t0.len() implies t0[t] != i as usize by {
                assert(t1[t] == t0[t]);
            }
            assert(!t0.contains(i as usize));
            assert(s0[m] == s0[i]);
            if m == k {
                assert(s0[k] != 0);
            }
        }
    } else if fits_at(cells, k) {
        // Already numbered: off the stack it has the number of `j` beside
        // it, on the stack it is being numbered `next` too.
        if !t0.contains(k as usize) && k != j {
            assert(beside(k, j));
            assert(s0[j] == s0[k]);
        } else {
            let t = choose|t: int| 0 <= t < t0.len() && t0[t] == k as usize;
            assert(s0[t0[t] as int] == next);
        }
    }
}

proof fn filling_start(cells: Cells, s: Seq<u8>)
    requires
        s.len() == SPOTS,
        forall|k: int| 0 <= k < SPOTS ==> #[trigger] s[k] == 0,
    ensures
        filling(cells, s, Seq::<usize>::empty(), seq![0int], 0, -1),
{
    reveal(filling);
}

proof fn closed_fill(cells: Cells, s: Seq<u8>, seeds: Seq<int>, next: u8)
    requires
        filling(cells, s, Seq::<usize>::empty(), seeds, next, -1),
    ensures
        forall|i: int| 0 <= i < SPOTS && #[trigger] s[i] != 0 ==> fits_at(cells, i) && s[i] <= next,
        forall|i: int, j: int| #![trigger s[i], s[j]] beside(i, j) && fits_at(cells, i) && fits_at(cells, j) && s[i]
            != 0 ==> s[j] == s[i],
{
    reveal(filling);
    assert forall|i: int, j: int| #![trigger s[i], s[j]] beside(i, j) && fits_at(cells, i) && fits_at(cells, j) && s[i]
        != 0 implies s[j] == s[i] by {
        assert(!Seq::<usize>::empty().contains(i as usize));
    }
}

proof fn popped(cells: Cells, s: Seq<u8>, t: Seq<usize>, seeds: Seq<int>, next: u8)
    requires
        filling(cells, s, t, seeds, next, -1),
        t.len() > 0,
    ensures
        filling(cells, s, t.drop_last(), seeds, next, t.last() as int),
        s.len() == SPOTS,
        t.last() < SPOTS,
        s[t.last() as int] == next,
{
    reveal(filling);
    let u = t.drop_last();
    assert(t[t.len() - 1] == t.last());
    assert forall|x: int| 0 <= x < u.len() implies #[trigger] u[x] < SPOTS && s[u[x] as int] == next by {
        assert(u[x] == t[x]);
    }
    assert forall|i: int, j: int| #![trigger s[i], s[j]] beside(i, j) && fits_at(cells, i) && fits_at(cells, j)
        && s[i] != 0 && !u.contains(i as usize) && i != t.last() as int implies s[j] == s[i] by {
        if t.contains(i as usize) {
            let x = choose|x: int| 0 <= x < t.len() && t[x] == i as usize;
            if x < t.len() - 1 {
                assert(u[x] == t[x]);
            }
        }
    }
}

proof fn settled(cells: Cells, s: Seq<u8>, t: Seq<usize>, seeds: Seq<int>, next: u8, j: int)
    requires
        filling(cells, s, t, seeds, next, j),
        0 <= j < SPOTS,
        s[j] == next,
        forall|k: int| beside(j, k) && fits_at(cells, k) ==> s[k] == next,
    ensures
        filling(cells, s, t, seeds, next, -1),
{
    reveal(filling);
}

proof fn seeded(cells: Cells, s: Seq<u8>, seeds: Seq<int>, next: u8, i: int)
    requires
        filling(cells, s, Seq::<usize>::empty(), seeds, next, -1),
        next < 255,
        0 <= i < SPOTS,
        s[i] == 0,
        fits_at(cells, i),
    ensures
        filling(cells, s.update(i, (next + 1) as u8), seq![i as usize], seeds.push(i), (next + 1) as u8, -1),
{
    reveal(filling);
    let n = (next + 1) as u8;
    let s1 = s.update(i, n);
    let seeds1 = seeds.push(i);
    let t1 = seq![i as usize];
    assert(walk(cells, seq![i]));
    assert(joined(cells, i, i)) by {
        assert(seq![i][0] == i && seq![i].last() == i);
    }
    assert forall|x: int| 0 <= x < SPOTS && #[trigger] s1[x] != 0 implies fits_at(cells, x) && s1[x] <= n && joined(
        cells,
        seeds1[s1[x] as int],
        x,
    ) by {
        if x != i {
            assert(s1[x] == s[x]);
            assert(seeds1[s[x] as int] == seeds[s[x] as int]);
        }
    }
    assert forall|a: int, b: int| #![trigger s1[a], s1[b]] beside(a, b) && fits_at(cells, a) && fits_at(cells, b)
        && s1[a] != 0 && !t1.contains(a as usize) && a != -1 implies s1[b] == s1[a] by {
        assert(t1[0] == i as usize);
        assert(a != i);
        assert(s1[a] == s[a]);
        assert(!Seq::<usize>::empty().contains(a as usize));
        assert(s[b] == s[a]);
        if b == i {
            assert(false);
        }
    }
}

proof fn numbered_at_end(cells: Cells, s: Seq<u8>, seeds: Seq<int>, next: u8)
    requires
        filling(cells, s, Seq::<usize>::empty(), seeds, next, -1),
        forall|k: int| 0 <= k < SPOTS && fits_at(cells, k) ==> #[trigger] s[k] != 0,
    ensures
        numbered(cells, s),
{
    reveal(filling);
    assert forall|i: int, j: int| #![trigger s[i], s[j]] beside(i, j) && fits_at(cells, i) && fits_at(cells, j)
        implies s[i] == s[j] by {
        assert(!Seq::<usize>::empty().contains(i as usize));
    }
    assert forall|i: int, j: int| #![trigger s[i], s[j]] 0 <= i < SPOTS && 0 <= j < SPOTS && s[i] != 0 && s[i] == s[j]
        implies joined(cells, i, j) by {
        let seed = seeds[s[i] as int];
        let p = choose|p: Seq<int>| walk(cells, p) && p[0] == seed && p.last() == i;
        let q = choose|q: Seq<int>| walk(cells, q) && q[0] == seed && q.last() == j;
        walk_reversed(cells, p);
        walk_joined(cells, p.reverse(), q);
    }
}

/// Takes a place off the stack and numbers the places beside it where
/// BLOB fits that have no number yet, stacking them.
fn spread(cells: &Cells, spots: &mut Vec<u8>, todo: &mut Vec<usize>, next: u8, Ghost(seeds): Ghost<Seq<int>>)
    requires
        filling(*cells, old(spots)@, old(todo)@, seeds, next, -1),
        next != 0,
        old(todo)@.len() > 0,
    ensures
        filling(*cells, final(spots)@, final(todo)@, seeds, next, -1),
        final(spots)@.len() == SPOTS,
        forall|k: int| 0 <= k < SPOTS && old(spots)@[k] != 0 ==> #[trigger] final(spots)@[k] == old(spots)@[k],
        zeros(final(spots)@) + final(todo)@.len() < zeros(old(spots)@) + old(todo)@.len(),
{
    let ghost t0 = todo@;
    proof {
        popped(*cells, spots@, todo@, seeds, next);
    }
    let j = todo.pop().unwrap();
    assert(todo@ == t0.drop_last());
    let r = j / 31;
    let cj = j % 31;
    if cj + 1 < 31 {
        let ghost (s0, u0) = (spots@, todo@);
        visit(cells, spots, todo, j + 1, next);
        proof {
            visited(*cells, s0, u0, spots@, todo@, seeds, next, j as int, j + 1);
        }
    }
    if r + 1 < 17 {
        let ghost (s0, u0) = (spots@, todo@);
        visit(cells, spots, todo, j + 31, next);
        proof {
            visited(*cells, s0, u0, spots@, todo@, seeds, next, j as int, j + 31);
        }
    }
    if cj > 0 {
        let ghost (s0, u0) = (spots@, todo@);
        visit(cells, spots, todo, j - 1, next);
        proof {
            visited(*cells, s0, u0, spots@, todo@, seeds, next, j as int, j - 1);
        }
    }
    if r > 0 {
        let ghost (s0, u0) = (spots@, todo@);
        visit(cells, spots, todo, j - 31, next);
        proof {
            visited(*cells, s0, u0, spots@, todo@, seeds, next, j as int, j - 31);
        }
    }
    proof {
        assert forall|k: int| beside(j as int, k) && fits_at(*cells, k) implies spots@[k] == next by {
            assert(spots@[k] != 0);
        }
        settled(*cells, spots@, todo@, seeds, next, j as int);
    }
}

/// The number at screen (`row`, `col`), or 0 outside the places.
pub open spec fn part_at(parts: Seq<u8>, row: int, col: int) -> u8 {
    let r = row - FIRST_ROW;
    if 0 <= r < SPOTS_DOWN && 0 <= col < SPOTS_ACROSS {
        parts[r * 31 + col]
    } else {
        0
    }
}

/// The first number found at column `col` in rows `r` to `to` (not
/// included), or 0.
pub open spec fn first_in_rows(parts: Seq<u8>, r: int, to: int, col: int) -> u8
    decreases to - r,
{
    if r >= to {
        0
    } else if part_at(parts, r, col) != 0 {
        part_at(parts, r, col)
    } else {
        first_in_rows(parts, r + 1, to, col)
    }
}

/// The part nearest a tile's side: going out from it a column at a time,
/// the first number in the tile's rows and the one above them.
pub open spec fn nearest_part(parts: Seq<u8>, rows: (int, int), cols: Seq<int>) -> u8
    decreases cols.len(),
{
    if cols.len() == 0 {
        0
    } else if first_in_rows(parts, rows.0, rows.1, cols[0]) != 0 {
        first_in_rows(parts, rows.0, rows.1, cols[0])
    } else {
        nearest_part(parts, rows, cols.drop_first())
    }
}

/// The columns left of a tile at `col` where BLOB's top-left cell can
/// stand beside it, nearest first, as the original counts them in a byte.
pub open spec fn left_cols(col: u8) -> Seq<int> {
    Seq::new(6, |d: int| ((col as int - 2 - d) % 256))
}

/// The columns right of a tile at `col`, `width` wide, nearest first.
pub open spec fn right_cols(col: u8, width: u8) -> Seq<int> {
    Seq::new(6, |d: int| col + width + d)
}

/// The numbers after joining the parts on either side of a tile: the
/// right side's number becomes the left side's, when both sides have one
/// and they differ.
pub open spec fn joined_across(parts: Seq<u8>, row: u8, col: u8, width: u8) -> Seq<u8> {
    let rows = (if row == 0 { 0 } else { row - 1 }, row + 3);
    let a = nearest_part(parts, rows, left_cols(col));
    let b = nearest_part(parts, rows, right_cols(col, width));
    if a != 0 && b != 0 && a != b {
        parts.map_values(|x: u8| if x == b { a } else { x })
    } else {
        parts
    }
}

/// One room as the map reads it.
pub struct Room {
    pub openings: Openings,
    /// Its parts with security doors shut, and with them open.
    pub shut: Parts,
    pub open: Parts,
    /// The cell of its wall passage marker, if it has one.
    pub passage: Option<(u8, u8)>,
    /// Its solid cells, a bit per cell: bit `col` of `solid[row]`, rows
    /// from the top of the play area.
    pub solid: [u32; 18],
}

impl Room {
    /// Both numberings cover every place.
    pub open spec fn wf(self) -> bool {
        self.shut@.len() == SPOTS && self.open@.len() == SPOTS
    }
}

/// A stretch of a room's edge BLOB can leave through, from `start` to `end`
/// clockwise, and the part of the room it belongs to with doors shut and
/// with them open.
#[derive(Clone, Copy, Debug, PartialEq, Eq, Structural)]
pub struct Port {
    pub start: u8,
    pub end: u8,
    pub shut: u8,
    pub open: u8,
}

/// The places along a room's edge, clockwise from the top-left corner:
/// 31 along the top, 17 down the right, 31 back along the bottom and 17 up
/// the left. Place `k` is where on the edge it starts, and the screen row
/// and column of BLOB's top-left cell there.
pub open spec fn edge_place(k: int) -> (int, int, int) {
    if k < 31 {
        (k, FIRST_ROW as int, k)
    } else if k < 48 {
        (TOP + (k - 31), FIRST_ROW + (k - 31), 30)
    } else if k < 79 {
        (TOP + SIDE + (k - 48), FIRST_ROW + 16, 30 - (k - 48))
    } else {
        (2 * TOP + SIDE + (k - 79), FIRST_ROW + 16 - (k - 79), 0)
    }
}

/// The stretch of edge place `k`, two cells long, when BLOB fits there.
pub open spec fn edge_port(room: Room, k: int) -> Option<Port> {
    let (start, row, col) = edge_place(k);
    let shut = part_at(room.shut@, row, col);
    if shut != 0 {
        Some(Port { start: start as u8, end: (start + 2) as u8, shut, open: part_at(room.open@, row, col) })
    } else {
        None
    }
}

/// The stretches of the first `n` edge places, in order.
pub open spec fn edge_ports(room: Room, n: int) -> Seq<Port>
    decreases n,
{
    if n <= 0 {
        seq![]
    } else {
        edge_ports(room, n - 1) + match edge_port(room, n - 1) {
            Some(p) => seq![p],
            None => seq![],
        }
    }
}

/// The first column from `c` up to `to` (not included) in row `r` where
/// BLOB fits.
pub open spec fn first_in_row(shut: Seq<u8>, r: int, c: int, to: int) -> Option<int>
    decreases to - c,
{
    if c >= to {
        None
    } else if part_at(shut, r, c) != 0 {
        Some(c)
    } else {
        first_in_row(shut, r, c + 1, to)
    }
}

/// The first place BLOB fits in rows `r` to `r_to` and columns `c_from`
/// to `c_to` (neither end included), row by row.
pub open spec fn first_near(shut: Seq<u8>, r: int, r_to: int, c_from: int, c_to: int) -> Option<(int, int)>
    decreases r_to - r,
{
    if r >= r_to {
        None
    } else {
        match first_in_row(shut, r, c_from, c_to) {
            Some(c) => Some((r, c)),
            None => first_near(shut, r + 1, r_to, c_from, c_to),
        }
    }
}

/// The stretches a wall passage adds on the sides given: three cells long,
/// level with the passage on the right edge, or on the left, and of the
/// part of the first place BLOB fits near its tile, four cells by three.
pub open spec fn passage_ports(room: Room, left: bool, right: bool) -> Seq<Port> {
    match room.passage {
        None => seq![],
        Some((row, col)) => match first_near(
            room.shut@,
            if row == 0 { 0 } else { row - 1 },
            row + 3,
            if col < 2 { 0 } else { col - 2 },
            col + 4,
        ) {
            None => seq![],
            Some((r, c)) => {
                let at = if row < FIRST_ROW { 0 } else if row - FIRST_ROW > SIDE - 3 { SIDE - 3 } else { row - FIRST_ROW };
                let shut = part_at(room.shut@, r, c);
                let open = part_at(room.open@, r, c);
                let start_left = 2 * TOP + SIDE + (SIDE - 3 - at);
                (if right {
                    seq![Port { start: (TOP + at) as u8, end: (TOP + at + 3) as u8, shut, open }]
                } else {
                    seq![]
                }) + (if left {
                    seq![Port { start: start_left as u8, end: (start_left + 3) as u8, shut, open }]
                } else {
                    seq![]
                })
            },
        },
    }
}

/// Two lists of stretches, each in order of start, merged in order of
/// start, the first list's before the second's at the same start.
pub open spec fn merged(a: Seq<Port>, b: Seq<Port>) -> Seq<Port>
    decreases a.len() + b.len(),
{
    if a.len() == 0 {
        b
    } else if b.len() == 0 {
        a
    } else if a[0].start <= b[0].start {
        seq![a[0]] + merged(a.drop_first(), b)
    } else {
        seq![b[0]] + merged(a, b.drop_first())
    }
}

/// Stretches in order, each joined to the one before when they belong to
/// the same part and touch or overlap.
pub open spec fn joined_ports(s: Seq<Port>) -> Seq<Port>
    decreases s.len(),
{
    if s.len() == 0 {
        seq![]
    } else {
        let j = joined_ports(s.drop_last());
        let p = s.last();
        if j.len() > 0 && j.last().shut == p.shut && p.start <= j.last().end {
            j.update(
                j.len() - 1,
                Port { end: if p.end > j.last().end { p.end } else { j.last().end }, ..j.last() },
            )
        } else {
            j.push(p)
        }
    }
}

/// The stretches of a room's edge BLOB can leave through.
pub open spec fn ports_spec(room: Room, left: bool, right: bool) -> Seq<Port> {
    joined_ports(merged(edge_ports(room, 96), passage_ports(room, left, right)))
}

fn edge_place_of(k: u8) -> (e: (u8, u8, u8))
    requires
        k < 96,
    ensures
        (e.0 as int, e.1 as int, e.2 as int) == edge_place(k as int),
{
    if k < 31 {
        (k, FIRST_ROW, k)
    } else if k < 48 {
        (TOP + (k - 31), FIRST_ROW + (k - 31), 30)
    } else if k < 79 {
        (TOP + SIDE + (k - 48), FIRST_ROW + 16, 30 - (k - 48))
    } else {
        (2 * TOP + SIDE + (k - 79), FIRST_ROW + 16 - (k - 79), 0)
    }
}

/// The first place BLOB fits near a wall passage's tile, as
/// [`first_near`] has it.
fn near_passage(shut: &Parts, row: u8, col: u8) -> (n: Option<(u8, u8)>)
    requires
        shut@.len() == SPOTS,
        row <= 252,
        col <= 251,
    ensures
        match n {
            Some((r, c)) => first_near(shut@, if row == 0 { 0 } else { row - 1 }, row + 3, if col < 2 { 0 } else { col - 2 }, col + 4)
                == Some((r as int, c as int)),
            None => first_near(shut@, if row == 0 { 0 } else { row - 1 }, row + 3, if col < 2 { 0 } else { col - 2 }, col + 4) is None,
        },
{
    let r_to = row + 3;
    let c_from = col.saturating_sub(2);
    let c_to = col + 4;
    let mut r = row.saturating_sub(1);
    while r < r_to
        invariant
            r <= r_to,
            r_to == row + 3,
            c_from == (if col < 2 { 0 } else { col - 2 }),
            c_to == col + 4,
            shut@.len() == SPOTS,
            first_near(shut@, if row == 0 { 0 } else { row - 1 }, r_to as int, c_from as int, c_to as int) == first_near(
                shut@,
                r as int,
                r_to as int,
                c_from as int,
                c_to as int,
            ),
        decreases r_to - r,
    {
        let mut c = c_from;
        while c < c_to
            invariant
                c_from <= c <= c_to,
                r < r_to,
                r_to == row + 3,
                c_from == (if col < 2 { 0 } else { col - 2 }),
                c_to == col + 4,
                first_near(shut@, if row == 0 { 0 } else { row - 1 }, r_to as int, c_from as int, c_to as int) == first_near(
                    shut@,
                    r as int,
                    r_to as int,
                    c_from as int,
                    c_to as int,
                ),
                shut@.len() == SPOTS,
                first_in_row(shut@, r as int, c_from as int, c_to as int) == first_in_row(shut@, r as int, c as int, c_to as int),
            decreases c_to - c,
        {
            if shut.at(r, c) != 0 {
                return Some((r, c));
            }
            c = c + 1;
        }
        r = r + 1;
    }
    None
}

fn merge_ports(a: &Vec<Port>, b: &Vec<Port>) -> (m: Vec<Port>)
    ensures
        m@ == merged(a@, b@),
{
    let mut out: Vec<Port> = Vec::new();
    let mut i: usize = 0;
    let mut j: usize = 0;
    assert(a@.skip(0) =~= a@ && b@.skip(0) =~= b@);
    while i < a.len() || j < b.len()
        invariant
            i <= a@.len(),
            j <= b@.len(),
            out@ + merged(a@.skip(i as int), b@.skip(j as int)) == merged(a@, b@),
        decreases a@.len() - i + b@.len() - j,
    {
        let ghost (x, y) = (a@.skip(i as int), b@.skip(j as int));
        if j >= b.len() || (i < a.len() && a[i].start <= b[j].start) {
            proof {
                assert(x.drop_first() =~= a@.skip(i + 1));
                assert(x[0] == a@[i as int]);
                if y.len() == 0 {
                    assert(merged(x, y) == x);
                    assert(merged(x.drop_first(), y) == x.drop_first());
                    assert(x =~= seq![x[0]] + x.drop_first());
                }
                assert(merged(x, y) == seq![x[0]] + merged(x.drop_first(), y));
            }
            out.push(a[i]);
            i = i + 1;
            assert(out@ + merged(a@.skip(i as int), b@.skip(j as int)) =~= merged(a@, b@));
        } else {
            proof {
                assert(y.drop_first() =~= b@.skip(j + 1));
                assert(y[0] == b@[j as int]);
                if x.len() == 0 {
                    assert(merged(x, y) == y);
                    assert(merged(x, y.drop_first()) == y.drop_first());
                    assert(y =~= seq![y[0]] + y.drop_first());
                }
                assert(merged(x, y) == seq![y[0]] + merged(x, y.drop_first()));
            }
            out.push(b[j]);
            j = j + 1;
            assert(out@ + merged(a@.skip(i as int), b@.skip(j as int)) =~= merged(a@, b@));
        }
    }
    assert(a@.skip(i as int) =~= Seq::<Port>::empty() && b@.skip(j as int) =~= Seq::<Port>::empty());
    assert(out@ =~= merged(a@, b@));
    out
}

fn join_stretches(s: &Vec<Port>) -> (j: Vec<Port>)
    ensures
        j@ == joined_ports(s@),
{
    let mut out: Vec<Port> = Vec::new();
    let mut i: usize = 0;
    while i < s.len()
        invariant
            i <= s@.len(),
            out@ == joined_ports(s@.take(i as int)),
        decreases s@.len() - i,
    {
        let p = s[i];
        assert(s@.take(i + 1).drop_last() =~= s@.take(i as int));
        assert(s@.take(i + 1).last() == p);
        let n = out.len();
        if n > 0 && out[n - 1].shut == p.shut && p.start <= out[n - 1].end {
            let last = out[n - 1];
            let end = if p.end > last.end { p.end } else { last.end };
            out.set(n - 1, Port { start: last.start, end, shut: last.shut, open: last.open });
        } else {
            out.push(p);
        }
        i = i + 1;
    }
    assert(s@.take(i as int) =~= s@);
    out
}

/// The stretches of a room's edge BLOB can leave through, in clockwise
/// order: every place he fits against an edge, joined where they touch and
/// belong to the same part, and the wall passages on the sides given.
pub fn ports(room: &Room, passage_left: bool, passage_right: bool) -> (v: Vec<Port>)
    requires
        room.wf(),
        room.passage matches Some((row, col)) ==> row <= 252 && col <= 251,
    ensures
        v@ == ports_spec(*room, passage_left, passage_right),
{
    let mut edges: Vec<Port> = Vec::new();
    let mut k: u8 = 0;
    while k < 96
        invariant
            k <= 96,
            room.wf(),
            edges@ == edge_ports(*room, k as int),
        decreases 96 - k,
    {
        let (start, row, col) = edge_place_of(k);
        let shut = room.shut.at(row, col);
        if shut != 0 {
            edges.push(Port { start, end: start + 2, shut, open: room.open.at(row, col) });
        }
        k = k + 1;
    }
    let mut extra: Vec<Port> = Vec::new();
    match room.passage {
        Some((row, col)) => {
            match near_passage(&room.shut, row, col) {
                Some((r, c)) => {
                    let from = row.saturating_sub(FIRST_ROW);
                    let at = if from > SIDE - 3 { SIDE - 3 } else { from };
                    let shut = room.shut.at(r, c);
                    let open = room.open.at(r, c);
                    if passage_right {
                        extra.push(Port { start: TOP + at, end: TOP + at + 3, shut, open });
                    }
                    if passage_left {
                        let start = 2 * TOP + SIDE + (SIDE - 3 - at);
                        extra.push(Port { start, end: start + 3, shut, open });
                    }
                },
                None => {},
            }
        },
        None => {},
    }
    assert(extra@ =~= passage_ports(*room, passage_left, passage_right));
    let all = merge_ports(&edges, &extra);
    join_stretches(&all)
}

/// Whether the cell at (`row`, `col`) of the play area is solid in `room`.
pub open spec fn solid_at(room: Room, row: int, col: int) -> bool {
    0 <= row < 18 && 0 <= col < 32 && room.solid[row] & (1u32 << (col as u32)) != 0
}

/// Every part in `ported` is the same one.
pub open spec fn one_part(ported: Seq<u8>) -> bool {
    forall|a: int, b: int| 0 <= a < ported.len() && 0 <= b < ported.len() ==> #[trigger] ported[a] == #[trigger] ported[b]
}

/// The part a part with doors shut belongs to with them open: that of its
/// first place, row by row, or 0 when it has none.
pub open spec fn open_of_spec(room: Room, p: u8, i: int) -> u8
    decreases SPOTS - i,
{
    if i >= SPOTS || i < 0 {
        0
    } else if room.shut@[i] == p {
        room.open@[i]
    } else {
        open_of_spec(room, p, i + 1)
    }
}

fn open_of(room: &Room, p: u8) -> (o: u8)
    requires
        room.wf(),
    ensures
        o == open_of_spec(*room, p, 0),
{
    let mut i: usize = 0;
    while i < SPOTS
        invariant
            i <= SPOTS,
            room.wf(),
            open_of_spec(*room, p, 0) == open_of_spec(*room, p, i as int),
        decreases SPOTS - i,
    {
        let r = (i / 31) as u8;
        let c = (i % 31) as u8;
        assert(part_at(room.shut@, FIRST_ROW + r, c as int) == room.shut@[i as int]);
        if room.shut.at(FIRST_ROW + r, c) == p {
            assert(part_at(room.open@, FIRST_ROW + r, c as int) == room.open@[i as int]);
            return room.open.at(FIRST_ROW + r, c);
        }
        i = i + 1;
    }
    0
}

fn contains_part(ported: &[u8], p: u8) -> (b: bool)
    ensures
        b == exists|k: int| 0 <= k < ported@.len() && ported@[k] == p,
{
    let mut k: usize = 0;
    while k < ported.len()
        invariant
            k <= ported@.len(),
            forall|j: int| 0 <= j < k ==> ported@[j] != p,
        decreases ported@.len() - k,
    {
        if ported[k] == p {
            return true;
        }
        k = k + 1;
    }
    false
}

proof fn bits_kept(x: u32, d: u32, sol: u32, c: u32)
    requires
        c < 32,
        x & !sol == 0,
        d & !x == 0,
        sol & (1u32 << c) != 0,
    ensures
        (x | (1u32 << c)) & !sol == 0,
        (d | (1u32 << c)) & !(x | (1u32 << c)) == 0,
        d & !(x | (1u32 << c)) == 0,
{
    assert((x | (1u32 << c)) & !sol == 0 && (d | (1u32 << c)) & !(x | (1u32 << c)) == 0 && d & !(x | (1u32 << c)) == 0)
        by (bit_vector)
        requires
            c < 32,
            x & !sol == 0,
            d & !x == 0,
            sol & (1u32 << c) != 0,
    ;
}

proof fn bits_within(x: u32, d: u32, sol: u32, c: u32)
    requires
        c < 32,
        x & !sol == 0,
        d & !x == 0,
    ensures
        x & (1u32 << c) != 0 ==> sol & (1u32 << c) != 0,
        d & (1u32 << c) != 0 ==> x & (1u32 << c) != 0,
{
    assert((x & (1u32 << c) != 0 ==> sol & (1u32 << c) != 0) && (d & (1u32 << c) != 0 ==> x & (1u32 << c) != 0))
        by (bit_vector)
        requires
            c < 32,
            x & !sol == 0,
            d & !x == 0,
    ;
}

/// What the walls found so far keep to: each a solid cell, each door's
/// cell a wall, and none at all while every part grown is the same one.
pub open spec fn walls_kept(room: Room, ported: Seq<u8>, cells: [u32; 18], doors: [u32; 18]) -> bool {
    &&& forall|r: int| 0 <= r < 18 ==> #[trigger] cells[r] & !room.solid[r] == 0 && doors[r] & !cells[r] == 0
    &&& one_part(ported) ==> forall|r: int| 0 <= r < 18 ==> #[trigger] cells[r] == 0 && doors[r] == 0
}

/// The wall bits of row `r` with the cell in column `c` set, when `set`
/// and the cell is solid.
pub open spec fn marked(room: Room, bits: Seq<u32>, r: int, c: int, set: bool) -> Seq<u32> {
    if set && room.solid[r] & (1u32 << (c as u32)) != 0 {
        bits.update(r, bits[r] | (1u32 << (c as u32)))
    } else {
        bits
    }
}

/// Records the cell at (`r`, `c`) as a wall between parts `a` and `b`,
/// when it is solid; a door's when opening doors and pads joins them.
fn mark(room: &Room, cells: &mut [u32; 18], doors: &mut [u32; 18], r: usize, c: usize, a: u8, b: u8, Ghost(ported): Ghost<Seq<u8>>)
    requires
        room.wf(),
        r < 18,
        c < 32,
        walls_kept(*room, ported, *old(cells), *old(doors)),
        !one_part(ported),
    ensures
        walls_kept(*room, ported, *final(cells), *final(doors)),
        final(cells)@ == marked(*room, old(cells)@, r as int, c as int, true),
        final(doors)@ == marked(*room, old(doors)@, r as int, c as int, open_of_spec(*room, a, 0) == open_of_spec(*room, b, 0)),
{
    let bit = 1u32 << (c as u32);
    if room.solid[r] & bit == 0 {
        assert(cells@ =~= marked(*room, old(cells)@, r as int, c as int, true));
        return;
    }
    proof {
        bits_kept(cells[r as int], doors[r as int], room.solid[r as int], c as u32);
    }
    let joined = open_of(room, a) == open_of(room, b);
    cells[r] = cells[r] | bit;
    if joined {
        doors[r] = doors[r] | bit;
    }
    assert(cells@ =~= marked(*room, old(cells)@, r as int, c as int, true));
    assert(doors@ =~= marked(*room, old(doors)@, r as int, c as int, joined));
}

/// The growth's state: which part each cell of the play area (`r * 32 +
/// c`) was reached from, only ever a part in `ported`, and a queue of
/// cells reached.
pub open spec fn growing(ported: Seq<u8>, nearest: Seq<u8>, queue: Seq<usize>) -> bool {
    &&& nearest.len() == 576
    &&& forall|x: int| 0 <= x < 576 && #[trigger] nearest[x] != 0 ==> exists|k: int| 0 <= k < ported.len() && ported[k] == nearest[x]
    &&& forall|t: int| 0 <= t < queue.len() ==> #[trigger] queue[t] < 576 && nearest[queue[t] as int] != 0
}

/// Reaches cell `x` from part `p`, when nothing reached it before.
fn reach(nearest: &mut Vec<u8>, queue: &mut Vec<usize>, x: usize, p: u8, Ghost(ported): Ghost<Seq<u8>>)
    requires
        growing(ported, old(nearest)@, old(queue)@),
        x < 576,
        p != 0,
        exists|k: int| 0 <= k < ported.len() && ported[k] == p,
    ensures
        growing(ported, final(nearest)@, final(queue)@),
        zeros(final(nearest)@) + final(queue)@.len() <= zeros(old(nearest)@) + old(queue)@.len(),
        final(queue)@.len() >= old(queue)@.len(),
        forall|y: int| 0 <= y < 576 && old(nearest)@[y] != 0 ==> #[trigger] final(nearest)@[y] == old(nearest)@[y],
        final(nearest)@ == if old(nearest)@[x as int] == 0 { old(nearest)@.update(x as int, p) } else { old(nearest)@ },
        final(queue)@ == if old(nearest)@[x as int] == 0 { old(queue)@.push(x) } else { old(queue)@ },
{
    if nearest[x] == 0 {
        proof {
            zeros_update(nearest@, x as int, p);
        }
        let ghost (n0, q0) = (nearest@, queue@);
        nearest.set(x, p);
        queue.push(x);
        proof {
            assert forall|y: int| 0 <= y < 576 && #[trigger] nearest@[y] != 0 implies exists|k: int| 0 <= k < ported.len()
                && ported[k] == nearest@[y] by {
                if y != x {
                    assert(nearest@[y] == n0[y]);
                }
            }
            assert forall|t: int| 0 <= t < queue@.len() implies #[trigger] queue@[t] < 576 && nearest@[queue@[t] as int]
                != 0 by {
                if t < q0.len() {
                    assert(queue@[t] == q0[t]);
                }
            }
        }
    }
}

/// Looks at cell `x` beside cell `q` in the growth: reached from nothing
/// yet, it is reached from `q`'s part; reached from another, the two are
/// recorded as walls where they are solid.
fn meet(
    room: &Room,
    nearest: &mut Vec<u8>,
    queue: &mut Vec<usize>,
    cells: &mut [u32; 18],
    doors: &mut [u32; 18],
    q: usize,
    x: usize,
    Ghost(ported): Ghost<Seq<u8>>,
)
    requires
        room.wf(),
        growing(ported, old(nearest)@, old(queue)@),
        walls_kept(*room, ported, *old(cells), *old(doors)),
        q < 576,
        x < 576,
        old(nearest)@[q as int] != 0,
    ensures
        growing(ported, final(nearest)@, final(queue)@),
        walls_kept(*room, ported, *final(cells), *final(doors)),
        zeros(final(nearest)@) + final(queue)@.len() <= zeros(old(nearest)@) + old(queue)@.len(),
        final(queue)@.len() >= old(queue)@.len(),
        final(nearest)@[q as int] == old(nearest)@[q as int],
        ({
            let here = old(nearest)@[q as int];
            let there = old(nearest)@[x as int];
            let fresh = there == 0;
            let walls = there != 0 && there != here;
            let joined = open_of_spec(*room, here, 0) == open_of_spec(*room, there, 0);
            &&& final(nearest)@ == if fresh { old(nearest)@.update(x as int, here) } else { old(nearest)@ }
            &&& final(queue)@ == if fresh { old(queue)@.push(x) } else { old(queue)@ }
            &&& final(cells)@ == if walls {
                marked(*room, marked(*room, old(cells)@, (q / 32) as int, (q % 32) as int, true), (x / 32) as int, (x % 32) as int, true)
            } else {
                old(cells)@
            }
            &&& final(doors)@ == if walls {
                marked(*room, marked(*room, old(doors)@, (q / 32) as int, (q % 32) as int, joined), (x / 32) as int, (x % 32) as int, joined)
            } else {
                old(doors)@
            }
        }),
{
    let here = nearest[q];
    let there = nearest[x];
    if there == 0 {
        reach(nearest, queue, x, here, Ghost(ported));
    } else if there != here {
        proof {
            let a = choose|k: int| 0 <= k < ported.len() && ported[k] == here;
            let b = choose|k: int| 0 <= k < ported.len() && ported[k] == there;
            assert(ported[a] != ported[b]);
        }
        mark(room, cells, doors, q / 32, q % 32, here, there, Ghost(ported));
        mark(room, cells, doors, x / 32, x % 32, here, there, Ghost(ported));
    }
}

impl Divides {
    /// Finds the walls of `room` between the parts in `ported`, those with
    /// an opening: every cell BLOB stands on in one of them is reached from
    /// it, and the growth goes out a cell at a time, breadth first; a solid
    /// cell where two parts meet is a wall, a door's when opening doors and
    /// pads joins the two.
    pub fn find(room: &Room, ported: &[u8]) -> (d: Divides)
        requires
            room.wf(),
        ensures
            forall|r: int, c: int| #[trigger] d.wall_spec(r, c) ==> solid_at(*room, r, c),
            forall|r: int, c: int| #[trigger] d.door_spec(r, c) ==> d.wall_spec(r, c),
            one_part(ported@) ==> d.is_empty(),
    {
        let ghost pts = ported@;
        let mut nearest: Vec<u8> = Vec::new();
        while nearest.len() < 576
            invariant
                nearest@.len() <= 576,
                forall|x: int| 0 <= x < nearest@.len() ==> #[trigger] nearest@[x] == 0,
            decreases 576 - nearest@.len(),
        {
            nearest.push(0);
        }
        let mut queue: Vec<usize> = Vec::new();
        let mut i: usize = 0;
        while i < SPOTS
            invariant
                i <= SPOTS,
                room.wf(),
                pts == ported@,
                growing(pts, nearest@, queue@),
            decreases SPOTS - i,
        {
            let r = i / 31;
            let c = i % 31;
            let p = room.shut.at(FIRST_ROW + r as u8, c as u8);
            if p != 0 && contains_part(ported, p) {
                reach(&mut nearest, &mut queue, r * 32 + c, p, Ghost(pts));
                reach(&mut nearest, &mut queue, r * 32 + c + 1, p, Ghost(pts));
                reach(&mut nearest, &mut queue, (r + 1) * 32 + c, p, Ghost(pts));
                reach(&mut nearest, &mut queue, (r + 1) * 32 + c + 1, p, Ghost(pts));
            }
            i = i + 1;
        }
        let mut cells = [0u32; 18];
        let mut doors = [0u32; 18];
        proof {
            assert(forall|x: u32| #[trigger] (0u32 & !x) == 0) by (bit_vector);
            assert forall|r: int| 0 <= r < 18 implies #[trigger] cells[r] & !room.solid[r] == 0 && doors[r] & !cells[r] == 0
                && cells[r] == 0 && doors[r] == 0 by {
                assert(cells[r] == 0 && doors[r] == 0);
                assert((0u32 & !room.solid[r]) == 0);
                assert((0u32 & !0u32) == 0);
            }
        }
        let mut head: usize = 0;
        while head < queue.len()
            invariant
                head <= queue@.len(),
                room.wf(),
                growing(pts, nearest@, queue@),
                walls_kept(*room, pts, cells, doors),
            decreases zeros(nearest@) + queue@.len() - head,
        {
            let q = queue[head];
            head = head + 1;
            let r = q / 32;
            let c = q % 32;
            if c + 1 < 32 {
                meet(room, &mut nearest, &mut queue, &mut cells, &mut doors, q, q + 1, Ghost(pts));
            }
            if r + 1 < 18 {
                meet(room, &mut nearest, &mut queue, &mut cells, &mut doors, q, q + 32, Ghost(pts));
            }
            if c >= 1 {
                meet(room, &mut nearest, &mut queue, &mut cells, &mut doors, q, q - 1, Ghost(pts));
            }
            if r >= 1 {
                meet(room, &mut nearest, &mut queue, &mut cells, &mut doors, q, q - 32, Ghost(pts));
            }
        }
        let d = Divides { cells, doors };
        proof {
            assert forall|r: int, c: int| #[trigger] d.wall_spec(r, c) implies solid_at(*room, r, c) by {
                bits_within(cells[r], doors[r], room.solid[r], c as u32);
            }
            assert forall|r: int, c: int| #[trigger] d.door_spec(r, c) implies d.wall_spec(r, c) by {
                bits_within(cells[r], doors[r], room.solid[r], c as u32);
            }
        }
        d
    }
}

impl Parts {
    /// The numbers, place by place.
    pub closed spec fn view(self) -> Seq<u8> {
        self.spots@
    }

    /// The part of the room BLOB is in with his top-left cell at screen
    /// (`row`, `col`), or 0 where he does not fit.
    pub fn at(&self, row: u8, col: u8) -> (p: u8)
        requires
            self@.len() == SPOTS,
        ensures
            p == part_at(self@, row as int, col as int),
    {
        let r = row.wrapping_sub(FIRST_ROW) as usize;
        if r < SPOTS_DOWN && (col as usize) < SPOTS_ACROSS {
            self.spots[r * 31 + col as usize]
        } else {
            0
        }
    }

    /// The first number in rows `from` to `to` (not included) at `col`.
    fn first_in(&self, from: u8, to: u8, col: u8) -> (p: u8)
        requires
            self@.len() == SPOTS,
        ensures
            p == first_in_rows(self@, from as int, to as int, col as int),
    {
        let mut r = from;
        while r < to
            invariant
                from <= r <= to || (from >= to && r == from),
                self@.len() == SPOTS,
                first_in_rows(self@, from as int, to as int, col as int) == first_in_rows(self@, r as int, to as int, col as int),
            decreases to - r,
        {
            let p = self.at(r, col);
            if p != 0 {
                return p;
            }
            r = r + 1;
        }
        0
    }

    /// Joins the parts on either side of a tile `width` cells wide and
    /// three tall from its cell at screen (`row`, `col`): what a door
    /// does when it opens, moving BLOB 48 pixels past the tile rather than
    /// through its cells, and what a teleport pad does when it is blanked.
    /// So on each side the nearest place BLOB fits within six cells counts,
    /// as ZX Sidekick found walking him through them.
    pub fn join_across(&mut self, row: u8, col: u8, width: u8)
        requires
            old(self)@.len() == SPOTS,
            row + 3 <= 255,
            col + width + 5 <= 255,
        ensures
            final(self)@ == joined_across(old(self)@, row, col, width),
    {
        let from = row.saturating_sub(1);
        let to = row + 3;
        assert(left_cols(col).skip(0) =~= left_cols(col));
        assert(right_cols(col, width).skip(0) =~= right_cols(col, width));
        let mut a: u8 = 0;
        let mut d: u8 = 0;
        while d < 6
            invariant
                d <= 6,
                self@.len() == SPOTS,
                nearest_part(self@, (from as int, to as int), left_cols(col)) == if a != 0 {
                    a
                } else {
                    nearest_part(self@, (from as int, to as int), left_cols(col).skip(d as int))
                },
            decreases 6 - d,
        {
            if a == 0 {
                let c = col.wrapping_sub(2 + d);
                assert(c as int == left_cols(col).skip(d as int)[0]);
                assert(left_cols(col).skip(d as int).drop_first() =~= left_cols(col).skip(d + 1));
                a = self.first_in(from, to, c);
            }
            d = d + 1;
        }
        let mut b: u8 = 0;
        let mut e: u8 = 0;
        while e < 6
            invariant
                e <= 6,
                col + width + 5 <= 255,
                self@.len() == SPOTS,
                nearest_part(self@, (from as int, to as int), right_cols(col, width)) == if b != 0 {
                    b
                } else {
                    nearest_part(self@, (from as int, to as int), right_cols(col, width).skip(e as int))
                },
            decreases 6 - e,
        {
            if b == 0 {
                let c = col + width + e;
                assert(c as int == right_cols(col, width).skip(e as int)[0]);
                assert(right_cols(col, width).skip(e as int).drop_first() =~= right_cols(col, width).skip(e + 1));
                b = self.first_in(from, to, c);
            }
            e = e + 1;
        }
        assert(left_cols(col).skip(6) =~= Seq::<int>::empty());
        assert(right_cols(col, width).skip(6) =~= Seq::<int>::empty());
        if a != 0 && b != 0 && a != b {
            let ghost before = self@;
            let mut i: usize = 0;
            while i < SPOTS
                invariant
                    i <= SPOTS,
                    before.len() == SPOTS,
                    self@.len() == SPOTS,
                    forall|k: int| 0 <= k < SPOTS ==> #[trigger] self@[k] == if k < i && before[k] == b {
                        a
                    } else {
                        before[k]
                    },
                decreases SPOTS - i,
            {
                if self.spots[i] == b {
                    self.spots.set(i, a);
                }
                i = i + 1;
            }
            assert(self@ =~= before.map_values(|x: u8| if x == b { a } else { x }));
        }
    }

    /// Numbers the parts of a room from its cells: each place BLOB fits
    /// not numbered yet, in rows from the top and left to right in a row,
    /// starts the next part, which then grows to every place beside one
    /// of its own where he fits.
    pub fn find(cells: &Cells) -> (parts: Parts)
        ensures
            numbered(*cells, parts@),
    {
        let mut spots: Vec<u8> = Vec::new();
        while spots.len() < SPOTS
            invariant
                spots@.len() <= SPOTS,
                forall|k: int| 0 <= k < spots@.len() ==> #[trigger] spots@[k] == 0,
            decreases SPOTS - spots@.len(),
        {
            spots.push(0);
        }
        let mut next: u8 = 0;
        let ghost mut seeds: Seq<int> = seq![0];
        let ghost mut last: int = -3;
        let mut i: usize = 0;
        proof {
            filling_start(*cells, spots@);
        }
        while i < SPOTS
            invariant
                i <= SPOTS,
                spots@.len() == SPOTS,
                filling(*cells, spots@, Seq::<usize>::empty(), seeds, next, -1),
                forall|k: int| 0 <= k < i && fits_at(*cells, k) ==> #[trigger] spots@[k] != 0,
                -3 <= last <= 30,
                i % 31 == 0 ==> last == -3,
                last >= 0 ==> last < i % 31 && spots@[i - i % 31 + last] != 0,
                next <= 11 * (i / 31) + (last + 3) / 3,
            decreases SPOTS - i,
        {
            if spots[i] == 0 && fits_spot(cells, i) {
                let ghost c = (i % 31) as int;
                proof {
                    closed_fill(*cells, spots@, seeds, next);
                    if last >= 0 {
                        let l = i - c + last;
                        assert(fits_at(*cells, l));
                        assert(l / 31 == i / 31 && l % 31 == last);
                        if c == last + 1 {
                            assert(beside(l, i as int));
                            assert(spots@[i as int] == spots@[l]);
                        } else if c == last + 2 {
                            fits_between(*cells, l);
                            assert(beside(l, l + 1) && beside(l + 1, i as int));
                            assert(spots@[l + 1] == spots@[l]);
                            assert(spots@[i as int] == spots@[l + 1]);
                        }
                        assert(c >= last + 3);
                    }
                    assert(next + 1 <= 11 * (i / 31) + (c + 3) / 3);
                    assert(i / 31 <= 16);
                    seeded(*cells, spots@, seeds, next, i as int);
                }
                next = next + 1;
                spots.set(i, next);
                proof {
                    seeds = seeds.push(i as int);
                }
                let mut todo: Vec<usize> = Vec::new();
                todo.push(i);
                assert(todo@ == seq![i]);
                let ghost before = spots@;
                while todo.len() > 0
                    invariant
                        filling(*cells, spots@, todo@, seeds, next, -1),
                        spots@.len() == SPOTS,
                        next != 0,
                        before.len() == SPOTS,
                        forall|k: int| 0 <= k < SPOTS && before[k] != 0 ==> #[trigger] spots@[k] == before[k],
                    decreases zeros(spots@) + todo@.len(),
                {
                    spread(cells, &mut spots, &mut todo, next, Ghost(seeds));
                }
                proof {
                    last = c;
                    assert(todo@ =~= Seq::<usize>::empty());
                }
            }
            if (i + 1) % 31 == 0 {
                proof {
                    last = -3;
                }
            }
            i = i + 1;
        }
        proof {
            numbered_at_end(*cells, spots@, seeds, next);
        }
        Parts { spots }
    }
}


} // verus!
