//! What a room's tiles leave behind for the game logic: the objects they
//! register, and the list of bright cells whose colours come back after
//! sprites are drawn.

use vstd::prelude::*;
use crate::display::{attr_offset_for, attr_offset_spec, cell_line, cell_offset, cell_offset_spec, LEN};
use crate::game::Game;

verus! {

/// First screen row of the room area.
pub const TOP_ROW: u8 = 6;

/// The room number is kept in 16 bits; lookups mask it to the 512 rooms.
pub const ROOM_MASK: u16 = 0x1FF;

/// Size of the sparkle table.
pub const SPARKLE_TABLE_LEN: usize = 0x62;
/// Room for five force-field records (and a bit).
pub const FORCE_FIELDS_LEN: usize = 0x2F;

/// The restore list's memory, kept like the original's (3-byte records,
/// ended by a record with a zero high address byte).
pub const RESTORE_START: u16 = 0x5B20;
pub const RESTORE_LEN: usize = 0xE0;

/// A marker left by a tile for the game logic, in pixel coordinates
/// (x from the left, y from the bottom).
#[derive(Clone, Copy, Debug, PartialEq, Eq, Structural)]
pub struct Marker {
    pub x: u8,
    pub y: u8,
    pub kind: u8,
}

/// Objects registered by the room's tiles. Positions are character
/// cells (col, row).
#[derive(Clone, Debug)]
pub struct RoomObjects {
    /// Tile type 5 positions, as (col, row) byte pairs at an offset derived
    /// from the position; entries can overlap, so the table is kept as bytes.
    pub sparkle_table: Vec<u8>,
    /// Which sparkle slot is animated next, and the sparkle attribute
    /// (high byte).
    pub sparkle_cursor: u16,
    /// Tile type 7 (force fields), raw 8-byte records: col, row, -, timer,
    /// period, active, -, -. A row of 0 ends the list.
    pub force_fields: Vec<u8>,
    /// Number of force fields while the room is built; afterwards the
    /// field animated next.
    pub force_field_cursor: u8,
    /// Tile type 8.
    pub type8: Vec<(u8, u8)>,
    /// Tile type 9: places where a pickup may appear.
    pub spawn_points: Vec<(u8, u8)>,
    /// Markers in placement order.
    pub markers: Vec<Marker>,
    /// Tile type 11 (teleporter): its position and the index of this room's
    /// entry in the teleporter table.
    pub teleport: Option<((u8, u8), usize)>,
    /// Pixel position of the kind-12 marker, if any.
    pub kind12: Option<(u8, u8)>,
}

/// The objects of a room with no tiles drawn yet.
pub open spec fn empty_objects(o: RoomObjects) -> bool {
    &&& o.sparkle_table@ == Seq::new(SPARKLE_TABLE_LEN as nat, |i: int| 0u8)
    &&& o.sparkle_cursor == 0x6700
    &&& o.force_fields@ == Seq::new(FORCE_FIELDS_LEN as nat, |i: int| 0u8)
    &&& o.force_field_cursor == 0
    &&& o.type8@.len() == 0
    &&& o.spawn_points@.len() == 0
    &&& o.markers@.len() == 0
    &&& o.teleport is None
    &&& o.kind12 is None
}

impl Default for RoomObjects {
    fn default() -> (o: RoomObjects)
        ensures
            empty_objects(o),
    {
        let o = RoomObjects {
            sparkle_table: vec![0; SPARKLE_TABLE_LEN],
            sparkle_cursor: 0x6700,
            force_fields: vec![0; FORCE_FIELDS_LEN],
            force_field_cursor: 0,
            type8: Vec::new(),
            spawn_points: Vec::new(),
            markers: Vec::new(),
            teleport: None,
            kind12: None,
        };
        assert(o.sparkle_table@ =~= Seq::new(SPARKLE_TABLE_LEN as nat, |i: int| 0u8));
        assert(o.force_fields@ =~= Seq::new(FORCE_FIELDS_LEN as nat, |i: int| 0u8));
        o
    }
}

/// A byte rotated left by three bits: a character cell's column or row as
/// a pixel position (or the other way round, for a position below 32).
pub open spec fn rl3(v: u8) -> u8 {
    (v << 3u8) | (v >> 5u8)
}

pub fn rotl3(v: u8) -> (r: u8)
    ensures
        r == rl3(v),
{
    (v << 3u8) | (v >> 5u8)
}

/// Where a marker registered at a character cell lies, in pixels.
pub open spec fn marker_at(kind: u8, row: u8, col: u8) -> Marker {
    Marker { x: rl3(col), y: ((rl3(((0x18 + 256 - row) % 256) as u8) + 255) % 256) as u8, kind }
}

/// The restore list's memory with `v` stored at Spectrum address `a`,
/// where the list holds it; elsewhere the write is lost.
pub open spec fn put_at(mem: Seq<u8>, a: int, v: u8) -> Seq<u8> {
    let slot = a - RESTORE_START;
    if 0 <= slot < mem.len() {
        mem.update(slot, v)
    } else {
        mem
    }
}

/// The restore list after the record (address low, address high,
/// attribute) for the attribute at display offset `offset` is written
/// at pointer `p`.
pub open spec fn recorded(mem: Seq<u8>, p: u16, offset: int, attr: u8) -> Seq<u8> {
    let addr = (0x4000 + offset) % 0x10000;
    put_at(
        put_at(put_at(mem, p as int, (addr % 256) as u8), (p + 1) % 0x10000, (addr / 256) as u8),
        (p + 2) % 0x10000,
        attr,
    )
}

/// The display after the first `n` of `pixels` are XORed onto the cell
/// whose first line is at `base`.
pub open spec fn xored(mem: Seq<u8>, base: int, pixels: Seq<u8>, n: int) -> Seq<u8> {
    Seq::new(
        mem.len(),
        |i: int|
            if cell_line(base, i) && (i - base) / 256 < n {
                mem[i] ^ pixels[(i - base) / 256]
            } else {
                mem[i]
            },
    )
}

/// A cell attribute written with bit 7 set: only the brightness (for
/// `0x80`/`0xC0`) or else the colour is set, from the attribute there.
pub open spec fn masked_attr(old: u8, attr: u8) -> u8 {
    let a = attr & 0x7F;
    if a == 0 || a == 0x40 {
        (old & !0x40u8) | a
    } else {
        a
    }
}

/// How many pixel lines a cell write takes from `pixels`.
pub open spec fn lines_of(pixels: Seq<u8>) -> int {
    if pixels.len() < 8 { pixels.len() as int } else { 8 }
}

/// Whether a cell write at (`row`, `col`) stays in display memory.
pub open spec fn cell_ok(row: u8, col: u8, pixels: Seq<u8>) -> bool {
    let base = cell_offset_spec(row, col);
    &&& base + (lines_of(pixels) - 1) * 256 < LEN
    &&& attr_offset_spec(base) < LEN
}

/// The display, restore list and its pointer after one cell is XORed onto
/// the screen with attribute `attr`.
pub open spec fn xor_cell_spec(mem: Seq<u8>, restore: Seq<u8>, ptr: u16, row: u8, col: u8, pixels: Seq<u8>, attr: u8) -> (
    Seq<u8>,
    Seq<u8>,
    u16,
) {
    let base = cell_offset_spec(row, col);
    let lines = xored(mem, base, pixels, lines_of(pixels));
    let at = attr_offset_spec(base);
    if attr & 0x80 != 0 {
        (lines.update(at, masked_attr(lines[at], attr)), restore, ptr)
    } else if attr & 0x40 != 0 {
        (lines.update(at, attr), recorded(restore, ptr, at, attr), ((ptr + 3) % 0x10000) as u16)
    } else {
        (lines.update(at, attr), restore, ptr)
    }
}

impl Game {
    /// Appends a (attribute address, value) record to the restore list. With
    /// the list pointer at 0 (while the panel is drawn) the original writes
    /// into ROM, i.e. nowhere, but the pointer still advances.
    fn record_restore(&mut self, attr_offset: usize, attr: u8)
        requires
            attr_offset < LEN,
        ensures
            final(self).restore_mem@ == recorded(old(self).restore_mem@, old(self).restore_ptr, attr_offset as int, attr),
            final(self).restore_ptr == (old(self).restore_ptr + 3) % 0x10000,
            *final(self) == (Game { restore_mem: final(self).restore_mem, restore_ptr: final(self).restore_ptr, ..*old(self) }),
    {
        let addr = (0x4000 + attr_offset) as u16;
        let vals: [u8; 3] = [(addr % 256) as u8, (addr / 256) as u8, attr];
        let p = self.restore_ptr;
        let ghost m0 = self.restore_mem@;
        let mut i: usize = 0;
        while i < 3
            invariant
                i <= 3,
                p == old(self).restore_ptr,
                vals == [(addr % 256) as u8, (addr / 256) as u8, attr],
                addr == (0x4000 + attr_offset) % 0x10000,
                self.restore_mem@ == (if i == 0 { m0 } else if i == 1 { put_at(m0, p as int, vals[0]) } else if i == 2 {
                    put_at(put_at(m0, p as int, vals[0]), (p + 1) % 0x10000, vals[1])
                } else {
                    recorded(m0, p, attr_offset as int, attr)
                }),
                *self == (Game { restore_mem: self.restore_mem, ..*old(self) }),
            decreases 3 - i,
        {
            let a = p.wrapping_add(i as u16);
            if a >= RESTORE_START && ((a - RESTORE_START) as usize) < self.restore_mem.len() {
                self.restore_mem.set((a - RESTORE_START) as usize, vals[i]);
            }
            i = i + 1;
        }
        self.restore_ptr = p.wrapping_add(3);
    }

    /// XORs one character cell onto the screen and sets its attribute. With
    /// bit 7 of `attr` set, only the brightness (for `0x80`/`0xC0`) or the
    /// colour is changed and nothing is recorded for restoring.
    pub fn xor_cell(&mut self, row: u8, col: u8, pixels: &[u8], attr: u8)
        requires
            cell_ok(row, col, pixels@),
        ensures
            (final(self).display.mem@, final(self).restore_mem@, final(self).restore_ptr) == xor_cell_spec(
                old(self).display.mem@,
                old(self).restore_mem@,
                old(self).restore_ptr,
                row,
                col,
                pixels@,
                attr,
            ),
            final(self).display.border == old(self).display.border,
            *final(self) == (Game {
                display: final(self).display,
                restore_mem: final(self).restore_mem,
                restore_ptr: final(self).restore_ptr,
                ..*old(self)
            }),
    {
        let base = cell_offset(row, col);
        let n: usize = if pixels.len() < 8 { pixels.len() } else { 8 };
        let ghost m0 = self.display.mem@;
        let mut line: usize = 0;
        while line < n
            invariant
                line <= n,
                n == lines_of(pixels@),
                base == cell_offset_spec(row, col),
                cell_ok(row, col, pixels@),
                self.display.mem@ == xored(m0, base as int, pixels@, line as int),
                *self == (Game { display: self.display, ..*old(self) }),
                self.display.border == old(self).display.border,
            decreases n - line,
        {
            let i = base + line * 256;
            self.display.mem[i] = self.display.mem[i] ^ pixels[line];
            line = line + 1;
            assert(self.display.mem@ =~= xored(m0, base as int, pixels@, line as int));
        }
        let at = attr_offset_for(base);
        if attr & 0x80 != 0 {
            let a = attr & 0x7F;
            let now = self.display.mem[at];
            self.display.mem[at] = if a == 0 || a == 0x40 {
                (now & !0x40) | a
            } else {
                a
            };
        } else {
            self.display.mem[at] = attr;
            if attr & 0x40 != 0 {
                self.record_restore(at, attr);
            }
        }
    }

    /// Registers a marker at a character position.
    pub fn add_marker(&mut self, kind: u8, row: u8, col: u8)
        ensures
            final(self).objects.markers@ == old(self).objects.markers@.push(marker_at(kind, row, col)),
            final(self).objects.kind12 == (if kind == 0x0C {
                Some((marker_at(kind, row, col).x, marker_at(kind, row, col).y))
            } else {
                old(self).objects.kind12
            }),
            final(self).objects == (RoomObjects {
                markers: final(self).objects.markers,
                kind12: final(self).objects.kind12,
                ..old(self).objects
            }),
            *final(self) == (Game { objects: final(self).objects, ..*old(self) }),
    {
        let x = rotl3(col);
        let up = ((0x18 + 256 - row as u16) % 256) as u8;
        let y = ((rotl3(up) as u16 + 255) % 256) as u8;
        self.objects.markers.push(Marker { x, y, kind });
        if kind == 0x0C {
            self.objects.kind12 = Some((x, y));
        }
    }

    /// XORs a 2 × 2 character graphic onto the screen at (`row`, `col`):
    /// its four 8-byte cells top left, top right, bottom left, bottom right.
    pub fn draw_block2x2(&mut self, graphic: &[u8; 32], row: u8, col: u8, attr: u8)
        requires
            row < 255,
            col < 255,
            block_ok(row, col),
        ensures
            (final(self).display.mem@, final(self).restore_mem@, final(self).restore_ptr) == block_spec(
                old(self).display.mem@,
                old(self).restore_mem@,
                old(self).restore_ptr,
                graphic@,
                row,
                col,
                attr,
            ),
            final(self).display.border == old(self).display.border,
            *final(self) == (Game {
                display: final(self).display,
                restore_mem: final(self).restore_mem,
                restore_ptr: final(self).restore_ptr,
                ..*old(self)
            }),
    {
        let g = graphic.as_slice();
        self.xor_cell(row, col, vstd::slice::slice_subrange(g, 0, 8), attr);
        self.xor_cell(row, col + 1, vstd::slice::slice_subrange(g, 8, 16), attr);
        self.xor_cell(row + 1, col, vstd::slice::slice_subrange(g, 16, 24), attr);
        self.xor_cell(row + 1, col + 1, vstd::slice::slice_subrange(g, 24, 32), attr);
    }
}

/// Whether the four cells of a 2 × 2 graphic at (`row`, `col`) lie in
/// display memory.
pub open spec fn block_ok(row: u8, col: u8) -> bool {
    let eight = Seq::new(8, |i: int| 0u8);
    &&& cell_ok(row, col, eight)
    &&& cell_ok(row, (col + 1) as u8, eight)
    &&& cell_ok((row + 1) as u8, col, eight)
    &&& cell_ok((row + 1) as u8, (col + 1) as u8, eight)
}

/// The display, restore list and pointer after a 2 × 2 graphic is XORed
/// on, cell by cell.
pub open spec fn block_spec(mem: Seq<u8>, restore: Seq<u8>, ptr: u16, g: Seq<u8>, row: u8, col: u8, attr: u8) -> (
    Seq<u8>,
    Seq<u8>,
    u16,
) {
    let s1 = xor_cell_spec(mem, restore, ptr, row, col, g.subrange(0, 8), attr);
    let s2 = xor_cell_spec(s1.0, s1.1, s1.2, row, (col + 1) as u8, g.subrange(8, 16), attr);
    let s3 = xor_cell_spec(s2.0, s2.1, s2.2, (row + 1) as u8, col, g.subrange(16, 24), attr);
    xor_cell_spec(s3.0, s3.1, s3.2, (row + 1) as u8, (col + 1) as u8, g.subrange(24, 32), attr)
}

} // verus!
