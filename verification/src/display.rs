//! The display the game draws into.
//!
//! Starquake's logic reads the screen back (collision tests look at cell
//! attributes), so the display is game state, not just output. It is kept
//! in the Spectrum's native layout: a 6144-byte bitmap in the ULA's
//! interleaved line order, followed by 768 attribute bytes.

use vstd::prelude::*;

verus! {

pub const BITMAP_LEN: usize = 6144;
pub const ATTR_LEN: usize = 768;

/// The display plus one guard row of attributes after it. Code that looks
/// at the cells around a sprite near the bottom edge reads and writes that
/// row, so it is kept too (the game fills it with `0x40` at the start).
pub const LEN: usize = 6944;

pub const WIDTH: usize = 256;
pub const HEIGHT: usize = 192;

/// The Spectrum's sixteen colours as 0RGB: eight at normal brightness,
/// then the same eight bright.
pub open spec fn palette_spec(i: int) -> u32 {
    if i == 0 || i == 8 { 0x000000 }
    else if i == 1 { 0x0000D8 } else if i == 2 { 0xD80000 } else if i == 3 { 0xD800D8 }
    else if i == 4 { 0x00D800 } else if i == 5 { 0x00D8D8 } else if i == 6 { 0xD8D800 }
    else if i == 7 { 0xD8D8D8 } else if i == 9 { 0x0000FF } else if i == 10 { 0xFF0000 }
    else if i == 11 { 0xFF00FF } else if i == 12 { 0x00FF00 } else if i == 13 { 0x00FFFF }
    else if i == 14 { 0xFFFF00 } else { 0xFFFFFF }
}

pub fn palette(i: usize) -> (c: u32)
    requires
        i < 16,
    ensures
        c == palette_spec(i as int),
{
    match i {
        0 | 8 => 0x000000,
        1 => 0x0000D8,
        2 => 0xD80000,
        3 => 0xD800D8,
        4 => 0x00D800,
        5 => 0x00D8D8,
        6 => 0xD8D800,
        7 => 0xD8D8D8,
        9 => 0x0000FF,
        10 => 0xFF0000,
        11 => 0xFF00FF,
        12 => 0x00FF00,
        13 => 0x00FFFF,
        14 => 0xFFFF00,
        _ => 0xFFFFFF,
    }
}

/// Where pixel line `y` starts in the bitmap: the screen is three thirds
/// of 64 lines; within a third, the first lines of its eight character
/// rows come first, then their second lines, and so on.
pub open spec fn line_start(y: int) -> int {
    (y / 64) * 2048 + (y % 8) * 256 + ((y / 8) % 8) * 32
}

/// The offset of the first pixel line of character cell (`row`, `col`),
/// by the original's arithmetic: the row's third and its line within the
/// third, and the column added to the low byte, which wraps when `col`
/// is past the right edge.
pub open spec fn cell_offset_spec(row: u8, col: u8) -> int {
    ((row as int / 8) % 4) * 2048 + ((row as int % 8) * 32 + col as int) % 256
}

/// Offset of the first pixel line of character cell (`row`, `col`).
///
/// Reproduces the original's address arithmetic, including its wrapping
/// when `col` is past the right edge.
pub fn cell_offset(row: u8, col: u8) -> (o: usize)
    ensures
        o == cell_offset_spec(row, col),
{
    let a = (row & 7) << 5;
    let high = row & 0x18;
    assert(a as int == (row as int % 8) * 32 && (high as int) * 256 == ((row as int / 8) % 4) * 2048) by (bit_vector)
        requires
            a == (row & 7) << 5,
            high == row & 0x18,
    ;
    let low = a.wrapping_add(col);
    assert(low as int == ((row as int % 8) * 32 + col as int) % 256);
    let o = (high as usize) << 8 | low as usize;
    assert(o == (high as usize) * 256 + low as usize) by (bit_vector)
        requires
            o == (high as usize) << 8 | low as usize,
            high < 256,
            low < 256,
    ;
    o
}

/// The offset of the attribute of the bitmap byte at `offset`: the cell's
/// third and its column.
pub open spec fn attr_offset_spec(offset: int) -> int {
    BITMAP_LEN + ((offset / 2048) % 4) * 256 + offset % 256
}

/// Offset of the attribute byte belonging to the bitmap byte at `offset`.
pub fn attr_offset_for(offset: usize) -> (a: usize)
    ensures
        a == attr_offset_spec(offset as int),
{
    let third = (offset >> 11) & 3;
    let low = offset & 0xFF;
    assert(third == (offset / 2048) % 4 && low == offset % 256 && third << 8 == third * 256) by (bit_vector)
        requires
            third == (offset >> 11) & 3,
            low == offset & 0xFF,
    ;
    BITMAP_LEN + (third << 8) + low
}

/// A cell whose eight pixel lines all lie in the display.
pub open spec fn cell_fits(row: u8, col: u8) -> bool {
    cell_offset_spec(row, col) + 7 * 256 < LEN
}

/// A bitmap byte of the room area, rows 6 to 23: the lower two thirds,
/// and the last two character rows of the first.
pub open spec fn in_room_area(i: int) -> bool {
    0 <= i < BITMAP_LEN && (i >= 2048 || i % 256 >= 192)
}

/// Which bitmap bytes a cell's eight lines are, from its first at `base`.
pub open spec fn cell_line(base: int, i: int) -> bool {
    i >= base && (i - base) % 256 == 0 && (i - base) / 256 < 8
}

/// What pixel (`x`, `y`) shows: its bitmap bit in the cell's ink, or the
/// paper where it is clear, bright when the attribute says so, and ink and
/// paper swapped while a flashing cell is in its second phase.
pub open spec fn pixel(mem: Seq<u8>, flash_phase: bool, y: int, x: int) -> u32 {
    let bits = mem[line_start(y) + x / 8];
    let attr = mem[BITMAP_LEN + (y / 8) * 32 + x / 8];
    let bright = ((attr / 64) % 2) * 8;
    let ink = palette_spec(attr % 8 + bright);
    let paper = palette_spec((attr / 8) % 8 + bright);
    let swap = attr >= 0x80 && flash_phase;
    let on = bits & (0x80u8 >> ((x % 8) as u8)) != 0;
    if on != swap { ink } else { paper }
}

pub struct Display {
    pub mem: [u8; 6944],
    pub border: u8,
}

impl Clone for Display {
    fn clone(&self) -> (d: Display)
        ensures
            d.mem@ == self.mem@,
            d.border == self.border,
    {
        Display { mem: self.mem, border: self.border }
    }
}

impl Default for Display {
    fn default() -> (d: Display)
        ensures
            forall|i: int| 0 <= i < LEN ==> d.mem@[i] == 0,
            d.border == 0,
    {
        Display { mem: [0; 6944], border: 0 }
    }
}

impl Display {
    /// Writes a character cell's bitmap and returns the offset of its attribute.
    pub fn put_cell(&mut self, row: u8, col: u8, pixels: &[u8; 8]) -> (a: usize)
        requires
            cell_fits(row, col),
        ensures
            a == attr_offset_spec(cell_offset_spec(row, col)),
            final(self).border == old(self).border,
            forall|i: int| #![trigger final(self).mem@[i]] 0 <= i < LEN ==> final(self).mem@[i] == if cell_line(
                cell_offset_spec(row, col),
                i,
            ) {
                pixels@[(i - cell_offset_spec(row, col)) / 256]
            } else {
                old(self).mem@[i]
            },
    {
        let base = cell_offset(row, col);
        let mut line: usize = 0;
        while line < 8
            invariant
                line <= 8,
                base == cell_offset_spec(row, col),
                base + 7 * 256 < LEN,
                self.border == old(self).border,
                forall|i: int| #![trigger self.mem@[i]] 0 <= i < LEN ==> self.mem@[i] == if cell_line(base as int, i)
                    && (i - base) / 256 < line {
                    pixels@[(i - base) / 256]
                } else {
                    old(self).mem@[i]
                },
            decreases 8 - line,
        {
            self.mem[base + line * 256] = pixels[line];
            line = line + 1;
        }
        attr_offset_for(base)
    }

    pub fn attr(&self, row: u8, col: u8) -> (a: u8)
        requires
            BITMAP_LEN + row * 32 + col < LEN,
        ensures
            a == self.mem@[BITMAP_LEN + row * 32 + col],
    {
        self.mem[BITMAP_LEN + row as usize * 32 + col as usize]
    }

    /// Blanks the room area (rows 6–23) and makes it bright white on black.
    pub fn clear_room_area(&mut self)
        ensures
            final(self).border == old(self).border,
            forall|i: int| #![trigger final(self).mem@[i]] 0 <= i < LEN ==> final(self).mem@[i] == if in_room_area(i) {
                0
            } else if BITMAP_LEN + 6 * 32 <= i < BITMAP_LEN + ATTR_LEN {
                0x47
            } else {
                old(self).mem@[i]
            },
    {
        let mut i: usize = 0;
        while i < BITMAP_LEN
            invariant
                i <= BITMAP_LEN,
                self.border == old(self).border,
                forall|j: int| #![trigger self.mem@[j]] 0 <= j < LEN ==> self.mem@[j] == if j < i && in_room_area(j) {
                    0
                } else {
                    old(self).mem@[j]
                },
            decreases BITMAP_LEN - i,
        {
            if i >= 2048 || i % 256 >= 192 {
                self.mem[i] = 0;
            }
            i = i + 1;
        }
        let mut k: usize = BITMAP_LEN + 6 * 32;
        while k < BITMAP_LEN + ATTR_LEN
            invariant
                BITMAP_LEN + 6 * 32 <= k <= BITMAP_LEN + ATTR_LEN,
                self.border == old(self).border,
                forall|j: int| #![trigger self.mem@[j]] 0 <= j < LEN ==> self.mem@[j] == if in_room_area(j) {
                    0
                } else if BITMAP_LEN + 6 * 32 <= j < k {
                    0x47
                } else {
                    old(self).mem@[j]
                },
            decreases BITMAP_LEN + ATTR_LEN - k,
        {
            self.mem[k] = 0x47;
            k = k + 1;
        }
    }

    /// Renders to 0RGB pixels, `WIDTH` × `HEIGHT`.
    pub fn render(&self, flash_phase: bool, out: &mut [u32])
        requires
            old(out)@.len() >= WIDTH * HEIGHT,
        ensures
            final(out)@.len() == old(out)@.len(),
            forall|i: int| #![trigger final(out)@[i]] 0 <= i < WIDTH * HEIGHT ==> final(out)@[i] == pixel(
                self.mem@,
                flash_phase,
                i / 256,
                i % 256,
            ),
            forall|i: int| #![trigger final(out)@[i]] WIDTH * HEIGHT <= i < old(out)@.len() ==> final(out)@[i] == old(
                out,
            )@[i],
    {
        let mut y: usize = 0;
        while y < HEIGHT
            invariant
                y <= HEIGHT,
                out@.len() == old(out)@.len(),
                old(out)@.len() >= WIDTH * HEIGHT,
                forall|i: int| #![trigger out@[i]] 0 <= i < y * 256 ==> out@[i] == pixel(self.mem@, flash_phase, i / 256, i % 256),
                forall|i: int| #![trigger out@[i]] WIDTH * HEIGHT <= i < old(out)@.len() ==> out@[i] == old(out)@[i],
            decreases HEIGHT - y,
        {
            let line = (y / 64) * 2048 + (y % 8) * 256 + ((y / 8) % 8) * 32;
            let mut col: usize = 0;
            while col < 32
                invariant
                    y < HEIGHT,
                    col <= 32,
                    line == line_start(y as int),
                    out@.len() == old(out)@.len(),
                    old(out)@.len() >= WIDTH * HEIGHT,
                    forall|i: int| #![trigger out@[i]] 0 <= i < y * 256 + col * 8 ==> out@[i] == pixel(self.mem@, flash_phase, i / 256, i % 256),
                    forall|i: int| #![trigger out@[i]] WIDTH * HEIGHT <= i < old(out)@.len() ==> out@[i] == old(out)@[i],
                decreases 32 - col,
            {
                let bits = self.mem[line + col];
                let attr = self.mem[BITMAP_LEN + (y / 8) * 32 + col];
                let bright = ((attr / 64) % 2) as usize * 8;
                let mut ink = palette((attr % 8) as usize + bright);
                let mut paper = palette(((attr / 8) % 8) as usize + bright);
                if attr >= 0x80 && flash_phase {
                    let t = ink;
                    ink = paper;
                    paper = t;
                }
                let mut bit: usize = 0;
                while bit < 8
                    invariant
                        y < HEIGHT,
                        col < 32,
                        bit <= 8,
                        line == line_start(y as int),
                        bits == self.mem@[line + col],
                        attr == self.mem@[BITMAP_LEN + (y / 8) * 32 + col],
                        bright == ((attr / 64) % 2) * 8,
                        attr >= 0x80 && flash_phase ==> ink == palette_spec((attr / 8) % 8 + bright) && paper
                            == palette_spec(attr % 8 + bright),
                        !(attr >= 0x80 && flash_phase) ==> paper == palette_spec((attr / 8) % 8 + bright) && ink
                            == palette_spec(attr % 8 + bright),
                        out@.len() == old(out)@.len(),
                        old(out)@.len() >= WIDTH * HEIGHT,
                        forall|i: int| #![trigger out@[i]] 0 <= i < y * 256 + col * 8 + bit ==> out@[i] == pixel(self.mem@, flash_phase, i / 256, i % 256),
                        forall|i: int| #![trigger out@[i]] WIDTH * HEIGHT <= i < old(out)@.len() ==> out@[i] == old(out)@[i],
                    decreases 8 - bit,
                {
                    let on = bits & (0x80u8 >> (bit as u8)) != 0;
                    let at = y * 256 + col * 8 + bit;
                    proof {
                        let x = col * 8 + bit;
                        assert(at as int / 256 == y && at as int % 256 == x);
                        assert(x / 8 == col && x % 8 == bit);
                    }
                    out[at] = if on { ink } else { paper };
                    bit = bit + 1;
                }
                col = col + 1;
            }
            y = y + 1;
        }
    }
}

} // verus!
