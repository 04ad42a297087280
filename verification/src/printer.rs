//! Text output.
//!
//! The original prints all its text through the Spectrum ROM's PRINT
//! routine, with strings that embed control codes. This is a
//! reimplementation of the parts of that behaviour the game relies on:
//!
//! - `0x16 row col` (AT) moves the print position.
//! - `0x10`–`0x13 n` (INK, PAPER, FLASH, BRIGHT) set *temporary* colours:
//!   an attribute value plus a mask of bits to keep from the screen
//!   (`n = 8`, "transparent").
//! - `0x14 n` / `0x15 n` (INVERSE, OVER) invert glyphs / XOR them onto the
//!   screen.
//! - Printing past column 31 wraps to the next line on the next character.
//!
//! Colour state persists from one string to the next, as it does in the
//! original.

use vstd::prelude::*;
use crate::display::{attr_offset_for, attr_offset_spec, cell_fits, cell_line, cell_offset, cell_offset_spec, Display, LEN};

verus! {

/// Glyphs for characters `0x20`–`0x7F`.
pub type Font = [[u8; 8]; 96];

/// Half a block graphic's line: the right half for bit 0, the left for
/// bit 1.
pub open spec fn half(bits: u8) -> u8 {
    (if bits & 1 != 0 { 0x0Fu8 } else { 0u8 }) | (if bits & 2 != 0 { 0xF0u8 } else { 0u8 })
}

/// Block graphic `n`'s eight lines: the top four from bits 0 and 1, the
/// bottom four from bits 2 and 3.
pub open spec fn block_spec(n: u8) -> [u8; 8] {
    let top = half(n);
    let bottom = half(n >> 2);
    [top, top, top, top, bottom, bottom, bottom, bottom]
}

/// The block graphics, characters `0x80`–`0x8F`. The ROM builds these from
/// the low four bits rather than from a table: bit 0 is the top right
/// quarter of the cell, then top left, bottom right, bottom left.
fn block_graphic(n: u8) -> (g: [u8; 8])
    ensures
        g == block_spec(n),
{
    let top = (if n & 1 != 0 { 0x0Fu8 } else { 0u8 }) | (if n & 2 != 0 { 0xF0u8 } else { 0u8 });
    let low = n >> 2;
    let bottom = (if low & 1 != 0 { 0x0Fu8 } else { 0u8 }) | (if low & 2 != 0 { 0xF0u8 } else { 0u8 });
    [top, top, top, top, bottom, bottom, bottom, bottom]
}

pub const P_OVER: u8 = 0x01;
pub const P_INVERSE: u8 = 0x04;
pub const P_INK9: u8 = 0x10;
pub const P_PAPER9: u8 = 0x40;

/// What the last byte printed left waiting for its operand.
#[derive(Clone, Copy, Debug, PartialEq, Eq, Structural)]
pub enum Pending {
    Idle,
    /// A colour or OVER/INVERSE control code waiting for its operand.
    Operand(u8),
    AtRow,
    AtCol(u8),
}

#[derive(Clone, Debug, PartialEq, Eq, Structural)]
pub struct Printer {
    pub row: u8,
    /// 0–31, or 32 when the next character wraps to the next line.
    pub col: u8,
    /// Temporary attribute.
    pub attr_t: u8,
    /// Attribute bits taken from the screen instead of `attr_t`.
    pub mask_t: u8,
    /// OVER / INVERSE / contrast flags.
    pub p_flag: u8,
    pub pending: Pending,
}

impl Default for Printer {
    fn default() -> (p: Printer)
        ensures
            p == (Printer { row: 0, col: 0, attr_t: 0, mask_t: 0, p_flag: 0, pending: Pending::Idle }),
    {
        Printer { row: 0, col: 0, attr_t: 0, mask_t: 0, p_flag: 0, pending: Pending::Idle }
    }
}

/// A colour or OVER/INVERSE code with its operand `n`.
pub open spec fn control_spec(p: Printer, code: u8, n: u8) -> Printer {
    if code == 0x10 || code == 0x11 {
        let bits: u8 = if code == 0x10 { 0x07 } else { 0x38 };
        let value: u8 = if code == 0x10 { n & 7 } else { (n & 7) << 3 };
        let contrast: u8 = if code == 0x10 { P_INK9 } else { P_PAPER9 };
        if n <= 7 {
            Printer { attr_t: (p.attr_t & !bits) | value, mask_t: p.mask_t & !bits, p_flag: p.p_flag & !contrast, ..p }
        } else if n == 8 {
            Printer { mask_t: p.mask_t | bits, p_flag: p.p_flag & !contrast, ..p }
        } else {
            Printer { mask_t: p.mask_t | bits, p_flag: p.p_flag | contrast, ..p }
        }
    } else if code == 0x12 || code == 0x13 {
        let bit: u8 = if code == 0x12 { 0x80 } else { 0x40 };
        if n <= 1 {
            Printer { attr_t: (p.attr_t & !bit) | (if n == 1 { bit } else { 0 }), mask_t: p.mask_t & !bit, ..p }
        } else {
            Printer { mask_t: p.mask_t | bit, ..p }
        }
    } else {
        let bit: u8 = if code == 0x14 { P_INVERSE } else { P_OVER };
        Printer { p_flag: (p.p_flag & !bit) | (if n & 1 != 0 { bit } else { 0 }), ..p }
    }
}

/// Where a glyph goes: the print position, or the start of the next line
/// when the last glyph filled the line.
pub open spec fn glyph_place(p: Printer) -> (int, int) {
    if p.col >= 32 {
        (p.row + 1, 0)
    } else {
        (p.row as int, p.col as int)
    }
}

/// Whether a glyph can be printed from `p`: its cell lies in the display.
pub open spec fn glyph_fits(p: Printer) -> bool {
    let (row, col) = glyph_place(p);
    row < 256 && cell_fits(row as u8, col as u8)
}

/// The attribute a glyph leaves in its cell, from the one there: the
/// temporary colours where they are not masked, then the contrasting ink
/// and paper (colour 9) where asked for.
pub open spec fn glyph_attr(p: Printer, old: u8) -> u8 {
    let a0 = (old & p.mask_t) | (p.attr_t & !p.mask_t);
    let a1 = if p.p_flag & P_PAPER9 != 0 {
        let a = a0 & 0xC7;
        if a & 0x04 == 0 { a ^ 0x38 } else { a }
    } else {
        a0
    };
    if p.p_flag & P_INK9 != 0 {
        let a = a1 & 0xF8;
        if a & 0x20 == 0 { a ^ 0x07 } else { a }
    } else {
        a1
    }
}

/// The display after a glyph is printed from `p`: each of its lines put
/// into the cell, inverted under INVERSE and XORed onto what is there
/// under OVER, then the cell's attribute.
pub open spec fn glyph_mem(p: Printer, mem: Seq<u8>, g: [u8; 8]) -> Seq<u8> {
    let (row, col) = glyph_place(p);
    let base = cell_offset_spec(row as u8, col as u8);
    let invert: u8 = if p.p_flag & P_INVERSE != 0 { 0xFF } else { 0 };
    let over = p.p_flag & P_OVER != 0;
    let lines = Seq::new(
        mem.len(),
        |i: int|
            if cell_line(base, i) {
                g[(i - base) / 256] ^ invert ^ (if over { mem[i] } else { 0 })
            } else {
                mem[i]
            },
    );
    let at = attr_offset_spec(base);
    lines.update(at, glyph_attr(p, mem[at]))
}

/// The printer after a glyph: one place on.
pub open spec fn after_glyph(p: Printer) -> Printer {
    let (row, col) = glyph_place(p);
    Printer { row: row as u8, col: (col + 1) as u8, ..p }
}

/// The glyph a character has: the font's from the space to `0x7F`, the
/// block graphics, then the user-defined graphics from `0x90`.
pub open spec fn glyph_of(font: Font, udg: Seq<[u8; 8]>, b: u8) -> [u8; 8] {
    if b >= 0x90 {
        udg[b - 0x90]
    } else if b >= 0x80 {
        block_spec((b - 0x80) as u8)
    } else {
        font[b - 0x20]
    }
}

/// A byte the printer takes where it stands: an operand it waits for,
/// or a code it knows, with its glyph in the display.
pub open spec fn put_ok(p: Printer, udg_len: int, b: u8) -> bool {
    match p.pending {
        Pending::Operand(_) | Pending::AtRow => true,
        Pending::AtCol(row) => row < 24 && b < 32,
        Pending::Idle => {
            ||| b == 0x08
            ||| 0x10 <= b <= 0x16
            ||| (0x20 <= b <= 0x8F && glyph_fits(p))
            ||| (0x90 <= b <= 0xA4 && b - 0x90 < udg_len && glyph_fits(p))
        },
    }
}

/// The printer and the display after one byte.
pub open spec fn put_spec(p: Printer, mem: Seq<u8>, font: Font, udg: Seq<[u8; 8]>, b: u8) -> (Printer, Seq<u8>) {
    match p.pending {
        Pending::Operand(code) => (control_spec(Printer { pending: Pending::Idle, ..p }, code, b), mem),
        Pending::AtRow => (Printer { pending: Pending::AtCol(b), ..p }, mem),
        Pending::AtCol(row) => (Printer { pending: Pending::Idle, row, col: b, ..p }, mem),
        Pending::Idle => if b == 0x08 {
            if p.col == 0 {
                (Printer { col: 31, row: (if p.row == 0 { 255 } else { p.row - 1 }) as u8, ..p }, mem)
            } else {
                (Printer { col: (p.col - 1) as u8, ..p }, mem)
            }
        } else if 0x10 <= b <= 0x15 {
            (Printer { pending: Pending::Operand(b), ..p }, mem)
        } else if b == 0x16 {
            (Printer { pending: Pending::AtRow, ..p }, mem)
        } else {
            (after_glyph(p), glyph_mem(p, mem, glyph_of(font, udg, b)))
        },
    }
}

/// The printer and the display after a text.
pub open spec fn print_spec(p: Printer, mem: Seq<u8>, font: Font, udg: Seq<[u8; 8]>, text: Seq<u8>) -> (
    Printer,
    Seq<u8>,
)
    decreases text.len(),
{
    if text.len() == 0 {
        (p, mem)
    } else {
        let (q, m) = print_spec(p, mem, font, udg, text.drop_last());
        put_spec(q, m, font, udg, text.last())
    }
}

/// A text the printer takes from where it stands: each byte in turn.
pub open spec fn print_ok(p: Printer, mem: Seq<u8>, font: Font, udg: Seq<[u8; 8]>, text: Seq<u8>) -> bool
    decreases text.len(),
{
    if text.len() == 0 {
        true
    } else {
        print_ok(p, mem, font, udg, text.drop_last()) && put_ok(
            print_spec(p, mem, font, udg, text.drop_last()).0,
            udg.len() as int,
            text.last(),
        )
    }
}

impl Printer {
    pub fn at(row: u8, col: u8, attr_t: u8, mask_t: u8, p_flag: u8) -> (p: Printer)
        ensures
            p == (Printer { row, col, attr_t, mask_t, p_flag, pending: Pending::Idle }),
    {
        Printer { row, col, attr_t, mask_t, p_flag, pending: Pending::Idle }
    }

    pub fn print(&mut self, d: &mut Display, font: &Font, udg: &[[u8; 8]], text: &[u8])
        requires
            print_ok(*old(self), old(d).mem@, *font, udg@, text@),
        ensures
            (*final(self), final(d).mem@) == print_spec(*old(self), old(d).mem@, *font, udg@, text@),
            final(d).border == old(d).border,
    {
        let mut i: usize = 0;
        while i < text.len()
            invariant
                i <= text@.len(),
                print_ok(*old(self), old(d).mem@, *font, udg@, text@),
                (*self, d.mem@) == print_spec(*old(self), old(d).mem@, *font, udg@, text@.take(i as int)),
                d.border == old(d).border,
            decreases text@.len() - i,
        {
            proof {
                print_ok_prefix(*old(self), old(d).mem@, *font, udg@, text@, i as int + 1);
                assert(text@.take(i + 1).drop_last() =~= text@.take(i as int));
            }
            self.put(d, font, udg, text[i]);
            i = i + 1;
        }
        assert(text@.take(i as int) =~= text@);
    }

    pub fn put(&mut self, d: &mut Display, font: &Font, udg: &[[u8; 8]], b: u8)
        requires
            put_ok(*old(self), udg@.len() as int, b),
        ensures
            (*final(self), final(d).mem@) == put_spec(*old(self), old(d).mem@, *font, udg@, b),
            final(d).border == old(d).border,
    {
        match self.pending {
            Pending::Operand(code) => {
                self.pending = Pending::Idle;
                self.control(code, b);
                return;
            },
            Pending::AtRow => {
                self.pending = Pending::AtCol(b);
                return;
            },
            Pending::AtCol(row) => {
                self.pending = Pending::Idle;
                self.row = row;
                self.col = b;
                return;
            },
            Pending::Idle => {},
        }
        if b == 0x08 {
            self.backspace();
        } else if 0x10 <= b && b <= 0x15 {
            self.pending = Pending::Operand(b);
        } else if b == 0x16 {
            self.pending = Pending::AtRow;
        } else if 0x20 <= b && b <= 0x7F {
            self.glyph(d, &font[(b - 0x20) as usize]);
        } else if 0x80 <= b && b <= 0x8F {
            let g = block_graphic(b - 0x80);
            self.glyph(d, &g);
        } else {
            self.glyph(d, &udg[(b - 0x90) as usize]);
        }
    }

    /// Moves the print position one place back.
    fn backspace(&mut self)
        ensures
            *final(self) == if old(self).col == 0 {
                Printer { col: 31, row: (if old(self).row == 0 { 255 } else { old(self).row - 1 }) as u8, ..*old(self) }
            } else {
                Printer { col: (old(self).col - 1) as u8, ..*old(self) }
            },
    {
        if self.col == 0 {
            self.col = 31;
            self.row = self.row.wrapping_sub(1);
        } else {
            self.col = self.col - 1;
        }
    }

    fn control(&mut self, code: u8, n: u8)
        ensures
            *final(self) == control_spec(*old(self), code, n),
    {
        if code == 0x10 || code == 0x11 {
            let (bits, value, contrast): (u8, u8, u8) = if code == 0x10 {
                (0x07, n & 7, P_INK9)
            } else {
                (0x38, (n & 7) << 3, P_PAPER9)
            };
            if n <= 7 {
                self.attr_t = (self.attr_t & !bits) | value;
                self.mask_t = self.mask_t & !bits;
                self.p_flag = self.p_flag & !contrast;
            } else if n == 8 {
                self.mask_t = self.mask_t | bits;
                self.p_flag = self.p_flag & !contrast;
            } else {
                self.mask_t = self.mask_t | bits;
                self.p_flag = self.p_flag | contrast;
            }
        } else if code == 0x12 || code == 0x13 {
            let bit: u8 = if code == 0x12 { 0x80 } else { 0x40 };
            if n <= 1 {
                self.attr_t = (self.attr_t & !bit) | if n == 1 { bit } else { 0 };
                self.mask_t = self.mask_t & !bit;
            } else {
                self.mask_t = self.mask_t | bit;
            }
        } else {
            let bit = if code == 0x14 { P_INVERSE } else { P_OVER };
            self.p_flag = (self.p_flag & !bit) | if n & 1 != 0 { bit } else { 0 };
        }
    }

    fn glyph(&mut self, d: &mut Display, glyph: &[u8; 8])
        requires
            glyph_fits(*old(self)),
        ensures
            *final(self) == after_glyph(*old(self)),
            final(d).mem@ == glyph_mem(*old(self), old(d).mem@, *glyph),
            final(d).border == old(d).border,
    {
        let ghost p = *self;
        if self.col >= 32 {
            self.col = 0;
            self.row = self.row + 1;
        }
        let base = cell_offset(self.row, self.col);
        let invert: u8 = if self.p_flag & P_INVERSE != 0 { 0xFF } else { 0 };
        let over = self.p_flag & P_OVER != 0;
        proof {
            assert(base + 7 * 256 < LEN);
            assert(base < 4352) by {
                assert(((self.row as int / 8) % 4) * 2048 + 1792 < LEN);
            }
        }
        let mut line: usize = 0;
        while line < 8
            invariant
                line <= 8,
                base == cell_offset_spec(self.row, self.col),
                base < 4352,
                invert == (if p.p_flag & P_INVERSE != 0 { 0xFFu8 } else { 0u8 }),
                over == (p.p_flag & P_OVER != 0),
                d.border == old(d).border,
                d.mem@.len() == LEN,
                forall|i: int| #![trigger d.mem@[i]] 0 <= i < LEN ==> d.mem@[i] == if cell_line(base as int, i) && (i
                    - base) / 256 < line {
                    glyph@[(i - base) / 256] ^ invert ^ (if over { old(d).mem@[i] } else { 0 })
                } else {
                    old(d).mem@[i]
                },
            decreases 8 - line,
        {
            let at = base + line * 256;
            let old_byte = if over { d.mem[at] } else { 0 };
            d.mem[at] = glyph[line] ^ invert ^ old_byte;
            line = line + 1;
        }
        let at = attr_offset_for(base);
        let old_attr = d.mem[at];
        let mut attr = (old_attr & self.mask_t) | (self.attr_t & !self.mask_t);
        if self.p_flag & P_PAPER9 != 0 {
            attr = attr & 0xC7;
            if attr & 0x04 == 0 {
                attr = attr ^ 0x38;
            }
        }
        if self.p_flag & P_INK9 != 0 {
            attr = attr & 0xF8;
            if attr & 0x20 == 0 {
                attr = attr ^ 0x07;
            }
        }
        d.mem[at] = attr;
        self.col = self.col + 1;
        proof {
            assert(!cell_line(base as int, at as int));
            assert(old_attr == old(d).mem@[at as int]);
            assert(d.mem@ =~= glyph_mem(p, old(d).mem@, *glyph));
        }
    }
}

proof fn print_ok_prefix(p: Printer, mem: Seq<u8>, font: Font, udg: Seq<[u8; 8]>, text: Seq<u8>, n: int)
    requires
        print_ok(p, mem, font, udg, text),
        0 <= n <= text.len(),
    ensures
        print_ok(p, mem, font, udg, text.take(n)),
    decreases text.len() - n,
{
    if n < text.len() {
        print_ok_prefix(p, mem, font, udg, text.drop_last(), n);
        assert(text.drop_last().take(n) =~= text.take(n));
    } else {
        assert(text.take(n) =~= text);
    }
}

/// Printing two texts one after the other is printing them joined.
pub proof fn print_append(p: Printer, mem: Seq<u8>, font: Font, udg: Seq<[u8; 8]>, a: Seq<u8>, b: Seq<u8>)
    ensures
        print_spec(p, mem, font, udg, a + b) == print_spec(
            print_spec(p, mem, font, udg, a).0,
            print_spec(p, mem, font, udg, a).1,
            font,
            udg,
            b,
        ),
        print_ok(p, mem, font, udg, a) && print_ok(
            print_spec(p, mem, font, udg, a).0,
            print_spec(p, mem, font, udg, a).1,
            font,
            udg,
            b,
        ) ==> print_ok(p, mem, font, udg, a + b),
    decreases b.len(),
{
    if b.len() == 0 {
        assert(a + b =~= a);
    } else {
        print_append(p, mem, font, udg, a, b.drop_last());
        assert((a + b).drop_last() =~= a + b.drop_last());
        assert((a + b).last() == b.last());
    }
}

/// Whether a glyph from `p` lands on the screen: a row of it, and a column
/// before the edge.
pub open spec fn on_line(p: Printer) -> bool {
    p.pending == Pending::Idle && p.row < 24 && p.col < 32
}

proof fn fits_on_line(p: Printer)
    requires
        on_line(p),
    ensures
        glyph_fits(p),
{
    let r = p.row as int;
    let c = p.col as int;
    assert(((r / 8) % 4) * 2048 + ((r % 8) * 32 + c) % 256 + 7 * 256 < LEN) by (nonlinear_arith)
        requires
            0 <= r < 24,
            0 <= c < 32,
    ;
}

/// Characters with a glyph of their own in the font or the block graphics.
pub open spec fn plain(chars: Seq<u8>) -> bool {
    forall|i: int| 0 <= i < chars.len() ==> 0x20 <= #[trigger] chars[i] <= 0x8F
}

/// Glyphs printed along a line from `p` fit on it, and leave the printer
/// that many places on.
pub proof fn print_glyphs(p: Printer, mem: Seq<u8>, font: Font, udg: Seq<[u8; 8]>, chars: Seq<u8>)
    requires
        p.pending == Pending::Idle,
        p.row < 24,
        p.col + chars.len() <= 32,
        plain(chars),
    ensures
        print_ok(p, mem, font, udg, chars),
        print_spec(p, mem, font, udg, chars).0 == (Printer { col: (p.col + chars.len()) as u8, ..p }),
    decreases chars.len(),
{
    if chars.len() > 0 {
        print_glyphs(p, mem, font, udg, chars.drop_last());
        let q = Printer { col: (p.col + chars.len() - 1) as u8, ..p };
        fits_on_line(q);
        assert(0x20 <= chars.last() <= 0x8F);
    }
}

/// Control codes with their operands, from a printer that waits for
/// nothing: the printer ends waiting for nothing, where it was.
pub open spec fn codes_ok(codes: Seq<u8>) -> bool {
    &&& codes.len() % 2 == 0
    &&& forall|i: int| 0 <= i < codes.len() && i % 2 == 0 ==> 0x10 <= #[trigger] codes[i] <= 0x15
}

pub proof fn print_codes(p: Printer, mem: Seq<u8>, font: Font, udg: Seq<[u8; 8]>, codes: Seq<u8>)
    requires
        p.pending == Pending::Idle,
        codes_ok(codes),
    ensures
        print_ok(p, mem, font, udg, codes),
        print_spec(p, mem, font, udg, codes).1 == mem,
        print_spec(p, mem, font, udg, codes).0.pending == Pending::Idle,
        print_spec(p, mem, font, udg, codes).0.row == p.row,
        print_spec(p, mem, font, udg, codes).0.col == p.col,
    decreases codes.len(),
{
    if codes.len() > 0 {
        let head = codes.subrange(0, codes.len() - 2);
        assert(codes_ok(head)) by {
            assert forall|i: int| 0 <= i < head.len() && i % 2 == 0 implies 0x10 <= #[trigger] head[i] <= 0x15 by {
                assert(head[i] == codes[i]);
            }
        }
        print_codes(p, mem, font, udg, head);
        let pair = codes.subrange(codes.len() - 2, codes.len() as int);
        assert(codes =~= head + pair);
        print_append(p, mem, font, udg, head, pair);
        reveal_with_fuel(print_spec, 3);
        reveal_with_fuel(print_ok, 3);
        let (q, m) = print_spec(p, mem, font, udg, head);
        let c = codes[codes.len() - 2];
        let one = seq![c];
        assert(pair.drop_last() =~= one);
        assert(one.drop_last() =~= Seq::<u8>::empty());
        assert(0x10 <= c <= 0x15);
        assert(print_spec(q, m, font, udg, one) == (Printer { pending: Pending::Operand(c), ..q }, m));
        assert(print_ok(q, m, font, udg, one));
        assert(print_ok(q, m, font, udg, pair));
    }
}

/// The text that moves the print position to (`row`, `col`).
pub open spec fn at_text(row: u8, col: u8) -> Seq<u8> {
    seq![0x16u8, row, col]
}

pub proof fn print_at(p: Printer, mem: Seq<u8>, font: Font, udg: Seq<[u8; 8]>, row: u8, col: u8)
    requires
        p.pending == Pending::Idle,
        row < 24,
        col < 32,
    ensures
        print_ok(p, mem, font, udg, at_text(row, col)),
        print_spec(p, mem, font, udg, at_text(row, col)) == (Printer { row, col, ..p }, mem),
{
    reveal_with_fuel(print_spec, 4);
    reveal_with_fuel(print_ok, 4);
    let t3 = at_text(row, col);
    let t2 = seq![0x16u8, row];
    let t1 = seq![0x16u8];
    let t0 = Seq::<u8>::empty();
    assert(t3.drop_last() =~= t2);
    assert(t2.drop_last() =~= t1);
    assert(t1.drop_last() =~= t0);
    assert(print_spec(p, mem, font, udg, t1) == (Printer { pending: Pending::AtRow, ..p }, mem));
    assert(print_ok(p, mem, font, udg, t1));
    assert(print_spec(p, mem, font, udg, t2) == (Printer { pending: Pending::AtCol(row), ..p }, mem));
    assert(print_ok(p, mem, font, udg, t2));
}

/// Colour codes, then characters that fit before the edge, printed where
/// the printer stands: it ends after the last character, waiting for
/// nothing.
pub proof fn print_run(p: Printer, mem: Seq<u8>, font: Font, udg: Seq<[u8; 8]>, codes: Seq<u8>, chars: Seq<u8>)
    requires
        p.pending == Pending::Idle,
        p.row < 24,
        p.col + chars.len() <= 32,
        codes_ok(codes),
        plain(chars),
    ensures
        print_ok(p, mem, font, udg, codes + chars),
        print_spec(p, mem, font, udg, codes + chars).0.pending == Pending::Idle,
        print_spec(p, mem, font, udg, codes + chars).0.row == p.row,
        print_spec(p, mem, font, udg, codes + chars).0.col == p.col + chars.len(),
{
    print_codes(p, mem, font, udg, codes);
    let (p2, m2) = print_spec(p, mem, font, udg, codes);
    print_glyphs(p2, m2, font, udg, chars);
    print_append(p, mem, font, udg, codes, chars);
}

/// A line of text on the screen: moved to (`row`, `col`), its colour codes,
/// then its characters, which fit before the edge.
pub open spec fn line_ok(row: u8, col: u8, codes: Seq<u8>, chars: Seq<u8>) -> bool {
    &&& row < 24
    &&& col + chars.len() <= 32
    &&& col < 32
    &&& codes_ok(codes)
    &&& plain(chars)
}

/// Such a line prints from any printer that waits for nothing, and leaves
/// it after the last character, waiting for nothing.
pub proof fn print_line(p: Printer, mem: Seq<u8>, font: Font, udg: Seq<[u8; 8]>, row: u8, col: u8, codes: Seq<u8>, chars: Seq<u8>)
    requires
        p.pending == Pending::Idle,
        line_ok(row, col, codes, chars),
    ensures
        print_ok(p, mem, font, udg, at_text(row, col) + codes + chars),
        print_spec(p, mem, font, udg, at_text(row, col) + codes + chars).0.pending == Pending::Idle,
        print_spec(p, mem, font, udg, at_text(row, col) + codes + chars).0.row == row,
        print_spec(p, mem, font, udg, at_text(row, col) + codes + chars).0.col == col + chars.len(),
{
    print_at(p, mem, font, udg, row, col);
    let p1 = Printer { row, col, ..p };
    print_codes(p1, mem, font, udg, codes);
    print_append(p, mem, font, udg, at_text(row, col), codes);
    let (p2, m2) = print_spec(p, mem, font, udg, at_text(row, col) + codes);
    print_glyphs(p2, m2, font, udg, chars);
    print_append(p, mem, font, udg, at_text(row, col) + codes, chars);
}

} // verus!
