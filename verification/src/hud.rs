//! The status panel in the top six rows: score, lives, the three bars and
//! the four inventory slots.

use vstd::prelude::*;
use crate::game::Game;
use crate::printer::{
    at_text, codes_ok, plain, print_append, print_codes, print_line, print_ok, print_run, print_spec, Font, Pending,
    Printer,
};
use crate::assets::GRAPHICS32_AT;
use crate::room::block_spec;

verus! {

#[derive(Clone, Copy, Debug)]
pub struct Status {
    /// Score digits, most significant first.
    pub score: [u8; 6],
    /// Points waiting to be added to each digit.
    pub pending: [u8; 6],
    pub lives: u8,
    /// The bars on rows 1–3, 0–127.
    pub bars: [u8; 3],
    /// Inventory slots: graphic number and colour (0 = empty).
    pub inventory: [(u8, u8); 4],
    /// Item just picked up, entering the inventory.
    pub incoming: (u8, u8),
    /// Item pushed out of the inventory, to be dropped.
    pub outgoing: (u8, u8),
}

/// Bar glyphs: `'('` is a full segment; `' '`..`'\''` are 0–7 eighths.
pub const BAR_FULL: u8 = 0x28;

/// The carry into score digit `i` when the pending points are added: what
/// the digits below it pass up, each digit's sum being the digit, the
/// carry into it and its pending points.
pub open spec fn carry_into(score: [u8; 6], pending: [u8; 6], i: int) -> int
    decreases 5 - i, 0int,
{
    if i >= 5 {
        0
    } else {
        digit_sum(score, pending, i + 1) / 10
    }
}

/// Digit `i`'s sum before it is reduced to a digit.
pub open spec fn digit_sum(score: [u8; 6], pending: [u8; 6], i: int) -> int
    decreases 5 - i, 1int,
{
    if i > 5 {
        0
    } else {
        score[i] + carry_into(score, pending, i) + pending[i]
    }
}

/// Whether every digit's sum fits in a byte, as the original's arithmetic
/// needs.
pub open spec fn sums_fit(score: [u8; 6], pending: [u8; 6]) -> bool {
    forall|i: int| 0 <= i < 6 ==> #[trigger] digit_sum(score, pending, i) <= 255
}

/// The score once the pending points are added.
pub open spec fn added(score: [u8; 6], pending: [u8; 6]) -> [u8; 6] {
    [
        (digit_sum(score, pending, 0) % 10) as u8,
        (digit_sum(score, pending, 1) % 10) as u8,
        (digit_sum(score, pending, 2) % 10) as u8,
        (digit_sum(score, pending, 3) % 10) as u8,
        (digit_sum(score, pending, 4) % 10) as u8,
        (digit_sum(score, pending, 5) % 10) as u8,
    ]
}

/// The text that prints the score: at row 2, column 3, bright white, the
/// six digits.
pub open spec fn score_text(score: [u8; 6]) -> Seq<u8> {
    seq![0x16u8, 2, 3, 0x13, 1, 0x10, 7].add(Seq::new(6, |i: int| (0x30 + score[i]) as u8))
}

/// The glyph that ends bar `v`: how many eighths of the last segment are
/// filled, a short bar showing at least some.
pub open spec fn bar_end_glyph(v: u8) -> u8 {
    let w: u8 = if v < 4 { (v + 3) as u8 } else { v };
    (0x20 + ((w >> 2u8) & 7)) as u8
}

/// A bar after `amount` is taken from it, stopping at empty.
pub open spec fn reduced(bar: u8, amount: u8) -> u8 {
    if bar >= amount { (bar - amount) as u8 } else { 0 }
}

/// The text that redraws the end of bar `index` after it is at `v`.
pub open spec fn bar_text(index: int, v: u8) -> Seq<u8> {
    seq![0x10u8, 8, 0x13, 1, 0x16, (index + 1) as u8, (16 + ((v >> 5u8) & 3)) as u8, bar_end_glyph(v)]
}

/// Whether `g` can print `text` through its printer with the game's font
/// and UDGs.
pub open spec fn prints(g: Game, text: Seq<u8>) -> bool {
    print_ok(g.printer, g.display.mem@, g.assets.font, g.assets.udg@, text)
}

/// Whether `after` is `before` with `text` printed, and perhaps another
/// panel state; nothing else changes.
pub open spec fn printed(before: Game, after: Game, text: Seq<u8>) -> bool {
    let (p, mem) = print_spec(before.printer, before.display.mem@, before.assets.font, before.assets.udg@, text);
    &&& after.printer == p
    &&& after.display.mem@ == mem
    &&& after.display.border == before.display.border
    &&& after == (Game { printer: after.printer, display: after.display, status: after.status, ..before })
}

/// `n` spaces.
pub open spec fn spaces(n: nat) -> Seq<u8> {
    Seq::new(n, |i: int| 0x20u8)
}

/// The lives as two digits at row 3, column 11 in yellow, then the bar
/// rows coloured (red and green, white, yellow) with spaces, and the ink
/// left transparent for the bars.
pub open spec fn lives_text(lives: u8) -> Seq<u8> {
    at_text(3, 11) + seq![0x10u8, 6] + seq![(0x30 + lives / 10) as u8, (0x30 + lives % 10) as u8] + at_text(1, 16)
        + seq![0x10u8, 2] + spaces(1) + seq![0x10u8, 4] + spaces(3) + at_text(2, 16) + seq![0x10u8, 7] + spaces(4)
        + at_text(3, 16) + seq![0x10u8, 6] + spaces(4) + seq![0x10u8, 8]
}

/// A bar at most full.
pub open spec fn clamp(v: u8) -> u8 {
    if v >= 0x7F { 0x7F } else { v }
}

/// Bar `v` drawn at row `row`: its full segments, then its end.
pub open spec fn bar_line(row: u8, v: u8) -> Seq<u8> {
    at_text(row, 16) + Seq::new(((v >> 5u8) & 3) as nat, |i: int| BAR_FULL) + seq![
        if v == 0x7F { BAR_FULL } else { (0x20 + ((v >> 2u8) & 7)) as u8 },
    ]
}

/// The inventory rows cleared.
pub open spec fn blank_text() -> Seq<u8> {
    at_text(1, 21) + spaces(8) + at_text(2, 21) + spaces(8)
}

/// What the panel prints after the score: the lives and bar colours, the
/// bars from the bottom one up, and the inventory rows cleared.
pub open spec fn rest_text(s: Status) -> Seq<u8> {
    lives_text(s.lives) + bar_line(3, clamp(s.bars[2])) + bar_line(2, clamp(s.bars[1])) + bar_line(1, clamp(s.bars[0]))
        + blank_text()
}

/// Everything the panel prints: the score, then the rest.
pub open spec fn status_text(s: Status) -> Seq<u8> {
    score_text(added(s.score, s.pending)) + rest_text(s)
}

/// The display, restore list and pointer after the first `n` inventory
/// slots with an item have its graphic drawn in its colour.
pub open spec fn inventory_spec(mem: Seq<u8>, restore: Seq<u8>, ptr: u16, inv: [(u8, u8); 4], ram: Seq<u8>, n: int) -> (
    Seq<u8>,
    Seq<u8>,
    u16,
)
    decreases n,
{
    if n <= 0 {
        (mem, restore, ptr)
    } else {
        let (m, r, p) = inventory_spec(mem, restore, ptr, inv, ram, n - 1);
        let (graphic, attr) = inv[n - 1];
        if attr != 0 {
            let g = ram.subrange(GRAPHICS32_AT + graphic * 32, GRAPHICS32_AT + graphic * 32 + 32);
            block_spec(m, r, p, g, 1, (21 + 2 * (n - 1)) as u8, attr)
        } else {
            (m, r, p)
        }
    }
}

/// Whether `p` stands on the screen waiting for nothing.
pub open spec fn ready(p: Printer) -> bool {
    p.pending == Pending::Idle && p.row < 24 && p.col <= 32
}

proof fn score_text_prints(p: Printer, mem: Seq<u8>, font: Font, udg: Seq<[u8; 8]>, score: [u8; 6])
    requires
        p.pending == Pending::Idle,
        forall|i: int| 0 <= i < 6 ==> #[trigger] score[i] < 10,
    ensures
        print_ok(p, mem, font, udg, score_text(score)),
        ready(print_spec(p, mem, font, udg, score_text(score)).0),
{
    let digits = Seq::new(6, |i: int| (0x30 + score[i]) as u8);
    assert(score_text(score) =~= at_text(2, 3) + seq![0x13u8, 1, 0x10, 7] + digits);
    assert(codes_ok(seq![0x13u8, 1, 0x10, 7]));
    assert(plain(digits));
    print_line(p, mem, font, udg, 2, 3, seq![0x13u8, 1, 0x10, 7], digits);
}

proof fn lives_text_prints(p: Printer, mem: Seq<u8>, font: Font, udg: Seq<[u8; 8]>, lives: u8)
    requires
        p.pending == Pending::Idle,
    ensures
        print_ok(p, mem, font, udg, lives_text(lives)),
        ready(print_spec(p, mem, font, udg, lives_text(lives)).0),
{
    let digits = seq![(0x30 + lives / 10) as u8, (0x30 + lives % 10) as u8];
    let a = at_text(3, 11) + seq![0x10u8, 6] + digits;
    let b = at_text(1, 16) + seq![0x10u8, 2] + spaces(1);
    let c = seq![0x10u8, 4] + spaces(3);
    let d = at_text(2, 16) + seq![0x10u8, 7] + spaces(4);
    let e = at_text(3, 16) + seq![0x10u8, 6] + spaces(4);
    let f = seq![0x10u8, 8];
    assert(lives_text(lives) =~= a + b + c + d + e + f);
    assert(codes_ok(seq![0x10u8, 6]) && codes_ok(seq![0x10u8, 2]) && codes_ok(seq![0x10u8, 4]));
    assert(codes_ok(seq![0x10u8, 7]) && codes_ok(seq![0x10u8, 8]));
    assert(plain(digits) && plain(spaces(1)) && plain(spaces(3)) && plain(spaces(4)));
    print_line(p, mem, font, udg, 3, 11, seq![0x10u8, 6], digits);
    let (p1, m1) = print_spec(p, mem, font, udg, a);
    print_line(p1, m1, font, udg, 1, 16, seq![0x10u8, 2], spaces(1));
    print_append(p, mem, font, udg, a, b);
    let (p2, m2) = print_spec(p, mem, font, udg, a + b);
    print_run(p2, m2, font, udg, seq![0x10u8, 4], spaces(3));
    print_append(p, mem, font, udg, a + b, c);
    let (p3, m3) = print_spec(p, mem, font, udg, a + b + c);
    print_line(p3, m3, font, udg, 2, 16, seq![0x10u8, 7], spaces(4));
    print_append(p, mem, font, udg, a + b + c, d);
    let (p4, m4) = print_spec(p, mem, font, udg, a + b + c + d);
    print_line(p4, m4, font, udg, 3, 16, seq![0x10u8, 6], spaces(4));
    print_append(p, mem, font, udg, a + b + c + d, e);
    let (p5, m5) = print_spec(p, mem, font, udg, a + b + c + d + e);
    print_codes(p5, m5, font, udg, f);
    print_append(p, mem, font, udg, a + b + c + d + e, f);
}

proof fn bar_line_prints(p: Printer, mem: Seq<u8>, font: Font, udg: Seq<[u8; 8]>, row: u8, v: u8)
    requires
        p.pending == Pending::Idle,
        1 <= row <= 3,
    ensures
        print_ok(p, mem, font, udg, bar_line(row, v)),
        ready(print_spec(p, mem, font, udg, bar_line(row, v)).0),
{
    let n = ((v >> 5u8) & 3) as nat;
    assert((v >> 5u8) & 3 <= 3) by (bit_vector);
    assert((v >> 2u8) & 7 <= 7) by (bit_vector);
    let chars = Seq::new(n, |i: int| BAR_FULL) + seq![
        if v == 0x7F { BAR_FULL } else { (0x20 + ((v >> 2u8) & 7)) as u8 },
    ];
    assert(bar_line(row, v) =~= at_text(row, 16) + Seq::<u8>::empty() + chars);
    assert(codes_ok(Seq::<u8>::empty()));
    assert(plain(chars));
    print_line(p, mem, font, udg, row, 16, Seq::<u8>::empty(), chars);
}

proof fn blank_text_prints(p: Printer, mem: Seq<u8>, font: Font, udg: Seq<[u8; 8]>)
    requires
        p.pending == Pending::Idle,
    ensures
        print_ok(p, mem, font, udg, blank_text()),
        ready(print_spec(p, mem, font, udg, blank_text()).0),
{
    let a = at_text(1, 21) + Seq::<u8>::empty() + spaces(8);
    let b = at_text(2, 21) + Seq::<u8>::empty() + spaces(8);
    assert(blank_text() =~= a + b);
    assert(codes_ok(Seq::<u8>::empty()));
    assert(plain(spaces(8)));
    print_line(p, mem, font, udg, 1, 21, Seq::<u8>::empty(), spaces(8));
    let (p1, m1) = print_spec(p, mem, font, udg, a);
    print_line(p1, m1, font, udg, 2, 21, Seq::<u8>::empty(), spaces(8));
    print_append(p, mem, font, udg, a, b);
}

/// An inventory slot's 2 × 2 cells lie in display memory.
proof fn slot_fits(col: u8)
    requires
        21 <= col <= 27,
    ensures
        crate::room::block_ok(1, col),
{
    assert(crate::display::cell_offset_spec(1, col) == 32 + col);
    assert(crate::display::cell_offset_spec(1, (col + 1) as u8) == 33 + col);
    assert(crate::display::cell_offset_spec(2, col) == 64 + col);
    assert(crate::display::cell_offset_spec(2, (col + 1) as u8) == 65 + col);
}

fn lives_vec(lives: u8) -> (t: Vec<u8>)
    ensures
        t@ == lives_text(lives),
{
    let d1 = 0x30 + lives / 10;
    let d2 = 0x30 + lives % 10;
    let t: Vec<u8> = vec![
        0x16, 3, 11, 0x10, 6, d1, d2, 0x16, 1, 16, 0x10, 2, 0x20, 0x10, 4, 0x20, 0x20, 0x20, 0x16, 2, 16, 0x10, 7,
        0x20, 0x20, 0x20, 0x20, 0x16, 3, 16, 0x10, 6, 0x20, 0x20, 0x20, 0x20, 0x10, 8,
    ];
    assert(t@ =~= lives_text(lives));
    t
}

fn blank_vec() -> (t: Vec<u8>)
    ensures
        t@ == blank_text(),
{
    let t: Vec<u8> = vec![
        0x16, 1, 21, 0x20, 0x20, 0x20, 0x20, 0x20, 0x20, 0x20, 0x20, 0x16, 2, 21, 0x20, 0x20, 0x20, 0x20, 0x20, 0x20,
        0x20, 0x20,
    ];
    assert(t@ =~= blank_text());
    t
}

impl Game {
    fn print(&mut self, text: &Vec<u8>)
        requires
            prints(*old(self), text@),
        ensures
            printed(*old(self), *final(self), text@),
            final(self).status == old(self).status,
    {
        self.printer.print(&mut self.display, &self.assets.font, &self.assets.udg, text.as_slice());
    }

    /// Adds pending points to the score and prints it.
    pub fn add_and_print_score(&mut self)
        requires
            sums_fit(old(self).status.score, old(self).status.pending),
            prints(*old(self), score_text(added(old(self).status.score, old(self).status.pending))),
        ensures
            printed(*old(self), *final(self), score_text(added(old(self).status.score, old(self).status.pending))),
            final(self).status == (Status {
                score: added(old(self).status.score, old(self).status.pending),
                pending: final(self).status.pending,
                ..old(self).status
            }),
            forall|i: int| 0 <= i < 6 ==> #[trigger] final(self).status.pending[i] == 0,
    {
        let ghost s0 = self.status.score;
        let ghost p0 = self.status.pending;
        let mut carry: u8 = 0;
        let mut i: usize = 6;
        while i > 0
            invariant
                i <= 6,
                sums_fit(s0, p0),
                carry == (if i == 6 { 0int } else { digit_sum(s0, p0, i as int) / 10 }),
                forall|j: int| 0 <= j < i ==> #[trigger] self.status.score[j] == s0[j],
                forall|j: int| 0 <= j < i ==> #[trigger] self.status.pending[j] == p0[j],
                forall|j: int| i <= j < 6 ==> #[trigger] self.status.score[j] == digit_sum(s0, p0, j) % 10,
                forall|j: int| i <= j < 6 ==> #[trigger] self.status.pending[j] == 0,
                *self == (Game { status: self.status, ..*old(self) }),
                self.status == (Status { score: self.status.score, pending: self.status.pending, ..old(self).status }),
            decreases i,
        {
            let k = i - 1;
            assert(digit_sum(s0, p0, k as int) == s0[k as int] + carry + p0[k as int]);
            assert(digit_sum(s0, p0, k as int) <= 255);
            let sum = self.status.score[k] + carry + self.status.pending[k];
            self.status.pending[k] = 0;
            self.status.score[k] = sum % 10;
            carry = sum / 10;
            i = k;
        }
        let ghost st = self.status;
        assert(st.score =~= added(s0, p0));
        let mut text: Vec<u8> = vec![0x16, 2, 3, 0x13, 1, 0x10, 7];
        let mut d: usize = 0;
        while d < 6
            invariant
                d <= 6,
                self.status == st,
                text@ == seq![0x16u8, 2, 3, 0x13, 1, 0x10, 7].add(Seq::new(d as nat, |j: int| (0x30 + st.score[j]) as u8)),
                forall|j: int| 0 <= j < 6 ==> #[trigger] st.score[j] < 10,
            decreases 6 - d,
        {
            text.push(0x30 + self.status.score[d]);
            d = d + 1;
            assert(text@ =~= seq![0x16u8, 2, 3, 0x13, 1, 0x10, 7].add(Seq::new(d as nat, |j: int| (0x30 + st.score[j]) as u8)));
        }
        self.print(&text);
    }

    /// Reduces bar `index` by `amount` and redraws its end.
    pub fn reduce_bar(&mut self, index: usize, amount: u8)
        requires
            index < 3,
            prints(*old(self), bar_text(index as int, reduced(old(self).status.bars[index as int], amount))),
        ensures
            printed(*old(self), *final(self), bar_text(index as int, reduced(old(self).status.bars[index as int], amount))),
            final(self).status == (Status { bars: final(self).status.bars, ..old(self).status }),
            final(self).status.bars@ == old(self).status.bars@.update(
                index as int,
                reduced(old(self).status.bars[index as int], amount),
            ),
    {
        let v = self.status.bars[index].saturating_sub(amount);
        self.status.bars[index] = v;
        assert((v >> 5u8) & 3u8 <= 3) by (bit_vector);
        let col = 16 + ((v >> 5) & 3);
        assert((if v < 4 { (v + 3) as u8 } else { v }) >> 2u8 & 7u8 <= 7) by (bit_vector);
        let w = if v < 4 { v + 3 } else { v };
        let glyph = 0x20 + ((w >> 2) & 7);
        let text: Vec<u8> = vec![0x10, 8, 0x13, 1, 0x16, index as u8 + 1, col, glyph];
        assert(text@ =~= bar_text(index as int, v));
        self.print(&text);
    }

    /// Clamps bar `row` (1–3) to full and draws it.
    fn draw_bar(&mut self, row: u8)
        requires
            1 <= row <= 3,
            old(self).printer.pending == Pending::Idle,
        ensures
            printed(*old(self), *final(self), bar_line(row, clamp(old(self).status.bars[row - 1]))),
            ready(final(self).printer),
            final(self).status == (Status { bars: final(self).status.bars, ..old(self).status }),
            final(self).status.bars@ == old(self).status.bars@.update(row - 1, clamp(old(self).status.bars[row - 1])),
    {
        let i = (row - 1) as usize;
        if self.status.bars[i] >= 0x7F {
            self.status.bars[i] = 0x7F;
        }
        let v = self.status.bars[i];
        assert((v >> 5u8) & 3u8 <= 3) by (bit_vector);
        assert((v >> 2u8) & 7u8 <= 7) by (bit_vector);
        let k = ((v >> 5) & 3) as usize;
        let mut t: Vec<u8> = vec![0x16, row, 16];
        let mut j: usize = 0;
        while j < k
            invariant
                j <= k,
                k <= 3,
                t@ == at_text(row, 16) + Seq::new(j as nat, |x: int| BAR_FULL),
            decreases k - j,
        {
            t.push(BAR_FULL);
            j = j + 1;
            assert(t@ =~= at_text(row, 16) + Seq::new(j as nat, |x: int| BAR_FULL));
        }
        let last: u8 = if v == 0x7F { BAR_FULL } else { 0x20 + ((v >> 2) & 7) };
        t.push(last);
        assert(t@ =~= bar_line(row, v));
        proof {
            bar_line_prints(self.printer, self.display.mem@, self.assets.font, self.assets.udg@, row, v);
        }
        self.print(&t);
    }

    /// Draws the inventory's items in their slots.
    fn draw_inventory(&mut self)
        requires
            old(self).assets.ram@.len() >= GRAPHICS32_AT + 256 * 32,
        ensures
            (final(self).display.mem@, final(self).restore_mem@, final(self).restore_ptr) == inventory_spec(
                old(self).display.mem@,
                old(self).restore_mem@,
                old(self).restore_ptr,
                old(self).status.inventory,
                old(self).assets.ram@,
                4,
            ),
            final(self).display.border == old(self).display.border,
            *final(self) == (Game {
                display: final(self).display,
                restore_mem: final(self).restore_mem,
                restore_ptr: final(self).restore_ptr,
                ..*old(self)
            }),
    {
        let mut i: usize = 0;
        while i < 4
            invariant
                i <= 4,
                old(self).assets.ram@.len() >= GRAPHICS32_AT + 256 * 32,
                (self.display.mem@, self.restore_mem@, self.restore_ptr) == inventory_spec(
                    old(self).display.mem@,
                    old(self).restore_mem@,
                    old(self).restore_ptr,
                    old(self).status.inventory,
                    old(self).assets.ram@,
                    i as int,
                ),
                self.display.border == old(self).display.border,
                *self == (Game {
                    display: self.display,
                    restore_mem: self.restore_mem,
                    restore_ptr: self.restore_ptr,
                    ..*old(self)
                }),
            decreases 4 - i,
        {
            let (graphic, attr) = self.status.inventory[i];
            if attr != 0 {
                let g = self.assets.graphic32(graphic);
                let col = 21 + 2 * i as u8;
                proof {
                    slot_fits(col);
                }
                self.draw_block2x2(&g, 1, col, attr);
            }
            i = i + 1;
        }
    }

    /// Draws the bars, the bottom one first.
    fn print_bars(&mut self)
        requires
            old(self).printer.pending == Pending::Idle,
        ensures
            printed(
                *old(self),
                *final(self),
                bar_line(3, clamp(old(self).status.bars[2])) + bar_line(2, clamp(old(self).status.bars[1])) + bar_line(
                    1,
                    clamp(old(self).status.bars[0]),
                ),
            ),
            ready(final(self).printer),
            final(self).status == (Status { bars: final(self).status.bars, ..old(self).status }),
            forall|i: int| 0 <= i < 3 ==> #[trigger] final(self).status.bars[i] == clamp(old(self).status.bars[i]),
    {
        let ghost g1 = *self;
        let ghost font = self.assets.font;
        let ghost udg = self.assets.udg@;
        let ghost b3 = bar_line(3, clamp(g1.status.bars[2]));
        let ghost b2 = bar_line(2, clamp(g1.status.bars[1]));
        let ghost b1 = bar_line(1, clamp(g1.status.bars[0]));
        self.draw_bar(3);
        self.draw_bar(2);
        proof {
            print_append(g1.printer, g1.display.mem@, font, udg, b3, b2);
        }
        self.draw_bar(1);
        proof {
            print_append(g1.printer, g1.display.mem@, font, udg, b3 + b2, b1);
        }
    }

    /// Prints the lives, the bars and the cleared inventory rows.
    fn print_rest(&mut self)
        requires
            old(self).printer.pending == Pending::Idle,
        ensures
            printed(*old(self), *final(self), rest_text(old(self).status)),
            ready(final(self).printer),
            final(self).status == (Status { bars: final(self).status.bars, ..old(self).status }),
            forall|i: int| 0 <= i < 3 ==> #[trigger] final(self).status.bars[i] == clamp(old(self).status.bars[i]),
    {
        let ghost g1 = *self;
        let ghost font = self.assets.font;
        let ghost udg = self.assets.udg@;
        let t = lives_vec(self.status.lives);
        proof {
            lives_text_prints(self.printer, self.display.mem@, font, udg, g1.status.lives);
        }
        self.print(&t);
        let ghost bars = bar_line(3, clamp(g1.status.bars[2])) + bar_line(2, clamp(g1.status.bars[1])) + bar_line(
            1,
            clamp(g1.status.bars[0]),
        );
        self.print_bars();
        proof {
            print_append(g1.printer, g1.display.mem@, font, udg, t@, bars);
        }
        let blank = blank_vec();
        proof {
            blank_text_prints(self.printer, self.display.mem@, font, udg);
            print_append(g1.printer, g1.display.mem@, font, udg, t@ + bars, blank_text());
            assert(t@ + bars + blank_text() =~= rest_text(g1.status));
        }
        self.print(&blank);
    }

    /// Redraws the score, lives, bars and inventory.
    pub fn draw_status(&mut self)
        requires
            sums_fit(old(self).status.score, old(self).status.pending),
            old(self).printer.pending == Pending::Idle,
            old(self).assets.ram@.len() >= GRAPHICS32_AT + 256 * 32,
        ensures
            ({
                let (p, m) = print_spec(
                    old(self).printer,
                    old(self).display.mem@,
                    old(self).assets.font,
                    old(self).assets.udg@,
                    status_text(old(self).status),
                );
                &&& final(self).printer == p
                &&& (final(self).display.mem@, final(self).restore_mem@, final(self).restore_ptr) == inventory_spec(
                    m,
                    old(self).restore_mem@,
                    old(self).restore_ptr,
                    old(self).status.inventory,
                    old(self).assets.ram@,
                    4,
                )
            }),
            ready(final(self).printer),
            final(self).display.border == old(self).display.border,
            final(self).status == (Status {
                score: added(old(self).status.score, old(self).status.pending),
                pending: final(self).status.pending,
                bars: final(self).status.bars,
                ..old(self).status
            }),
            forall|i: int| 0 <= i < 6 ==> #[trigger] final(self).status.pending[i] == 0,
            forall|i: int| 0 <= i < 3 ==> #[trigger] final(self).status.bars[i] == clamp(old(self).status.bars[i]),
            *final(self) == (Game {
                printer: final(self).printer,
                display: final(self).display,
                restore_mem: final(self).restore_mem,
                restore_ptr: final(self).restore_ptr,
                status: final(self).status,
                ..*old(self)
            }),
    {
        let ghost g0 = *self;
        let ghost font = self.assets.font;
        let ghost udg = self.assets.udg@;
        let ghost t1 = score_text(added(g0.status.score, g0.status.pending));
        proof {
            assert forall|i: int| 0 <= i < 6 implies #[trigger] added(g0.status.score, g0.status.pending)[i] < 10 by {}
            score_text_prints(self.printer, self.display.mem@, font, udg, added(g0.status.score, g0.status.pending));
        }
        self.add_and_print_score();
        let ghost g1 = *self;
        proof {
            print_append(g0.printer, g0.display.mem@, font, udg, t1, rest_text(g0.status));
            assert(t1 + rest_text(g0.status) == status_text(g0.status));
        }
        self.print_rest();
        self.draw_inventory();
    }

}

} // verus!
