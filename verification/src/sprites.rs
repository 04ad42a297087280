//! Per-frame display work: the small animations (sparkles, crumbling
//! platforms, force fields).

use vstd::prelude::*;
use crate::display::{BITMAP_LEN, LEN};
use crate::game::Game;
use crate::room::{cell_ok, xor_cell_spec, RoomObjects};

verus! {

/// Two-cell animation frames (16 bytes each) for platforms and force fields.
pub const STRIP_FRAMES: usize = 0xDC55;

/// A byte's two halves swapped.
pub open spec fn rl4(v: u8) -> u8 {
    (v << 4u8) | (v >> 4u8)
}

/// Where animation frame `frame` starts.
pub open spec fn strip_at(frame: u8) -> int {
    STRIP_FRAMES + rl4(frame)
}

/// Whether a two-cell frame can be drawn at (`row`, `col`): the frame lies
/// in the memory image and both cells in display memory.
pub open spec fn strip_ok(ram: Seq<u8>, frame: u8, row: u8, col: u8) -> bool {
    let eight = Seq::new(8, |i: int| 0u8);
    &&& strip_at(frame) + 16 <= ram.len()
    &&& cell_ok(row, col, eight)
    &&& cell_ok(row, ((col + 1) % 256) as u8, eight)
}

/// The display after frame `frame` is XORed on at (`row`, `col`) with its
/// colour set as bit 7 of the attribute asks.
pub open spec fn strip_spec(mem: Seq<u8>, restore: Seq<u8>, ptr: u16, ram: Seq<u8>, frame: u8, row: u8, col: u8, attr: u8) -> Seq<u8> {
    let at = strip_at(frame);
    let m1 = xor_cell_spec(mem, restore, ptr, row, col, ram.subrange(at, at + 8), attr | 0x80).0;
    xor_cell_spec(m1, restore, ptr, row, ((col + 1) % 256) as u8, ram.subrange(at + 8, at + 16), attr | 0x80).0
}

/// The platform animated next after `c`: twelve, round and round.
pub open spec fn next_platform(c: u8) -> u8 {
    if c + 1 >= 12 { 0 } else { (c + 1) as u8 }
}

/// A platform record (col | stage << 5, row, -, timer) after a frame: its
/// timer runs down, and once low each frame takes it a stage further to
/// crumbling, until it is gone.
pub open spec fn platform_after(p: Seq<u8>) -> Seq<u8> {
    if p[1] == 0 {
        p
    } else {
        let t = ((p[3] + 255) % 256) as u8;
        if t < 4 {
            let b0 = ((p[0] + 0x20) % 256) as u8;
            let q = p.update(3, t).update(0, b0);
            if b0 & 0xE0 == 0x80 { q.update(1, 0) } else { q }
        } else {
            p.update(3, t)
        }
    }
}

/// The frame a platform is drawn with after its update, as (frame, row,
/// col, attribute), if it is drawn: a stage past the first, the last one
/// bright.
pub open spec fn platform_draw(p: Seq<u8>) -> Option<(u8, u8, u8, u8)> {
    let stage = platform_after(p)[0] >> 5u8;
    if p[1] == 0 || stage == 0 {
        None
    } else {
        Some(((stage - 1) as u8, p[1] & 0x7F, p[0] & 0x1F, if stage == 4 { 0x40u8 } else { 0u8 }))
    }
}

/// The record of the platform animated next.
pub open spec fn next_record(g: Game) -> Seq<u8> {
    let at = next_platform(g.platform_cursor) * 4;
    g.platforms@.subrange(at, at + 4)
}

/// Whether the next platform can be animated: the cursor can move on, the
/// record is there, and its frame, if drawn, fits.
pub open spec fn platforms_ok(g: Game) -> bool {
    &&& g.platform_cursor < 255
    &&& g.platforms@.len() >= 48
    &&& match platform_draw(next_record(g)) {
        Some((frame, row, col, attr)) => strip_ok(g.assets.ram@, frame, row, col),
        None => true,
    }
}

/// Updates the platform record at `at` and tells how to draw it.
fn crumble(platforms: &mut Vec<u8>, at: usize) -> (d: Option<(u8, u8, u8, u8)>)
    requires
        at + 4 <= old(platforms)@.len(),
    ensures
        final(platforms)@ == old(platforms)@.subrange(0, at as int) + platform_after(old(platforms)@.subrange(at as int, at + 4))
            + old(platforms)@.subrange(at + 4, old(platforms)@.len() as int),
        d == platform_draw(old(platforms)@.subrange(at as int, at + 4)),
{
    let ghost rec = platforms@.subrange(at as int, at + 4);
    let ghost whole = platforms@;
    let len = platforms.len();
    assert(at + 4 <= len);
    let p0 = platforms[at];
    let p1 = platforms[at + 1];
    let p3 = platforms[at + 3];
    if p1 == 0 {
        assert(platforms@ =~= whole.subrange(0, at as int) + platform_after(rec) + whole.subrange(at + 4, whole.len() as int));
        return None;
    }
    let col = p0 & 0x1F;
    let row = p1 & 0x7F;
    let t = ((p3 as u16 + 255) % 256) as u8;
    platforms.set(at + 3, t);
    if t < 4 {
        let b0 = ((p0 as u16 + 0x20) % 256) as u8;
        platforms.set(at, b0);
        if b0 & 0xE0 == 0x80 {
            platforms.set(at + 1, 0);
        }
    }
    let b = platforms[at];
    let stage = b >> 5;
    assert(platforms@ =~= whole.subrange(0, at as int) + platform_after(rec) + whole.subrange(at + 4, whole.len() as int));
    if stage == 0 {
        return None;
    }
    assert(stage <= 7) by (bit_vector)
        requires
            stage == b >> 5u8,
    ;
    let attr: u8 = if stage == 4 { 0x40 } else { 0x00 };
    Some((stage - 1, row, col, attr))
}

/// The sparkle cursor after a frame, as (index, attribute): the index
/// runs up to 0x2F and back to 0, and each time round the attribute's
/// colour flips.
pub open spec fn next_sparkle(cursor: u16) -> (u8, u8) {
    let e = ((cursor % 256 + 1) % 256) as u8;
    let d = (cursor / 256) as u8;
    if e + 0xD0 >= 256 { ((e + 0xD0 - 256) as u8, d ^ 7) } else { (e, d) }
}

/// A byte rotated left by one bit.
pub open spec fn rl1(v: u8) -> u8 {
    (v << 1u8) | (v >> 7u8)
}

/// A byte rotated right by three bits.
pub open spec fn rr3(v: u8) -> u8 {
    (v >> 3u8) | (v << 5u8)
}

/// Where sparkle `e` is in the table.
pub open spec fn sparkle_at(e: u8) -> int {
    rl1(e) as int
}

/// The attribute offset of the sparkle cell at (`col`, `row`) in the table,
/// or none for an empty entry.
pub open spec fn sparkle_cell(col: u8, row: u8) -> Option<int> {
    let b = rr3(row);
    let low = (b & 0xE0) | col;
    if low == 0 { None } else { Some((b & 3) * 256 + low) }
}

/// Whether the next sparkle can be blinked: its entry is in the table, and
/// its two cells in display memory.
pub open spec fn sparkles_ok(g: Game) -> bool {
    let (e, d) = next_sparkle(g.objects.sparkle_cursor);
    let at = sparkle_at(e);
    &&& at + 1 < g.objects.sparkle_table@.len()
    &&& match sparkle_cell(g.objects.sparkle_table@[at], g.objects.sparkle_table@[at + 1]) {
        Some(i) => BITMAP_LEN + i + 1 < LEN,
        None => true,
    }
}

/// The force field animated after `c`: four, round and round.
pub open spec fn next_field(c: u8) -> u8 {
    let n = (c + 1) % 256;
    if n >= 4 { 0 } else { n as u8 }
}

/// The force-field records after field `at`'s frame: its timer runs down,
/// and when it runs out it is reloaded from the period and the field
/// switches on or off.
pub open spec fn field_after(ff: Seq<u8>, at: int) -> Seq<u8> {
    if ff[at + 1] == 0 {
        ff
    } else {
        let t = ((ff[at + 3] + 255) % 256) as u8;
        if t == 0xFF {
            ff.update(at + 3, ff[at + 4]).update(at + 5, ff[at + 5] ^ 1)
        } else {
            ff.update(at + 3, t)
        }
    }
}

/// How field `at` is drawn this frame, as (frame, row, col, attribute), if
/// it is: as it switches, in white; while on, flickering in a random colour.
pub open spec fn field_draw(ff: Seq<u8>, at: int, lo: u8) -> Option<(u8, u8, u8, u8)> {
    let (col, row) = (ff[at], ff[at + 1]);
    let t = ((ff[at + 3] + 255) % 256) as u8;
    if row == 0 {
        None
    } else if t == 0xFF {
        Some((5u8, row, col, 0x47u8))
    } else if ff[at + 5] == 0 {
        None
    } else {
        Some((if t % 4 == 0 || t % 4 == 3 { 6u8 } else { 7u8 }, row, col, ((lo & 3) + 0x44) as u8))
    }
}

/// Whether the next force field can be animated: its record is there, and
/// its frame, if drawn, fits.
pub open spec fn fields_ok(g: Game) -> bool {
    let at = next_field(g.objects.force_field_cursor) * 8;
    &&& g.objects.force_fields@.len() >= 30
    &&& match field_draw(g.objects.force_fields@, at, (g.rng.a % 256) as u8) {
        Some((frame, row, col, attr)) => strip_ok(g.assets.ram@, frame, row, col),
        None => true,
    }
}

/// Updates force field `at` and tells how to draw it.
fn flicker(ff: &mut Vec<u8>, at: usize, lo: u8) -> (d: Option<(u8, u8, u8, u8)>)
    requires
        at + 6 <= old(ff)@.len(),
    ensures
        final(ff)@ == field_after(old(ff)@, at as int),
        d == field_draw(old(ff)@, at as int, lo),
{
    let len = ff.len();
    assert(at + 6 <= len);
    let col = ff[at];
    let row = ff[at + 1];
    if row == 0 {
        return None;
    }
    let t = ((ff[at + 3] as u16 + 255) % 256) as u8;
    if t == 0xFF {
        let period = ff[at + 4];
        let on = ff[at + 5] ^ 1;
        ff.set(at + 3, period);
        ff.set(at + 5, on);
        return Some((5, row, col, 0x47));
    }
    ff.set(at + 3, t);
    if ff[at + 5] == 0 {
        return None;
    }
    let frame: u8 = if t % 4 == 0 || t % 4 == 3 { 6 } else { 7 };
    assert(lo & 3 <= 3) by (bit_vector);
    Some((frame, row, col, (lo & 3) + 0x44))
}

impl Game {
    /// XORs a two-cell animation frame at (`row`, `col`) and sets its
    /// colour (bit 7 set: see [`Game::xor_cell`]).
    #[verifier::rlimit(50)]
    pub fn draw_strip(&mut self, frame: u8, row: u8, col: u8, attr: u8)
        requires
            strip_ok(old(self).assets.ram@, frame, row, col),
        ensures
            final(self).display.mem@ == strip_spec(
                old(self).display.mem@,
                old(self).restore_mem@,
                old(self).restore_ptr,
                old(self).assets.ram@,
                frame,
                row,
                col,
                attr,
            ),
            final(self).display.border == old(self).display.border,
            final(self).restore_mem@ == old(self).restore_mem@,
            *final(self) == (Game { display: final(self).display, restore_mem: final(self).restore_mem, ..*old(self) }),
    {
        let r = (frame << 4u8) | (frame >> 4u8);
        let at = STRIP_FRAMES + r as usize;
        let first = crate::game::bytes::<8>(self.assets.ram.as_slice(), at);
        let second = crate::game::bytes::<8>(self.assets.ram.as_slice(), at + 8);
        let a = attr | 0x80;
        let c2 = ((col as u16 + 1) % 256) as u8;
        let ghost g0 = *self;
        self.xor_cell(row, col, &first, a);
        assert(a & 0x80 != 0) by (bit_vector)
            requires
                a == attr | 0x80,
        ;
        assert(self.restore_mem@ == g0.restore_mem@ && self.restore_ptr == g0.restore_ptr);
        self.xor_cell(row, c2, &second, a);
    }

    /// Advances one of BLOB's platforms: they crumble through four stages
    /// once their timer runs low.
    pub fn tick_platforms(&mut self)
        requires
            platforms_ok(*old(self)),
        ensures
            ({
                let c = next_platform(old(self).platform_cursor);
                let at = c * 4;
                let rec = next_record(*old(self));
                &&& final(self).platform_cursor == c
                &&& final(self).platforms@ == old(self).platforms@.subrange(0, at) + platform_after(rec)
                    + old(self).platforms@.subrange(at + 4, old(self).platforms@.len() as int)
                &&& final(self).display.mem@ == match platform_draw(rec) {
                    Some((frame, row, col, attr)) => strip_spec(
                        old(self).display.mem@,
                        old(self).restore_mem@,
                        old(self).restore_ptr,
                        old(self).assets.ram@,
                        frame,
                        row,
                        col,
                        attr,
                    ),
                    None => old(self).display.mem@,
                }
            }),
            final(self).display.border == old(self).display.border,
            final(self).restore_mem@ == old(self).restore_mem@,
            *final(self) == (Game {
                platform_cursor: final(self).platform_cursor,
                platforms: final(self).platforms,
                display: final(self).display,
                restore_mem: final(self).restore_mem,
                ..*old(self)
            }),
    {
        let c = if self.platform_cursor + 1 >= 12 { 0 } else { self.platform_cursor + 1 };
        self.platform_cursor = c;
        let at = c as usize * 4;
        match crumble(&mut self.platforms, at) {
            Some((frame, row, col, attr)) => self.draw_strip(frame, row, col, attr),
            None => {},
        }
    }

    /// Blinks one sparkle cell pair.
    pub fn tick_sparkles(&mut self)
        requires
            sparkles_ok(*old(self)),
        ensures
            ({
                let (e, d) = next_sparkle(old(self).objects.sparkle_cursor);
                let at = sparkle_at(e);
                let t = old(self).objects.sparkle_table@;
                &&& final(self).objects == (RoomObjects { sparkle_cursor: (e + d * 256) as u16, ..old(self).objects })
                &&& final(self).display.mem@ == match sparkle_cell(t[at], t[at + 1]) {
                    Some(i) => old(self).display.mem@.update(BITMAP_LEN + i, d).update(BITMAP_LEN + i + 1, d),
                    None => old(self).display.mem@,
                }
            }),
            final(self).display.border == old(self).display.border,
            *final(self) == (Game { objects: final(self).objects, display: final(self).display, ..*old(self) }),
    {
        let cursor = self.objects.sparkle_cursor;
        let mut e = ((cursor % 256 + 1) % 256) as u8;
        let mut d = (cursor / 256) as u8;
        if e as u16 + 0xD0 >= 256 {
            e = (e as u16 + 0xD0 - 256) as u8;
            d = d ^ 7;
        }
        self.objects.sparkle_cursor = e as u16 + d as u16 * 256;
        let at = ((e << 1u8) | (e >> 7u8)) as usize;
        let col = self.objects.sparkle_table[at];
        let row = self.objects.sparkle_table[at + 1];
        let b = (row >> 3u8) | (row << 5u8);
        let low = (b & 0xE0) | col;
        if low == 0 {
            return;
        }
        assert(b & 3 <= 3) by (bit_vector);
        let i = (b & 3) as usize * 256 + low as usize;
        self.display.mem[BITMAP_LEN + i] = d;
        self.display.mem[BITMAP_LEN + i + 1] = d;
    }

    /// Advances one force field: it switches on and off with its period,
    /// and flickers in random colours while on.
    #[verifier::rlimit(50)]
    pub fn tick_force_fields(&mut self)
        requires
            fields_ok(*old(self)),
        ensures
            ({
                let c = next_field(old(self).objects.force_field_cursor);
                let at = c * 8;
                let ff = old(self).objects.force_fields@;
                &&& final(self).objects == (RoomObjects {
                    force_field_cursor: c,
                    force_fields: final(self).objects.force_fields,
                    ..old(self).objects
                })
                &&& final(self).objects.force_fields@ == field_after(ff, at)
                &&& final(self).display.mem@ == match field_draw(ff, at, (old(self).rng.a % 256) as u8) {
                    Some((frame, row, col, attr)) => strip_spec(
                        old(self).display.mem@,
                        old(self).restore_mem@,
                        old(self).restore_ptr,
                        old(self).assets.ram@,
                        frame,
                        row,
                        col,
                        attr,
                    ),
                    None => old(self).display.mem@,
                }
            }),
            final(self).display.border == old(self).display.border,
            final(self).restore_mem@ == old(self).restore_mem@,
            *final(self) == (Game {
                objects: final(self).objects,
                display: final(self).display,
                restore_mem: final(self).restore_mem,
                ..*old(self)
            }),
    {
        let next = ((self.objects.force_field_cursor as u16 + 1) % 256) as u8;
        let c = if next >= 4 { 0 } else { next };
        self.objects.force_field_cursor = c;
        let at = c as usize * 8;
        let lo = self.rng.lo();
        match flicker(&mut self.objects.force_fields, at, lo) {
            Some((frame, row, col, attr)) => self.draw_strip(frame, row, col, attr),
            None => {},
        }
    }
}

} // verus!
