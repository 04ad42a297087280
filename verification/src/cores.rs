//! The core room's pieces of drawing: the grid of nine slots, and the
//! flash over the whole screen.

use vstd::prelude::*;
use crate::display::{ATTR_LEN, BITMAP_LEN};
use crate::game::Game;
use crate::room::{block_ok, block_spec};

verus! {

/// The graphic drawn over a slot of the core grid.
pub const BLANK: u16 = 0xDF40;

/// Where slot `slot` of the core grid is, as (row, column), from the grid's
/// (column, row).
pub open spec fn slot_place(grid: (u8, u8), slot: u8) -> (int, int) {
    (grid.1 + 2 * (slot / 3), grid.0 + 2 * (slot % 3))
}

/// Whether every slot of the core grid can be drawn: its place fits in a
/// byte, and its four cells in display memory.
pub open spec fn grid_ok(grid: (u8, u8)) -> bool {
    forall|slot: u8| #![trigger slot_place(grid, slot)] slot < 9 ==> {
        let (row, col) = slot_place(grid, slot);
        &&& row < 255
        &&& col < 255
        &&& block_ok(row as u8, col as u8)
    }
}

impl Game {
    /// XORs every attribute on the screen: a colour flash over everything.
    pub fn xor_attributes(&mut self, v: u8)
        ensures
            forall|i: int|
                0 <= i < crate::display::LEN ==> #[trigger] final(self).display.mem@[i] == if BITMAP_LEN <= i
                    < BITMAP_LEN + ATTR_LEN {
                    old(self).display.mem@[i] ^ v
                } else {
                    old(self).display.mem@[i]
                },
            final(self).display.border == old(self).display.border,
            *final(self) == (Game { display: final(self).display, ..*old(self) }),
    {
        let mut i: usize = BITMAP_LEN;
        while i < BITMAP_LEN + ATTR_LEN
            invariant
                BITMAP_LEN <= i <= BITMAP_LEN + ATTR_LEN,
                forall|k: int|
                    0 <= k < crate::display::LEN ==> #[trigger] self.display.mem@[k] == if BITMAP_LEN <= k < i {
                        old(self).display.mem@[k] ^ v
                    } else {
                        old(self).display.mem@[k]
                    },
                self.display.border == old(self).display.border,
                *self == (Game { display: self.display, ..*old(self) }),
            decreases BITMAP_LEN + ATTR_LEN - i,
        {
            self.display.mem[i] = self.display.mem[i] ^ v;
            i = i + 1;
        }
    }

    /// Draws a blank over one slot of the core grid, in `colour`.
    pub(crate) fn flash_core_slot(&mut self, slot: u8, colour: u8)
        requires
            slot < 9,
            grid_ok(old(self).core_grid),
            old(self).assets.ram@.len() >= BLANK + 32,
        ensures
            ({
                let (row, col) = slot_place(old(self).core_grid, slot);
                (final(self).display.mem@, final(self).restore_mem@, final(self).restore_ptr) == block_spec(
                    old(self).display.mem@,
                    old(self).restore_mem@,
                    old(self).restore_ptr,
                    old(self).assets.ram@.subrange(BLANK as int, BLANK + 32),
                    row as u8,
                    col as u8,
                    colour,
                )
            }),
            final(self).display.border == old(self).display.border,
            *final(self) == (Game {
                display: final(self).display,
                restore_mem: final(self).restore_mem,
                restore_ptr: final(self).restore_ptr,
                ..*old(self)
            }),
    {
        let (base_col, base_row) = self.core_grid;
        assert(slot_place(self.core_grid, slot) == (base_row + 2 * (slot / 3), base_col + 2 * (slot % 3)));
        let row = base_row + 2 * (slot / 3);
        let col = base_col + 2 * (slot % 3);
        let blank = self.assets.graphic_at(BLANK);
        self.draw_block2x2(&blank, row, col, colour);
    }

    /// Twinkles one of the holes still left in the core: a slot drawn at
    /// random, if it is missing its piece, flashes in a random colour.
    pub(crate) fn sparkle_core(&mut self)
        requires
            grid_ok(old(self).core_grid),
            old(self).assets.ram@.len() >= BLANK + 32,
        ensures
            ({
                let rng = old(self).rng.next();
                let slot = ((rng.a % 256) % 64 % 9) as u8;
                let colour = ((rng.a / 256) % 64 % 5 + 2) as u8;
                let (row, col) = slot_place(old(self).core_grid, slot);
                &&& final(self).rng == rng
                &&& if old(self).core_slots[slot as int] < 0x80 {
                    *final(self) == (Game { rng, ..*old(self) })
                } else {
                    &&& (final(self).display.mem@, final(self).restore_mem@, final(self).restore_ptr) == block_spec(
                        old(self).display.mem@,
                        old(self).restore_mem@,
                        old(self).restore_ptr,
                        old(self).assets.ram@.subrange(BLANK as int, BLANK + 32),
                        row as u8,
                        col as u8,
                        colour,
                    )
                    &&& final(self).display.border == old(self).display.border
                    &&& *final(self) == (Game {
                        rng,
                        display: final(self).display,
                        restore_mem: final(self).restore_mem,
                        restore_ptr: final(self).restore_ptr,
                        ..*old(self)
                    })
                }
            }),
    {
        self.rng.step();
        let slot = (self.rng.lo() % 64) % 9;
        if self.core_slots[slot as usize] < 0x80 {
            return;
        }
        let colour = (self.rng.hi() % 64) % 5 + 2;
        self.flash_core_slot(slot, colour);
    }
}

} // verus!
