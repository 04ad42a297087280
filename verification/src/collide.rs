//! Reading the screen the way the original's collision tests do: a cell
//! whose attribute is below `0x40` (not bright) is solid.

use vstd::prelude::*;
use crate::display::LEN;
use crate::game::Game;
use crate::room::RESTORE_START;

verus! {

/// The byte at a Spectrum address as the collision tests see it: display
/// memory (bitmap, attributes and the guard row after them), then the
/// restore list, and past that a byte that is not solid.
pub open spec fn screen_byte_spec(g: Game, addr: u16) -> u8 {
    if 0x4000 <= addr < 0x4000 + LEN {
        g.display.mem@[addr - 0x4000]
    } else {
        let slot = (addr + 0x10000 - RESTORE_START) % 0x10000;
        if slot < g.restore_mem@.len() {
            g.restore_mem@[slot]
        } else {
            0xFF
        }
    }
}

impl Game {
    /// Byte of display memory at a Spectrum address (bitmap, attributes or
    /// the guard row after them).
    ///
    /// Several routines look further ahead than the guard row when BLOB is
    /// near the bottom of a room, which lands in the restore list; the
    /// original simply read whatever was there, so this does too. Beyond
    /// the restore list, a non-solid byte is the answer.
    pub fn screen_byte(&self, addr: u16) -> (b: u8)
        ensures
            b == screen_byte_spec(*self, addr),
    {
        if addr >= 0x4000 && ((addr - 0x4000) as usize) < LEN {
            return self.display.mem[(addr - 0x4000) as usize];
        }
        let slot = addr.wrapping_sub(RESTORE_START) as usize;
        if slot < self.restore_mem.len() {
            self.restore_mem[slot]
        } else {
            0xFF
        }
    }
}

} // verus!
