//! The game's pseudo-random number generator.
//!
//! Room colours and decoration are drawn from it after reseeding on room
//! entry, so it must reproduce the original sequence exactly.

use vstd::prelude::*;

verus! {

#[derive(Clone, Copy, Debug, PartialEq, Eq, Structural, Default)]
pub struct Rng {
    pub a: u16,
    pub b: u16,
    pub c: u16,
    /// Steps until `b` is next advanced.
    pub b_countdown: u8,
    /// Advances of `b` until `c` is next advanced.
    pub c_countdown: u8,
}

/// A 16-bit word with its two bytes swapped.
pub open spec fn swapped(w: u16) -> int {
    (w % 256) * 256 + w / 256
}

impl Rng {
    /// The generator after one step: `a` always moves on; every fifth step
    /// `b` does too, and every eleventh advance of `b`, `c`.
    pub open spec fn next(self) -> Rng {
        let a = ((swapped(self.a) + self.a + 0x29 + self.b) % 65536) as u16;
        let bc = ((self.b_countdown + 255) % 256) as u8;
        if bc != 0 {
            Rng { a, b_countdown: bc, ..self }
        } else {
            let b = ((self.b * 17 + 0xC5 + self.c) % 65536) as u16;
            let cc = ((self.c_countdown + 255) % 256) as u8;
            if cc != 0 {
                Rng { a, b, b_countdown: 5, c_countdown: cc, ..self }
            } else {
                let c = (((self.c * 2 + a) * 2 + 0x4BBB) % 65536) as u16;
                Rng { a, b, c, b_countdown: 5, c_countdown: 11 }
            }
        }
    }

    pub fn step(&mut self)
        ensures
            *final(self) == old(self).next(),
    {
        let a = self.a as u32;
        let swapped: u32 = (a % 256) * 256 + a / 256;
        self.a = ((swapped + a + 0x29 + self.b as u32) % 65536) as u16;

        self.b_countdown = ((self.b_countdown as u16 + 255) % 256) as u8;
        if self.b_countdown != 0 {
            return;
        }
        self.b_countdown = 5;
        self.b = ((self.b as u32 * 17 + 0xC5 + self.c as u32) % 65536) as u16;

        self.c_countdown = ((self.c_countdown as u16 + 255) % 256) as u8;
        if self.c_countdown != 0 {
            return;
        }
        self.c_countdown = 11;
        self.c = (((self.c as u32 * 2 + self.a as u32) * 2 + 0x4BBB) % 65536) as u16;
    }

    /// Low byte of the main state; most random choices use this.
    pub fn lo(&self) -> (v: u8)
        ensures
            v == self.a % 256,
    {
        (self.a % 256) as u8
    }

    pub fn hi(&self) -> (v: u8)
        ensures
            v == self.a / 256,
    {
        (self.a / 256) as u8
    }
}

} // verus!
