//! A machine's state to start from: the processor's registers and RAM.
//!
//! It comes from the player's tape ([`Snapshot::from_tape`]): the program's
//! memory as its code blocks leave it, and the processor where the ROM's
//! tape loader leaves it when it returns into the game.

use vstd::prelude::*;
use crate::tape::Tape;

verus! {

/// The processor's registers and the 48K of RAM a machine starts from.
#[derive(Clone, Debug)]
pub struct Snapshot {
    pub a: u8,
    pub f: u8,
    pub b: u8,
    pub c: u8,
    pub d: u8,
    pub e: u8,
    pub h: u8,
    pub l: u8,
    pub a_: u8,
    pub f_: u8,
    pub b_: u8,
    pub c_: u8,
    pub d_: u8,
    pub e_: u8,
    pub h_: u8,
    pub l_: u8,
    pub ix: u16,
    pub iy: u16,
    pub sp: u16,
    pub pc: u16,
    pub i: u8,
    pub r: u8,
    pub iff1: bool,
    pub iff2: bool,
    pub im: u8,
    pub border: u8,
    /// Contents of 0x4000..=0xFFFF.
    pub ram: Vec<u8>,
}

/// The 64K address space with `ram` from 0x4000 up and zeros for the ROM.
pub open spec fn with_rom_zeroed(ram: Seq<u8>) -> Seq<u8> {
    Seq::new(0x4000, |i: int| 0u8) + ram
}

/// Sixteen kilobytes of zeros followed by `ram`.
pub fn memory_from(ram: &Vec<u8>) -> (mem: Vec<u8>)
    requires
        ram@.len() <= 0xC000,
    ensures
        mem@ == with_rom_zeroed(ram@),
{
    let mut mem: Vec<u8> = Vec::new();
    let mut i: usize = 0;
    while i < 0x4000
        invariant
            i <= 0x4000,
            mem@ == Seq::new(i as nat, |k: int| 0u8),
        decreases 0x4000 - i,
    {
        mem.push(0);
        i = i + 1;
        assert(mem@ =~= Seq::new(i as nat, |k: int| 0u8));
    }
    let mut j: usize = 0;
    while j < ram.len()
        invariant
            j <= ram@.len(),
            ram@.len() <= 0xC000,
            mem@ == Seq::new(0x4000, |k: int| 0u8) + ram@.take(j as int),
        decreases ram@.len() - j,
    {
        mem.push(ram[j]);
        j = j + 1;
        assert(mem@ =~= Seq::new(0x4000, |k: int| 0u8) + ram@.take(j as int));
    }
    assert(ram@.take(ram@.len() as int) =~= ram@);
    mem
}

/// IY while Spectrum BASIC runs: the system variables' base, `ERR_NR`.
pub const BASIC_IY: u16 = 0x5C3A;
/// I while Spectrum BASIC runs, as the ROM sets it at start-up.
pub const BASIC_I: u8 = 0x3F;

impl Snapshot {
    /// Full 64K address space with the RAM in place and zeros for the ROM.
    pub fn memory(&self) -> (mem: Vec<u8>)
        requires
            self.ram@.len() <= 0xC000,
        ensures
            mem@ == with_rom_zeroed(self.ram@),
    {
        memory_from(&self.ram)
    }

    /// The machine as a tape's program starts: its RAM as the code blocks
    /// leave it, and the processor as the ROM's loader returns into it at
    /// `pc` with the stack at `sp`. The loader runs with interrupts off in
    /// interrupt mode 1, and BASIC's IY and I are still in place; the other
    /// registers are zero.
    pub fn from_tape(tape: &Tape, pc: u16, sp: u16) -> (s: Snapshot)
        ensures
            s.ram@ == tape.ram@,
            s.pc == pc,
            s.sp == sp,
            s.iy == BASIC_IY,
            s.i == BASIC_I,
            s.im == 1,
            !s.iff1,
            !s.iff2,
            s.a == 0 && s.f == 0 && s.b == 0 && s.c == 0 && s.d == 0 && s.e == 0,
            s.h == 0 && s.l == 0 && s.a_ == 0 && s.f_ == 0 && s.b_ == 0 && s.c_ == 0,
            s.d_ == 0 && s.e_ == 0 && s.h_ == 0 && s.l_ == 0,
            s.ix == 0 && s.r == 0 && s.border == 0,
    {
        Snapshot {
            a: 0,
            f: 0,
            b: 0,
            c: 0,
            d: 0,
            e: 0,
            h: 0,
            l: 0,
            a_: 0,
            f_: 0,
            b_: 0,
            c_: 0,
            d_: 0,
            e_: 0,
            h_: 0,
            l_: 0,
            ix: 0,
            iy: BASIC_IY,
            sp,
            pc,
            i: BASIC_I,
            r: 0,
            iff1: false,
            iff2: false,
            im: 1,
            border: 0,
            ram: tape.ram.clone(),
        }
    }
}

} // verus!
