//! What a machine cycle costs, once the ULA has had its say.
//!
//! The Z80 puts an address on the bus for a few T-states at a time. While
//! the ULA is drawing it wants the bottom 16K of RAM for itself, and holds
//! the processor off rather than share, so what a cycle costs depends on
//! which address it names and when it happens. The interpreter's timing and
//! the game's sound models both charge through these functions, so they
//! cannot disagree.

use vstd::prelude::*;
use crate::timing::{contention, contention_spec};

verus! {

/// What the processor is doing with the bus for one machine cycle.
#[derive(Clone, Copy, PartialEq, Eq, Debug, Structural)]
pub enum Kind {
    /// An opcode fetch or a memory read.
    Read,
    Write,
    /// The address is on the bus but nothing is transferred.
    Idle,
    PortRead,
    PortWrite,
}

/// One machine cycle: an address on the bus for `len` T-states.
#[derive(Clone, Copy, PartialEq, Eq, Debug, Structural)]
pub struct Cycle {
    pub at: u16,
    pub len: u32,
    pub kind: Kind,
}

impl Cycle {
    /// A memory read of three T-states.
    pub fn read(at: u16) -> (c: Cycle)
        ensures
            c == (Cycle { at, len: 3, kind: Kind::Read }),
    {
        Cycle { at, len: 3, kind: Kind::Read }
    }

    /// A memory write of three T-states.
    pub fn write(at: u16) -> (c: Cycle)
        ensures
            c == (Cycle { at, len: 3, kind: Kind::Write }),
    {
        Cycle { at, len: 3, kind: Kind::Write }
    }

    /// An opcode fetch of `len` T-states.
    pub fn fetch(at: u16, len: u32) -> (c: Cycle)
        ensures
            c == (Cycle { at, len, kind: Kind::Read }),
    {
        Cycle { at, len, kind: Kind::Read }
    }
}

/// The most machine cycles one instruction can have.
pub const CYCLES_MAX: usize = 20;

/// The machine cycles of one instruction, at most [`CYCLES_MAX`] of them.
pub struct Cycles {
    buf: [Cycle; 20],
    len: usize,
}

impl View for Cycles {
    type V = Seq<Cycle>;

    closed spec fn view(&self) -> Seq<Cycle> {
        self.buf@.subrange(0, self.len as int)
    }
}

impl Cycles {
    pub const MAX: usize = 20;

    /// The buffer holds the cycles it counts.
    #[verifier::type_invariant]
    spec fn inner_ok(&self) -> bool {
        self.len <= CYCLES_MAX
    }

    /// The capacity bound every value keeps: never more than
    /// [`CYCLES_MAX`] cycles.
    pub open spec fn wf(&self) -> bool {
        self@.len() <= CYCLES_MAX
    }

    /// No cycles yet, in a fixed buffer: nothing is allocated.
    pub fn new() -> (c: Cycles)
        ensures
            c@ == Seq::<Cycle>::empty(),
            c.wf(),
    {
        let c = Cycles { buf: [Cycle { at: 0, len: 0, kind: Kind::Idle }; 20], len: 0 };
        assert(c@ =~= Seq::<Cycle>::empty());
        c
    }

    /// Appends `c`, unless the instruction already has [`CYCLES_MAX`]
    /// cycles, when it is dropped.
    pub fn push(&mut self, c: Cycle)
        ensures
            final(self).wf(),
            old(self)@.len() < CYCLES_MAX ==> final(self)@ == old(self)@.push(c),
            old(self)@.len() >= CYCLES_MAX ==> final(self)@ == old(self)@,
    {
        proof {
            use_type_invariant(&*self);
        }
        if self.len < CYCLES_MAX {
            self.buf[self.len] = c;
            self.len = self.len + 1;
            assert(self@ =~= old(self)@.push(c));
        }
    }

    /// `n` one-T-state idle cycles with `at` on the address bus.
    pub fn idle(&mut self, at: u16, n: u32)
        ensures
            final(self).wf(),
            final(self)@ == idle_after(old(self)@, at, n as nat),
    {
        proof {
            use_type_invariant(&*self);
        }
        let mut i: u32 = 0;
        while i < n
            invariant
                i <= n,
                self.wf(),
                self@ == idle_after(old(self)@, at, i as nat),
            decreases n - i,
        {
            let c = Cycle { at, len: 1, kind: Kind::Idle };
            proof {
                lemma_idle_after_step(old(self)@, at, i as nat);
            }
            self.push(c);
            i = i + 1;
        }
    }

    /// How many cycles there are.
    pub fn len(&self) -> (n: usize)
        ensures
            n == self@.len(),
    {
        proof {
            use_type_invariant(self);
        }
        self.len
    }

    /// The cycles, in order.
    pub fn as_slice(&self) -> (s: &[Cycle])
        ensures
            s@ == self@,
    {
        proof {
            use_type_invariant(self);
        }
        vstd::slice::slice_subrange(self.buf.as_slice(), 0, self.len)
    }
}

impl Default for Cycles {
    fn default() -> (c: Cycles)
        ensures
            c@ == Seq::<Cycle>::empty(),
            c.wf(),
    {
        Cycles::new()
    }
}

/// `s` after `n` idle cycles at `at` have been pushed onto it, any beyond
/// the capacity being dropped.
pub open spec fn idle_after(s: Seq<Cycle>, at: u16, n: nat) -> Seq<Cycle>
    decreases n,
{
    if n == 0 {
        s
    } else {
        let before = idle_after(s, at, (n - 1) as nat);
        if before.len() < CYCLES_MAX {
            before.push(Cycle { at, len: 1, kind: Kind::Idle })
        } else {
            before
        }
    }
}

proof fn lemma_idle_after_step(s: Seq<Cycle>, at: u16, n: nat)
    ensures
        idle_after(s, at, n + 1) == (if idle_after(s, at, n).len() < CYCLES_MAX {
            idle_after(s, at, n).push(Cycle { at, len: 1, kind: Kind::Idle })
        } else {
            idle_after(s, at, n)
        }),
{
}

/// Whether an address is in the quarter of memory the ULA shares.
pub open spec fn contended_spec(addr: u16) -> bool {
    0x4000 <= addr && addr < 0x8000
}

/// Whether an address is in the quarter of memory the ULA shares.
pub fn contended(addr: u16) -> (b: bool)
    ensures
        b == contended_spec(addr),
{
    0x4000 <= addr && addr < 0x8000
}

/// One tick of `len` T-states, delayed first by the ULA if `contend`.
pub open spec fn tick_spec(t: int, contend: bool, len: int) -> int {
    if contend {
        t + contention_spec(t as u32) + len
    } else {
        t + len
    }
}

/// The clock after an I/O cycle on `port` that starts at `t`. A port whose
/// high byte is in the ULA's range is contended from the start; a port
/// with bit 0 clear is the ULA's own, which holds the processor for the
/// three T-states it takes to answer.
pub open spec fn charge_io_spec(t: int, port: u16) -> int {
    let ula_range = 0x40 <= (port >> 8) && (port >> 8) < 0x80;
    let ula_port = port & 1 == 0;
    if ula_range && ula_port {
        tick_spec(tick_spec(t, true, 1), true, 3)
    } else if ula_range {
        tick_spec(tick_spec(tick_spec(tick_spec(t, true, 1), true, 1), true, 1), true, 1)
    } else if ula_port {
        tick_spec(tick_spec(t, false, 1), true, 3)
    } else {
        tick_spec(t, false, 4)
    }
}

/// The clock after cycle `c` that starts at `t`.
pub open spec fn charge_spec(t: int, c: Cycle) -> int {
    match c.kind {
        Kind::PortRead | Kind::PortWrite => charge_io_spec(t, c.at),
        _ => tick_spec(t, contended_spec(c.at), c.len as int),
    }
}

/// The most an I/O cycle can add to the clock.
pub const IO_MAX: u32 = 28;

fn tick(t: &mut u32, contend: bool, len: u32)
    requires
        tick_spec(*old(t) as int, contend, len as int) <= u32::MAX,
    ensures
        *final(t) as int == tick_spec(*old(t) as int, contend, len as int),
{
    if contend {
        *t = *t + contention(*t);
    }
    *t = *t + len;
}

/// Charges one machine cycle onto `t`, the ULA's delay included.
pub fn charge(t: &mut u32, c: Cycle)
    requires
        charge_spec(*old(t) as int, c) <= u32::MAX,
    ensures
        *final(t) as int == charge_spec(*old(t) as int, c),
        *old(t) <= *final(t),
{
    match c.kind {
        Kind::PortRead | Kind::PortWrite => charge_io(t, c.at),
        _ => {
            let contend = contended(c.at);
            tick(t, contend, c.len);
        }
    }
}

/// Charges an I/O cycle on `port`, whose delays follow a different pattern
/// from memory's.
pub fn charge_io(t: &mut u32, port: u16)
    requires
        charge_io_spec(*old(t) as int, port) <= u32::MAX,
    ensures
        *final(t) as int == charge_io_spec(*old(t) as int, port),
        *old(t) <= *final(t) <= *old(t) + IO_MAX,
{
    let high = port >> 8;
    let ula_range = 0x40 <= high && high < 0x80;
    let ula_port = port & 1 == 0;
    if ula_range && ula_port {
        tick(t, true, 1);
        tick(t, true, 3);
    } else if ula_range {
        tick(t, true, 1);
        tick(t, true, 1);
        tick(t, true, 1);
        tick(t, true, 1);
    } else if ula_port {
        tick(t, false, 1);
        tick(t, true, 3);
    } else {
        tick(t, false, 4);
    }
}

/// Outside the ULA's quarter of memory a cycle costs exactly its length,
/// whenever it happens.
pub proof fn uncontended_costs_its_length(t: u32, c: Cycle)
    requires
        c.kind != Kind::PortRead,
        c.kind != Kind::PortWrite,
        !contended_spec(c.at),
    ensures
        charge_spec(t as int, c) == t + c.len,
{
}

/// An I/O cycle on a port that is neither in the ULA's range nor its own
/// takes four T-states.
pub proof fn free_port_costs_four(t: u32, port: u16)
    requires
        port & 1 == 1,
        !(0x40 <= (port >> 8) && (port >> 8) < 0x80),
    ensures
        charge_io_spec(t as int, port) == t + 4,
{
}

} // verus!
