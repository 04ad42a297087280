//! The block instructions (LDI, CPI, INI, OUTI and their kin), one
//! iteration at a time, and accepting an interrupt.

use vstd::prelude::*;
use crate::decode::{BlockOp, step_op_spec};
use crate::machine::{Zx, add16w, pair, hi_of, lo_of, r_after, sz53, parity, sz53_spec, parity_spec, CF, HF, NF,
    PF, SF, XF, YF, ZF};

verus! {

/// `next` is `z` after `v` was pushed onto the stack: SP down two and the
/// word written below the old SP, high byte on top.
pub open spec fn pushed(z: Zx, next: Zx, v: u16) -> bool {
    exists|mid: Zx| #[trigger] z.wrote(mid, add16w(z.sp, -2), lo_of(v))
        && (Zx { sp: add16w(z.sp, -2), ..mid }).wrote(next, add16w(z.sp, -1), hi_of(v))
}

pub open spec fn io_flags(b: u8, v: u8, k: int) -> u8 {
    let n: u8 = if v & 0x80 != 0 { NF } else { 0 };
    let hc: u8 = if k > 0xFF { HF | CF } else { 0 };
    sz53_spec(b) | n | hc | parity_spec((((k % 256) as u8) & 7) ^ b)
}

pub open spec fn ld_flags(f: u8, bc: u16, n: u8) -> u8 {
    let pv: u8 = if bc != 0 { PF } else { 0 };
    (f & (SF | ZF | CF)) | pv | (n & XF) | ((n << 4u8) & YF)
}

pub open spec fn cp_flags(f: u8, a: u8, v: u8, bc: u16) -> u8 {
    let r = ((a as int - v as int + 256) % 256) as u8;
    let h = (a ^ v ^ r) & HF;
    let n = ((r as int - (if h != 0 { 1int } else { 0 }) + 256) % 256) as u8;
    let pv: u8 = if bc != 0 { PF } else { 0 };
    let z: u8 = if r == 0 { ZF } else { 0 };
    (f & CF) | NF | (r & SF) | z | h | pv | (n & XF) | ((n << 4u8) & YF)
}

/// `z1` is `z` after one iteration of block instruction `op`: a byte
/// copied, compared or sent out, the pairs stepped up or down.
pub open spec fn iterated(z: Zx, z1: Zx, op: BlockOp) -> bool {
    match step_op_spec(op) {
        BlockOp::Ldi => z1 == z.ld_step(z1, 1),
        BlockOp::Ldd => z1 == z.ld_step(z1, 0xFFFF),
        BlockOp::Cpi => z1 == z.cp_step(1),
        BlockOp::Cpd => z1 == z.cp_step(0xFFFF),
        BlockOp::Outi => z1 == z.out_step(1),
        BlockOp::Outd => z1 == z.out_step(0xFFFF),
        _ => true,
    }
}

/// The machine after it accepts an interrupt in state `a`: out of any
/// halt, interrupts off, the return address pushed, and on to 0x0038, or
/// in mode 2 through the vector table.
pub open spec fn accepted(a: Zx, b: Zx) -> bool {
    let pc = if a.halted { add16w(a.pc, 1) } else { a.pc };
    let pre = Zx { halted: false, iff1: false, iff2: false, pc, ..a };
    let vector = pair(a.i, 0xFF);
    &&& b.wf()
    &&& b.frame == a.frame
    &&& pushed(pre, Zx { pc, t: a.t, r: a.r, ..b }, pc)
    &&& b.pc == if a.im == 2 { b.read16_spec(vector) } else { 0x0038 }
    &&& b.t == a.t + if a.im == 2 { 19int } else { 13int }
    &&& b.r == r_after(a.r, 1)
}

impl Zx {
    /// The registers of a block step, memory and the trace taken from
    /// `after`.
    pub open spec fn ld_step(self, after: Zx, delta: u16) -> Zx {
        let v = self.read_spec(self.hl_spec());
        let bc = add16w(self.bc_spec(), -1);
        let n = ((v as int + self.a as int) % 256) as u8;
        Zx {
            h: hi_of(add16w(self.hl_spec(), delta as int)),
            l: lo_of(add16w(self.hl_spec(), delta as int)),
            d: hi_of(add16w(self.de_spec(), delta as int)),
            e: lo_of(add16w(self.de_spec(), delta as int)),
            b: hi_of(bc),
            c: lo_of(bc),
            f: ld_flags(self.f, bc, n),
            mem: after.mem,
            trace: after.trace,
            ..self
        }
    }

    #[verifier::rlimit(30)]
    fn ld_block(&mut self, delta: u16) -> (more: bool)
        requires
            old(self).wf(),
        ensures
            final(self).wf(),
            old(self).wrote(
                Zx { h: old(self).h, l: old(self).l, d: old(self).d, e: old(self).e, b: old(self).b, c: old(self).c, f: old(self).f, ..*final(self) },
                old(self).de_spec(),
                old(self).read_spec(old(self).hl_spec()),
            ),
            *final(self) == old(self).ld_step(*final(self), delta),
            more == (final(self).bc_spec() != 0),
    {
        let v = self.read(self.hl());
        let hl0 = self.hl();
        let de0 = self.de();
        let bc0 = self.bc();
        self.write(de0, v);
        let ghost w = *self;
        let hl = ((hl0 as u32 + delta as u32) % 65536) as u16;
        let de = ((de0 as u32 + delta as u32) % 65536) as u16;
        let bc = ((bc0 as u32 + 65535) % 65536) as u16;
        let n = ((v as u16 + self.a as u16) % 256) as u8;
        let pv: u8 = if bc != 0 { PF } else { 0 };
        let f = (self.f & (SF | ZF | CF)) | pv | (n & XF) | ((n << 4u8) & YF);
        self.h = (hl / 256) as u8;
        self.l = (hl % 256) as u8;
        self.d = (de / 256) as u8;
        self.e = (de % 256) as u8;
        self.b = (bc / 256) as u8;
        self.c = (bc % 256) as u8;
        self.f = f;
        assert(*self == (Zx { h: hi_of(hl), l: lo_of(hl), d: hi_of(de), e: lo_of(de), b: hi_of(bc), c: lo_of(bc), f, ..w }));
        assert((Zx { h: old(self).h, l: old(self).l, d: old(self).d, e: old(self).e, b: old(self).b, c: old(self).c, f: old(self).f, ..*self }) == w);
        bc != 0
    }

    pub fn ldi(&mut self) -> (more: bool)
        requires
            old(self).wf(),
        ensures
            final(self).wf(),
            old(self).wrote(
                Zx { h: old(self).h, l: old(self).l, d: old(self).d, e: old(self).e, b: old(self).b, c: old(self).c, f: old(self).f, ..*final(self) },
                old(self).de_spec(),
                old(self).read_spec(old(self).hl_spec()),
            ),
            *final(self) == old(self).ld_step(*final(self), 1),
            more == (final(self).bc_spec() != 0),
    {
        self.ld_block(1)
    }

    pub fn ldd(&mut self) -> (more: bool)
        requires
            old(self).wf(),
        ensures
            final(self).wf(),
            old(self).wrote(
                Zx { h: old(self).h, l: old(self).l, d: old(self).d, e: old(self).e, b: old(self).b, c: old(self).c, f: old(self).f, ..*final(self) },
                old(self).de_spec(),
                old(self).read_spec(old(self).hl_spec()),
            ),
            *final(self) == old(self).ld_step(*final(self), 0xFFFF),
            more == (final(self).bc_spec() != 0),
    {
        self.ld_block(0xFFFF)
    }

    pub open spec fn cp_step(self, delta: u16) -> Zx {
        let v = self.read_spec(self.hl_spec());
        let bc = add16w(self.bc_spec(), -1);
        Zx {
            h: hi_of(add16w(self.hl_spec(), delta as int)),
            l: lo_of(add16w(self.hl_spec(), delta as int)),
            b: hi_of(bc),
            c: lo_of(bc),
            f: cp_flags(self.f, self.a, v, bc),
            ..self
        }
    }

    #[verifier::rlimit(60)]
    fn cp_block(&mut self, delta: u16) -> (more: bool)
        requires
            old(self).wf(),
        ensures
            *final(self) == old(self).cp_step(delta),
            more == (final(self).bc_spec() != 0 && old(self).a != old(self).read_spec(old(self).hl_spec())),
    {
        let v = self.read(self.hl());
        let a = self.a;
        let r = ((a as u16 + 256 - v as u16) % 256) as u8;
        let hl = ((self.hl() as u32 + delta as u32) % 65536) as u16;
        let bc = ((self.bc() as u32 + 65535) % 65536) as u16;
        let h = (a ^ v ^ r) & HF;
        let n = ((r as u16 + 256 - (if h != 0 { 1u16 } else { 0 })) % 256) as u8;
        let pv: u8 = if bc != 0 { PF } else { 0 };
        let z: u8 = if r == 0 { ZF } else { 0 };
        let f = (self.f & CF) | NF | (r & SF) | z | h | pv | (n & XF) | ((n << 4u8) & YF);
        proof {
            assert(f == cp_flags(old(self).f, a, v, bc));
        }
        self.h = (hl / 256) as u8;
        self.l = (hl % 256) as u8;
        self.b = (bc / 256) as u8;
        self.c = (bc % 256) as u8;
        self.f = f;
        bc != 0 && r != 0
    }

    pub fn cpi(&mut self) -> (more: bool)
        requires
            old(self).wf(),
        ensures
            *final(self) == old(self).cp_step(1),
            more == (final(self).bc_spec() != 0 && old(self).a != old(self).read_spec(old(self).hl_spec())),
    {
        self.cp_block(1)
    }

    pub fn cpd(&mut self) -> (more: bool)
        requires
            old(self).wf(),
        ensures
            *final(self) == old(self).cp_step(0xFFFF),
            more == (final(self).bc_spec() != 0 && old(self).a != old(self).read_spec(old(self).hl_spec())),
    {
        self.cp_block(0xFFFF)
    }

    fn io_block_flags(&mut self, v: u8, k: u16)
        ensures
            *final(self) == (Zx { f: io_flags(old(self).b, v, k as int), ..*old(self) }),
    {
        let n: u8 = if v & 0x80 != 0 { NF } else { 0 };
        let hc: u8 = if k > 0xFF { HF | CF } else { 0 };
        self.f = sz53(self.b) | n | hc | parity((((k % 256) as u8) & 7) ^ self.b);
    }

    /// One INI or IND step: the port at BC read into (HL), HL moved, B
    /// counted down.
    #[verifier::rlimit(30)]
    fn in_block(&mut self, delta: u16) -> (more: bool)
        requires
            old(self).wf(),
        ensures
            final(self).wf(),
            ({
                let v = old(self).port_in_spec(old(self).bc_spec());
                let b = ((old(self).b as int + 255) % 256) as u8;
                let k = v as int + ((old(self).c as int + delta as int % 256) % 256);
                &&& old(self).wrote(Zx { h: old(self).h, l: old(self).l, b: old(self).b, f: old(self).f, ..*final(self) },
                    old(self).hl_spec(), v)
                &&& final(self).hl_spec() == add16w(old(self).hl_spec(), delta as int)
                &&& final(self).b == b
                &&& final(self).f == io_flags(b, v, k)
                &&& more == (b != 0)
            }),
    {
        let v = self.port_in(self.bc());
        let hl = self.hl();
        self.write(hl, v);
        let ghost w = *self;
        let hl2 = ((hl as u32 + delta as u32) % 65536) as u16;
        let b = ((self.b as u16 + 255) % 256) as u8;
        let k = v as u16 + ((self.c as u16 + delta % 256) % 256);
        let n: u8 = if v & 0x80 != 0 { NF } else { 0 };
        let hc: u8 = if k > 0xFF { HF | CF } else { 0 };
        let f = sz53(b) | n | hc | parity((((k % 256) as u8) & 7) ^ b);
        self.h = (hl2 / 256) as u8;
        self.l = (hl2 % 256) as u8;
        self.b = b;
        self.f = f;
        assert((Zx { h: old(self).h, l: old(self).l, b: old(self).b, f: old(self).f, ..*self }) == w);
        b != 0
    }

    pub fn ini(&mut self) -> (more: bool)
        requires
            old(self).wf(),
        ensures
            final(self).wf(),
            ({
                let v = old(self).port_in_spec(old(self).bc_spec());
                let b = ((old(self).b as int + 255) % 256) as u8;
                let k = v as int + ((old(self).c as int + 1) % 256);
                &&& old(self).wrote(Zx { h: old(self).h, l: old(self).l, b: old(self).b, f: old(self).f, ..*final(self) },
                    old(self).hl_spec(), v)
                &&& final(self).hl_spec() == add16w(old(self).hl_spec(), 1)
                &&& final(self).b == b
                &&& final(self).f == io_flags(b, v, k)
                &&& more == (b != 0)
            }),
    {
        self.in_block(1)
    }

    pub fn ind(&mut self) -> (more: bool)
        requires
            old(self).wf(),
        ensures
            final(self).wf(),
            ({
                let v = old(self).port_in_spec(old(self).bc_spec());
                let b = ((old(self).b as int + 255) % 256) as u8;
                let k = v as int + ((old(self).c as int + 0xFFFF) % 256);
                &&& old(self).wrote(Zx { h: old(self).h, l: old(self).l, b: old(self).b, f: old(self).f, ..*final(self) },
                    old(self).hl_spec(), v)
                &&& final(self).hl_spec() == add16w(old(self).hl_spec(), 0xFFFF)
                &&& final(self).b == b
                &&& final(self).f == io_flags(b, v, k)
                &&& more == (b != 0)
            }),
    {
        self.in_block(0xFFFF)
    }

    /// The registers and port effects of an OUTI or OUTD step.
    pub open spec fn out_step(self, delta: u16) -> Zx {
        let v = self.read_spec(self.hl_spec());
        let b = ((self.b as int + 255) % 256) as u8;
        let port = pair(b, self.c);
        let hl = add16w(self.hl_spec(), delta as int);
        let k = v as int + lo_of(hl) as int;
        let base = if port & 1 == 0 {
            Zx { border: v & 7, ear: v & 0x10 != 0, ..self }
        } else {
            self
        };
        Zx { b, h: hi_of(hl), l: lo_of(hl), f: io_flags(b, v, k), ..base }
    }

    /// One OUTI or OUTD step: B counted down, then (HL) sent to the port at
    /// BC, HL moved.
    fn out_block(&mut self, delta: u16) -> (more: bool)
        requires
            old(self).wf(),
        ensures
            *final(self) == old(self).out_step(delta),
            more == (final(self).b != 0),
    {
        let v = self.read(self.hl());
        self.b = ((self.b as u16 + 255) % 256) as u8;
        self.port_out(self.bc(), v);
        let hl = ((self.hl() as u32 + delta as u32) % 65536) as u16;
        self.set_hl(hl);
        let k = v as u16 + self.l as u16;
        self.io_block_flags(v, k);
        self.b != 0
    }

    pub fn outi(&mut self) -> (more: bool)
        requires
            old(self).wf(),
        ensures
            *final(self) == old(self).out_step(1),
            more == (final(self).b != 0),
    {
        self.out_block(1)
    }

    pub fn outd(&mut self) -> (more: bool)
        requires
            old(self).wf(),
        ensures
            *final(self) == old(self).out_step(0xFFFF),
            more == (final(self).b != 0),
    {
        self.out_block(0xFFFF)
    }

    /// One iteration of a block instruction; whether the repeating form
    /// would go round again.
    pub fn block(&mut self, op: BlockOp) -> (more: bool)
        requires
            old(self).wf(),
        ensures
            final(self).wf(),
            final(self).pc == old(self).pc && final(self).sp == old(self).sp && final(self).t == old(self).t,
            final(self).halted == old(self).halted && final(self).r == old(self).r,
            final(self).iff1 == old(self).iff1 && final(self).iff2 == old(self).iff2,
            final(self).frame == old(self).frame,
            iterated(*old(self), *final(self), op),
            step_op_spec(op) is Ldi || step_op_spec(op) is Ldd ==> more == (final(self).bc_spec() != 0),
    {
        match op.step_op() {
            BlockOp::Ldi => self.ldi(),
            BlockOp::Ldd => self.ldd(),
            BlockOp::Cpi => self.cpi(),
            BlockOp::Cpd => self.cpd(),
            BlockOp::Ini => self.ini(),
            BlockOp::Ind => self.ind(),
            BlockOp::Outi => self.outi(),
            _ => self.outd(),
        }
    }

    // --- interrupts ---------------------------------------------------------

    /// Takes an interrupt: out of a HALT, past it; interrupts off; PC
    /// pushed; then to 0x0038, or in mode 2 through the table entry the
    /// floating bus (0xFF) and I pick.
    pub fn accept_interrupt(&mut self)
        requires
            old(self).wf(),
            old(self).t as int + 19 <= u32::MAX,
        ensures
            accepted(*old(self), *final(self)),
    {
        // A halted processor sits on the HALT instruction; leaving the halt
        // state is what steps past it.
        if self.halted {
            self.pc = ((self.pc as u32 + 1) % 65536) as u16;
        }
        self.halted = false;
        self.di();
        let pc = self.pc;
        let ghost pre = *self;
        self.push(pc);
        let ghost after = *self;
        if self.im == 2 {
            let vector = (self.i as u16) * 256 + 0xFF;
            self.pc = self.read16(vector);
            self.step(19, 1);
        } else {
            self.pc = 0x0038;
            self.step(13, 1);
        }
        assert((Zx { pc, t: old(self).t, r: old(self).r, ..*self }) == after);
    }
}

} // verus!
