//! The Z80's arithmetic: the 8-bit ALU, rotates and shifts, bit tests and
//! the 16-bit adds, each with the flags it leaves.

use vstd::prelude::*;
use crate::decode::{AluOp, RotOp};
use crate::machine::{Zx, CF, NF, PF, XF, HF, YF, ZF, SF, sz53, sz53p, sz53_spec, sz53p_spec};

verus! {

// ---------------------------------------------------------------------------
// What each operation leaves.

/// `a + v + carry`: the result and its flags.
pub open spec fn add8_spec(a: u8, v: u8, carry: u8) -> (u8, u8) {
    let r16 = a as int + v as int + carry as int;
    let r = (r16 % 256) as u8;
    let overflow: u8 = if (!(a ^ v) & (a ^ r) & 0x80) != 0 { PF } else { 0 };
    (r, sz53_spec(r) | ((a ^ v ^ r) & HF) | overflow | ((r16 / 256) as u8))
}

/// `a - v - carry`: the result and its flags.
pub open spec fn sub8_spec(a: u8, v: u8, carry: u8) -> (u8, u8) {
    let d = a as int - v as int - carry as int;
    let r = ((d + 512) % 256) as u8;
    let overflow: u8 = if ((a ^ v) & (a ^ r) & 0x80) != 0 { PF } else { 0 };
    let borrow: u8 = if d < 0 { CF } else { 0 };
    (r, sz53_spec(r) | NF | ((a ^ v ^ r) & HF) | overflow | borrow)
}

pub open spec fn rlc8(v: u8) -> u8 {
    (v << 1u8) | (v >> 7u8)
}

pub open spec fn rrc8(v: u8) -> u8 {
    (v >> 1u8) | (v << 7u8)
}

/// A CB rotate or shift of `v` with carry in `f`: the result and the
/// carry out.
pub open spec fn rot_spec(op: RotOp, v: u8, f: u8) -> (u8, u8) {
    match op {
        RotOp::Rlc => (rlc8(v), v >> 7u8),
        RotOp::Rrc => (rrc8(v), v & 1),
        RotOp::Rl => ((v << 1u8) | (f & CF), v >> 7u8),
        RotOp::Rr => ((v >> 1u8) | ((f & CF) << 7u8), v & 1),
        RotOp::Sla => (v << 1u8, v >> 7u8),
        RotOp::Sra => ((v >> 1u8) | (v & 0x80), v & 1),
        RotOp::Sll => ((v << 1u8) | 1, v >> 7u8),
        RotOp::Srl => (v >> 1u8, v & 1),
    }
}

/// The machine after the accumulator operation `op` on `v`.
pub open spec fn alu_result(z: Zx, op: AluOp, v: u8) -> Zx {
    match op {
        AluOp::Add => Zx { a: add8_spec(z.a, v, 0).0, f: add8_spec(z.a, v, 0).1, ..z },
        AluOp::Adc => Zx { a: add8_spec(z.a, v, z.f & CF).0, f: add8_spec(z.a, v, z.f & CF).1, ..z },
        AluOp::Sub => Zx { a: sub8_spec(z.a, v, 0).0, f: sub8_spec(z.a, v, 0).1, ..z },
        AluOp::Sbc => Zx { a: sub8_spec(z.a, v, z.f & CF).0, f: sub8_spec(z.a, v, z.f & CF).1, ..z },
        AluOp::And => Zx { a: z.a & v, f: sz53p_spec(z.a & v) | HF, ..z },
        AluOp::Xor => Zx { a: z.a ^ v, f: sz53p_spec(z.a ^ v), ..z },
        AluOp::Or => Zx { a: z.a | v, f: sz53p_spec(z.a | v), ..z },
        // CP takes the undocumented bits 3 and 5 from the operand.
        AluOp::Cp => Zx { f: (sub8_spec(z.a, v, 0).1 & !(XF | YF)) | (v & (XF | YF)), ..z },
    }
}

pub open spec fn daa_spec(a: u8, f: u8) -> (u8, u8) {
    let low: u8 = if f & HF != 0 || a & 0x0F > 9 { 0x06 } else { 0 };
    let high: bool = f & CF != 0 || a > 0x99;
    let diff: u8 = low | if high { 0x60u8 } else { 0 };
    let carry: u8 = if high { CF } else { 0 };
    let r: u8 = if f & NF != 0 { ((a as int - diff as int + 256) % 256) as u8 } else { ((a as int + diff as int) % 256) as u8 };
    (r, sz53p_spec(r) | (f & NF) | carry | ((a ^ r) & HF))
}

pub open spec fn add16_spec(f: u8, a: u16, b: u16) -> (u16, u8) {
    let r32 = a as int + b as int;
    let r = (r32 % 65536) as u16;
    let h = (((a ^ b ^ r) >> 8u16) as u8) & HF;
    (r, (f & (SF | ZF | PF)) | (((r >> 8u16) as u8) & (XF | YF)) | h | ((r32 / 65536) as u8))
}

pub open spec fn adc16_spec(f: u8, hl: u16, v: u16) -> (u16, u8) {
    let r32 = hl as int + v as int + (f & CF) as int;
    let r = (r32 % 65536) as u16;
    let hi = (r >> 8u16) as u8;
    let overflow: u8 = if (!(hl ^ v) & (hl ^ r) & 0x8000) != 0 { PF } else { 0 };
    (r, (hi & (SF | XF | YF)) | (if r == 0 { ZF } else { 0 }) | ((((hl ^ v ^ r) >> 8u16) as u8) & HF) | overflow
        | ((r32 / 65536) as u8))
}

pub open spec fn sbc16_spec(f: u8, hl: u16, v: u16) -> (u16, u8) {
    let d = hl as int - v as int - (f & CF) as int;
    let r = ((d + 131072) % 65536) as u16;
    let hi = (r >> 8u16) as u8;
    let overflow: u8 = if ((hl ^ v) & (hl ^ r) & 0x8000) != 0 { PF } else { 0 };
    (r, (hi & (SF | XF | YF)) | (if r == 0 { ZF } else { 0 }) | NF | ((((hl ^ v ^ r) >> 8u16) as u8) & HF) | overflow
        | (if d < 0 { CF } else { 0 }))
}

pub open spec fn bit_flags(f: u8, n: u8, v: u8, undocumented: u8) -> u8 {
    let set = v & (1u8 << n);
    let zp: u8 = if set == 0 { ZF | PF } else { 0 };
    let s: u8 = if n == 7 && set != 0 { SF } else { 0 };
    (f & CF) | HF | (undocumented & (XF | YF)) | zp | s
}

impl Zx {
    // --- 8-bit ALU ----------------------------------------------------------

    fn add8(&mut self, v: u8, carry: u8)
        ensures
            *final(self) == (Zx { a: add8_spec(old(self).a, v, carry).0, f: add8_spec(old(self).a, v, carry).1, ..*old(self) }),
    {
        let a = self.a;
        let r16: u16 = a as u16 + v as u16 + carry as u16;
        let r = (r16 % 256) as u8;
        let overflow: u8 = if (!(a ^ v) & (a ^ r) & 0x80) != 0 { PF } else { 0 };
        self.f = sz53(r) | ((a ^ v ^ r) & HF) | overflow | ((r16 / 256) as u8);
        self.a = r;
    }

    fn sub8(&mut self, v: u8, carry: u8) -> (r: u8)
        ensures
            r == sub8_spec(old(self).a, v, carry).0,
            *final(self) == (Zx { f: sub8_spec(old(self).a, v, carry).1, ..*old(self) }),
    {
        let a = self.a;
        let d: i16 = a as i16 - v as i16 - carry as i16;
        let r = ((d + 512) % 256) as u8;
        let overflow: u8 = if ((a ^ v) & (a ^ r) & 0x80) != 0 { PF } else { 0 };
        let borrow: u8 = if d < 0 { CF } else { 0 };
        self.f = sz53(r) | NF | ((a ^ v ^ r) & HF) | overflow | borrow;
        r
    }

    pub fn alu_add(&mut self, v: u8)
        ensures
            *final(self) == alu_result(*old(self), AluOp::Add, v),
    {
        self.add8(v, 0);
    }

    pub fn alu_adc(&mut self, v: u8)
        ensures
            *final(self) == alu_result(*old(self), AluOp::Adc, v),
    {
        let c = self.f & CF;
        self.add8(v, c);
    }

    pub fn alu_sub(&mut self, v: u8)
        ensures
            *final(self) == alu_result(*old(self), AluOp::Sub, v),
    {
        self.a = self.sub8(v, 0);
    }

    pub fn alu_sbc(&mut self, v: u8)
        ensures
            *final(self) == alu_result(*old(self), AluOp::Sbc, v),
    {
        let c = self.f & CF;
        self.a = self.sub8(v, c);
    }

    pub fn alu_and(&mut self, v: u8)
        ensures
            *final(self) == alu_result(*old(self), AluOp::And, v),
    {
        self.a = self.a & v;
        self.f = sz53p(self.a) | HF;
    }

    pub fn alu_xor(&mut self, v: u8)
        ensures
            *final(self) == alu_result(*old(self), AluOp::Xor, v),
    {
        self.a = self.a ^ v;
        self.f = sz53p(self.a);
    }

    pub fn alu_or(&mut self, v: u8)
        ensures
            *final(self) == alu_result(*old(self), AluOp::Or, v),
    {
        self.a = self.a | v;
        self.f = sz53p(self.a);
    }

    pub fn alu_cp(&mut self, v: u8)
        ensures
            *final(self) == alu_result(*old(self), AluOp::Cp, v),
    {
        self.sub8(v, 0);
        self.f = (self.f & !(XF | YF)) | (v & (XF | YF));
    }

    pub fn alu(&mut self, op: AluOp, v: u8)
        ensures
            *final(self) == alu_result(*old(self), op, v),
    {
        match op {
            AluOp::Add => self.alu_add(v),
            AluOp::Adc => self.alu_adc(v),
            AluOp::Sub => self.alu_sub(v),
            AluOp::Sbc => self.alu_sbc(v),
            AluOp::And => self.alu_and(v),
            AluOp::Xor => self.alu_xor(v),
            AluOp::Or => self.alu_or(v),
            AluOp::Cp => self.alu_cp(v),
        }
    }

    pub fn inc8(&mut self, v: u8) -> (r: u8)
        ensures
            r == ((v as int + 1) % 256) as u8,
            *final(self) == (Zx {
                f: (old(self).f & CF) | sz53_spec(r) | (if v & 0x0F == 0x0F { HF } else { 0 }) | (if v == 0x7F { PF } else { 0 }),
                ..*old(self)
            }),
    {
        let r = ((v as u16 + 1) % 256) as u8;
        let h: u8 = if v & 0x0F == 0x0F { HF } else { 0 };
        let o: u8 = if v == 0x7F { PF } else { 0 };
        self.f = (self.f & CF) | sz53(r) | h | o;
        r
    }

    pub fn dec8(&mut self, v: u8) -> (r: u8)
        ensures
            r == ((v as int + 255) % 256) as u8,
            *final(self) == (Zx {
                f: (old(self).f & CF) | NF | sz53_spec(r) | (if v & 0x0F == 0 { HF } else { 0 }) | (if v == 0x80 { PF } else { 0 }),
                ..*old(self)
            }),
    {
        let r = ((v as u16 + 255) % 256) as u8;
        let h: u8 = if v & 0x0F == 0 { HF } else { 0 };
        let o: u8 = if v == 0x80 { PF } else { 0 };
        self.f = (self.f & CF) | NF | sz53(r) | h | o;
        r
    }

    pub fn daa(&mut self)
        ensures
            *final(self) == (Zx { a: daa_spec(old(self).a, old(self).f).0, f: daa_spec(old(self).a, old(self).f).1, ..*old(self) }),
    {
        let a = self.a;
        let low: u8 = if self.f & HF != 0 || a & 0x0F > 9 { 0x06 } else { 0 };
        let high = self.f & CF != 0 || a > 0x99;
        let diff: u8 = low | if high { 0x60u8 } else { 0 };
        let carry: u8 = if high { CF } else { 0 };
        let r = if self.f & NF != 0 {
            ((a as u16 + 256 - diff as u16) % 256) as u8
        } else {
            ((a as u16 + diff as u16) % 256) as u8
        };
        self.f = sz53p(r) | (self.f & NF) | carry | ((a ^ r) & HF);
        self.a = r;
    }

    pub fn cpl(&mut self)
        ensures
            *final(self) == (Zx {
                a: !old(self).a,
                f: (old(self).f & (SF | ZF | PF | CF)) | HF | NF | (!old(self).a & (XF | YF)),
                ..*old(self)
            }),
    {
        self.a = !self.a;
        self.f = (self.f & (SF | ZF | PF | CF)) | HF | NF | (self.a & (XF | YF));
    }

    pub fn neg(&mut self)
        ensures
            *final(self) == (Zx { a: sub8_spec(0, old(self).a, 0).0, f: sub8_spec(0, old(self).a, 0).1, ..*old(self) }),
    {
        let v = self.a;
        self.a = 0;
        self.a = self.sub8(v, 0);
    }

    pub fn scf(&mut self)
        ensures
            *final(self) == (Zx { f: (old(self).f & (SF | ZF | PF)) | (old(self).a & (XF | YF)) | CF, ..*old(self) }),
    {
        self.f = (self.f & (SF | ZF | PF)) | (self.a & (XF | YF)) | CF;
    }

    pub fn ccf(&mut self)
        ensures
            *final(self) == (Zx {
                f: (old(self).f & (SF | ZF | PF)) | (old(self).a & (XF | YF)) | (if old(self).f & CF != 0 { HF } else { CF }),
                ..*old(self)
            }),
    {
        let hc: u8 = if self.f & CF != 0 { HF } else { CF };
        self.f = (self.f & (SF | ZF | PF)) | (self.a & (XF | YF)) | hc;
    }

    pub fn rlca(&mut self)
        ensures
            *final(self) == (Zx { a: rlc8(old(self).a), f: (old(self).f & (SF | ZF | PF)) | (rlc8(old(self).a) & (XF | YF | CF)), ..*old(self) }),
    {
        self.a = (self.a << 1u8) | (self.a >> 7u8);
        self.f = (self.f & (SF | ZF | PF)) | (self.a & (XF | YF | CF));
    }

    pub fn rrca(&mut self)
        ensures
            *final(self) == (Zx { a: rrc8(old(self).a), f: (old(self).f & (SF | ZF | PF)) | (rrc8(old(self).a) & (XF | YF)) | (old(self).a & 1), ..*old(self) }),
    {
        let c = self.a & 1;
        self.a = (self.a >> 1u8) | (self.a << 7u8);
        self.f = (self.f & (SF | ZF | PF)) | (self.a & (XF | YF)) | c;
    }

    pub fn rla(&mut self)
        ensures
            *final(self) == (Zx {
                a: (old(self).a << 1u8) | (old(self).f & CF),
                f: (old(self).f & (SF | ZF | PF)) | (((old(self).a << 1u8) | (old(self).f & CF)) & (XF | YF)) | (old(self).a >> 7u8),
                ..*old(self)
            }),
    {
        let c = self.a >> 7u8;
        self.a = (self.a << 1u8) | (self.f & CF);
        self.f = (self.f & (SF | ZF | PF)) | (self.a & (XF | YF)) | c;
    }

    pub fn rra(&mut self)
        ensures
            *final(self) == (Zx {
                a: (old(self).a >> 1u8) | ((old(self).f & CF) << 7u8),
                f: (old(self).f & (SF | ZF | PF)) | (((old(self).a >> 1u8) | ((old(self).f & CF) << 7u8)) & (XF | YF)) | (old(self).a & 1),
                ..*old(self)
            }),
    {
        let c = self.a & 1;
        self.a = (self.a >> 1u8) | ((self.f & CF) << 7u8);
        self.f = (self.f & (SF | ZF | PF)) | (self.a & (XF | YF)) | c;
    }

    /// The byte at HL gets its low nibble from A's and its high one from its
    /// own low one; A's low nibble gets its old high one.
    pub fn rld(&mut self)
        requires
            old(self).wf(),
        ensures
            final(self).wf(),
            ({
                let v = old(self).read_spec(old(self).hl_spec());
                let a = (old(self).a & 0xF0) | (v >> 4u8);
                (Zx { a, f: (old(self).f & CF) | sz53p_spec(a), ..*old(self) }).wrote(
                    *final(self), old(self).hl_spec(), (v << 4u8) | (old(self).a & 0x0F))
            }),
    {
        let hl = self.hl();
        let v = self.read(hl);
        let a = self.a;
        self.a = (a & 0xF0) | (v >> 4u8);
        self.f = (self.f & CF) | sz53p(self.a);
        self.write(hl, (v << 4u8) | (a & 0x0F));
    }

    pub fn rrd(&mut self)
        requires
            old(self).wf(),
        ensures
            final(self).wf(),
            ({
                let v = old(self).read_spec(old(self).hl_spec());
                let a = (old(self).a & 0xF0) | (v & 0x0F);
                (Zx { a, f: (old(self).f & CF) | sz53p_spec(a), ..*old(self) }).wrote(
                    *final(self), old(self).hl_spec(), (old(self).a << 4u8) | (v >> 4u8))
            }),
    {
        let hl = self.hl();
        let v = self.read(hl);
        let a = self.a;
        self.a = (a & 0xF0) | (v & 0x0F);
        self.f = (self.f & CF) | sz53p(self.a);
        self.write(hl, (a << 4u8) | (v >> 4u8));
    }

    // --- CB rotates, shifts and bit tests ----------------------------------

    fn shift_result(&mut self, r: u8, carry: u8) -> (out: u8)
        ensures
            out == r,
            *final(self) == (Zx { f: sz53p_spec(r) | carry, ..*old(self) }),
    {
        self.f = sz53p(r) | carry;
        r
    }

    pub fn rlc(&mut self, v: u8) -> (r: u8)
        ensures
            r == rot_spec(RotOp::Rlc, v, old(self).f).0,
            *final(self) == (Zx { f: sz53p_spec(r) | rot_spec(RotOp::Rlc, v, old(self).f).1, ..*old(self) }),
    {
        self.shift_result((v << 1u8) | (v >> 7u8), v >> 7u8)
    }

    pub fn rrc(&mut self, v: u8) -> (r: u8)
        ensures
            r == rot_spec(RotOp::Rrc, v, old(self).f).0,
            *final(self) == (Zx { f: sz53p_spec(r) | rot_spec(RotOp::Rrc, v, old(self).f).1, ..*old(self) }),
    {
        self.shift_result((v >> 1u8) | (v << 7u8), v & 1)
    }

    pub fn rl(&mut self, v: u8) -> (r: u8)
        ensures
            r == rot_spec(RotOp::Rl, v, old(self).f).0,
            *final(self) == (Zx { f: sz53p_spec(r) | rot_spec(RotOp::Rl, v, old(self).f).1, ..*old(self) }),
    {
        let r = (v << 1u8) | (self.f & CF);
        self.shift_result(r, v >> 7u8)
    }

    pub fn rr(&mut self, v: u8) -> (r: u8)
        ensures
            r == rot_spec(RotOp::Rr, v, old(self).f).0,
            *final(self) == (Zx { f: sz53p_spec(r) | rot_spec(RotOp::Rr, v, old(self).f).1, ..*old(self) }),
    {
        let r = (v >> 1u8) | ((self.f & CF) << 7u8);
        self.shift_result(r, v & 1)
    }

    pub fn sla(&mut self, v: u8) -> (r: u8)
        ensures
            r == rot_spec(RotOp::Sla, v, old(self).f).0,
            *final(self) == (Zx { f: sz53p_spec(r) | rot_spec(RotOp::Sla, v, old(self).f).1, ..*old(self) }),
    {
        self.shift_result(v << 1u8, v >> 7u8)
    }

    pub fn sra(&mut self, v: u8) -> (r: u8)
        ensures
            r == rot_spec(RotOp::Sra, v, old(self).f).0,
            *final(self) == (Zx { f: sz53p_spec(r) | rot_spec(RotOp::Sra, v, old(self).f).1, ..*old(self) }),
    {
        self.shift_result((v >> 1u8) | (v & 0x80), v & 1)
    }

    pub fn sll(&mut self, v: u8) -> (r: u8)
        ensures
            r == rot_spec(RotOp::Sll, v, old(self).f).0,
            *final(self) == (Zx { f: sz53p_spec(r) | rot_spec(RotOp::Sll, v, old(self).f).1, ..*old(self) }),
    {
        self.shift_result((v << 1u8) | 1, v >> 7u8)
    }

    pub fn srl(&mut self, v: u8) -> (r: u8)
        ensures
            r == rot_spec(RotOp::Srl, v, old(self).f).0,
            *final(self) == (Zx { f: sz53p_spec(r) | rot_spec(RotOp::Srl, v, old(self).f).1, ..*old(self) }),
    {
        self.shift_result(v >> 1u8, v & 1)
    }

    pub fn rot(&mut self, op: RotOp, v: u8) -> (r: u8)
        ensures
            r == rot_spec(op, v, old(self).f).0,
            *final(self) == (Zx { f: sz53p_spec(r) | rot_spec(op, v, old(self).f).1, ..*old(self) }),
    {
        match op {
            RotOp::Rlc => self.rlc(v),
            RotOp::Rrc => self.rrc(v),
            RotOp::Rl => self.rl(v),
            RotOp::Rr => self.rr(v),
            RotOp::Sla => self.sla(v),
            RotOp::Sra => self.sra(v),
            RotOp::Sll => self.sll(v),
            RotOp::Srl => self.srl(v),
        }
    }

    /// Tests bit `n` of `v`. Flag bits 3 and 5 are undocumented and do not
    /// come from `v` for every form of the instruction, so the caller says
    /// where they come from.
    pub fn bit(&mut self, n: u8, v: u8, undocumented: u8)
        requires
            n < 8,
        ensures
            *final(self) == (Zx { f: bit_flags(old(self).f, n, v, undocumented), ..*old(self) }),
    {
        let set = v & (1u8 << n);
        let zp: u8 = if set == 0 { ZF | PF } else { 0 };
        let s: u8 = if n == 7 && set != 0 { SF } else { 0 };
        self.f = (self.f & CF) | HF | (undocumented & (XF | YF)) | zp | s;
    }

    // --- 16-bit ALU ---------------------------------------------------------

    pub fn add16(&mut self, a: u16, b: u16) -> (r: u16)
        ensures
            r == add16_spec(old(self).f, a, b).0,
            *final(self) == (Zx { f: add16_spec(old(self).f, a, b).1, ..*old(self) }),
    {
        let r32: u32 = a as u32 + b as u32;
        let r = (r32 % 65536) as u16;
        let h = (((a ^ b ^ r) >> 8u16) as u8) & HF;
        self.f = (self.f & (SF | ZF | PF)) | (((r >> 8u16) as u8) & (XF | YF)) | h | ((r32 / 65536) as u8);
        r
    }

    pub fn adc_hl(&mut self, v: u16)
        ensures
            *final(self) == old(self).with_r16(crate::decode::Reg16::HL, adc16_spec(old(self).f, old(self).hl_spec(), v).0).with_f(
                adc16_spec(old(self).f, old(self).hl_spec(), v).1),
    {
        let hl = self.hl();
        let r32: u32 = hl as u32 + v as u32 + (self.f & CF) as u32;
        let r = (r32 % 65536) as u16;
        let hi = (r >> 8u16) as u8;
        let overflow: u8 = if (!(hl ^ v) & (hl ^ r) & 0x8000) != 0 { PF } else { 0 };
        self.f = (hi & (SF | XF | YF)) | (if r == 0 { ZF } else { 0 }) | ((((hl ^ v ^ r) >> 8u16) as u8) & HF) | overflow
            | ((r32 / 65536) as u8);
        self.set_hl(r);
    }

    pub fn sbc_hl(&mut self, v: u16)
        ensures
            *final(self) == old(self).with_r16(crate::decode::Reg16::HL, sbc16_spec(old(self).f, old(self).hl_spec(), v).0).with_f(
                sbc16_spec(old(self).f, old(self).hl_spec(), v).1),
    {
        let hl = self.hl();
        let d: i32 = hl as i32 - v as i32 - (self.f & CF) as i32;
        let r = ((d + 131072) % 65536) as u16;
        let hi = (r >> 8u16) as u8;
        let overflow: u8 = if ((hl ^ v) & (hl ^ r) & 0x8000) != 0 { PF } else { 0 };
        let borrow: u8 = if d < 0 { CF } else { 0 };
        self.f = (hi & (SF | XF | YF)) | (if r == 0 { ZF } else { 0 }) | NF | ((((hl ^ v ^ r) >> 8u16) as u8) & HF) | overflow
            | borrow;
        self.set_hl(r);
    }

    pub open spec fn with_f(self, f: u8) -> Zx {
        Zx { f, ..self }
    }

    // --- misc ---------------------------------------------------------------

    pub fn ld_a_i(&mut self)
        ensures
            *final(self) == (Zx {
                a: old(self).i,
                f: (old(self).f & CF) | sz53_spec(old(self).i) | (if old(self).iff2 { PF } else { 0 }),
                ..*old(self)
            }),
    {
        self.a = self.i;
        self.f = (self.f & CF) | sz53(self.a) | if self.iff2 { PF } else { 0 };
    }

    pub fn ld_a_r(&mut self)
        ensures
            *final(self) == (Zx {
                a: old(self).r,
                f: (old(self).f & CF) | sz53_spec(old(self).r) | (if old(self).iff2 { PF } else { 0 }),
                ..*old(self)
            }),
    {
        self.a = self.r;
        self.f = (self.f & CF) | sz53(self.a) | if self.iff2 { PF } else { 0 };
    }

    /// Flags for `IN r,(C)`.
    pub fn in_flags(&mut self, v: u8)
        ensures
            *final(self) == (Zx { f: (old(self).f & CF) | sz53p_spec(v), ..*old(self) }),
    {
        self.f = (self.f & CF) | sz53p(v);
    }
}

// ---------------------------------------------------------------------------
// What the arithmetic keeps.

/// An addition carries exactly when the sum does not fit in a byte, and
/// sets Z exactly when what fits is zero.
pub proof fn add_carries_when_it_overflows(a: u8, v: u8)
    ensures
        add8_spec(a, v, 0).0 == (a + v) % 256,
        (add8_spec(a, v, 0).1 & CF != 0) == (a + v > 255),
        (add8_spec(a, v, 0).1 & ZF != 0) == ((a + v) % 256 == 0),
        add8_spec(a, v, 0).1 & NF == 0,
{
    add_bits(a, v, 0, false);
}

/// A subtraction borrows exactly when the operand is larger, sets Z
/// exactly when the two are equal, and always sets N: what CP tests.
pub proof fn sub_borrows_when_larger(a: u8, v: u8)
    ensures
        sub8_spec(a, v, 0).0 == (a - v + 256) % 256,
        (sub8_spec(a, v, 0).1 & CF != 0) == (v > a),
        (sub8_spec(a, v, 0).1 & ZF != 0) == (a == v),
        sub8_spec(a, v, 0).1 & NF != 0,
{
    sub_bits(a, v, 0, false);
}

/// ADC adds the carry flag in: A becomes the low byte of A + v + carry, CF
/// is set exactly when that sum does not fit in a byte, Z exactly when the
/// byte is zero, and N is clear. With the carry clear it is ADD.
pub proof fn adc_adds_the_carry(z: Zx, v: u8)
    ensures
        alu_result(z, AluOp::Adc, v).a == (z.a + v + (z.f & CF)) % 256,
        (alu_result(z, AluOp::Adc, v).f & CF != 0) == (z.a + v + (z.f & CF) > 255),
        (alu_result(z, AluOp::Adc, v).f & ZF != 0) == ((z.a + v + (z.f & CF)) % 256 == 0),
        alu_result(z, AluOp::Adc, v).f & NF == 0,
        z.f & CF == 0 ==> alu_result(z, AluOp::Adc, v) == alu_result(z, AluOp::Add, v),
{
    add_bits(z.a, v, z.f, true);
}

/// SBC takes the carry flag off as well: A becomes the low byte of
/// A - v - carry, CF is set exactly when v + carry is more than A, Z
/// exactly when the byte is zero, and N is set. With the carry clear it is
/// SUB.
pub proof fn sbc_takes_the_carry(z: Zx, v: u8)
    ensures
        alu_result(z, AluOp::Sbc, v).a == (z.a - v - (z.f & CF) + 512) % 256,
        (alu_result(z, AluOp::Sbc, v).f & CF != 0) == (v + (z.f & CF) > z.a),
        (alu_result(z, AluOp::Sbc, v).f & ZF != 0) == ((z.a - v - (z.f & CF) + 512) % 256 == 0),
        alu_result(z, AluOp::Sbc, v).f & NF != 0,
        z.f & CF == 0 ==> alu_result(z, AluOp::Sbc, v) == alu_result(z, AluOp::Sub, v),
{
    sub_bits(z.a, v, z.f, true);
}

/// What the ALU operation with number `code` (as the opcode's y field
/// numbers them) does to A and the flags, `r` being the machine after it:
/// 0 ADD and 1 ADC add (ADC the carry too), 2 SUB and 3 SBC subtract (SBC
/// the carry too), carrying or borrowing out of the byte into CF; 4 AND,
/// 5 XOR and 6 OR combine bitwise and clear CF; 7 CP leaves A alone and
/// sets CF when v is larger, Z when they are equal.
pub open spec fn alu_meaning(code: int, z: Zx, v: u8, r: Zx) -> bool {
    let c = (z.f & CF) as int;
    if code == 0 {
        r.a == (z.a + v) % 256 && (r.f & CF != 0) == (z.a + v > 255)
    } else if code == 1 {
        r.a == (z.a + v + c) % 256 && (r.f & CF != 0) == (z.a + v + c > 255)
    } else if code == 2 {
        r.a == (z.a - v + 256) % 256 && (r.f & CF != 0) == (v > z.a)
    } else if code == 3 {
        r.a == (z.a - v - c + 512) % 256 && (r.f & CF != 0) == (v + c > z.a)
    } else if code == 4 {
        r.a == z.a & v && r.f & CF == 0
    } else if code == 5 {
        r.a == z.a ^ v && r.f & CF == 0
    } else if code == 6 {
        r.a == z.a | v && r.f & CF == 0
    } else {
        r.a == z.a && (r.f & CF != 0) == (v > z.a) && (r.f & ZF != 0) == (v == z.a)
    }
}

/// Each ALU operation does what its number says (see [`alu_meaning`]).
pub proof fn alu_ops_do_what_their_numbers_say(z: Zx, v: u8)
    ensures
        alu_meaning(0, z, v, alu_result(z, AluOp::Add, v)),
        alu_meaning(1, z, v, alu_result(z, AluOp::Adc, v)),
        alu_meaning(2, z, v, alu_result(z, AluOp::Sub, v)),
        alu_meaning(3, z, v, alu_result(z, AluOp::Sbc, v)),
        alu_meaning(4, z, v, alu_result(z, AluOp::And, v)),
        alu_meaning(5, z, v, alu_result(z, AluOp::Xor, v)),
        alu_meaning(6, z, v, alu_result(z, AluOp::Or, v)),
        alu_meaning(7, z, v, alu_result(z, AluOp::Cp, v)),
{
    add_meanings(z, v);
    sub_meanings(z, v);
    logic_meanings(z, v);
}

proof fn add_meanings(z: Zx, v: u8)
    ensures
        alu_meaning(0, z, v, alu_result(z, AluOp::Add, v)),
        alu_meaning(1, z, v, alu_result(z, AluOp::Adc, v)),
{
    add_bits(z.a, v, z.f, false);
    add_bits(z.a, v, z.f, true);
}

proof fn sub_meanings(z: Zx, v: u8)
    ensures
        alu_meaning(2, z, v, alu_result(z, AluOp::Sub, v)),
        alu_meaning(3, z, v, alu_result(z, AluOp::Sbc, v)),
{
    sub_bits(z.a, v, z.f, false);
    sub_bits(z.a, v, z.f, true);
}

proof fn logic_meanings(z: Zx, v: u8)
    ensures
        alu_meaning(4, z, v, alu_result(z, AluOp::And, v)),
        alu_meaning(5, z, v, alu_result(z, AluOp::Xor, v)),
        alu_meaning(6, z, v, alu_result(z, AluOp::Or, v)),
        alu_meaning(7, z, v, alu_result(z, AluOp::Cp, v)),
{
    sub_bits(z.a, v, z.f, false);
    logic_and_compare_bits(z.a, v, sub8_spec(z.a, v, 0).1);
}

/// What the shift or rotate with number `code` (as the CB opcode's y field
/// numbers them) makes of `v` with carry `c` coming in: the result and the
/// carry going out. 0 RLC and 1 RRC rotate the byte round on itself, 2 RL
/// and 3 RR rotate it through the carry, 4 SLA shifts left, 5 SRA shifts
/// right keeping the sign, 6 SLL shifts left bringing in a 1, and 7 SRL
/// shifts right bringing in a 0; a left move carries out bit 7, a right
/// one bit 0.
pub open spec fn rot_meaning(code: int, v: u8, c: int) -> (int, int) {
    let top = v as int / 128;
    let bottom = v as int % 2;
    if code == 0 {
        ((2 * v + top) % 256, top)
    } else if code == 1 {
        (v / 2 + 128 * bottom, bottom)
    } else if code == 2 {
        ((2 * v + c) % 256, top)
    } else if code == 3 {
        (v / 2 + 128 * c, bottom)
    } else if code == 4 {
        ((2 * v) % 256, top)
    } else if code == 5 {
        (v / 2 + 128 * top, bottom)
    } else if code == 6 {
        ((2 * v + 1) % 256, top)
    } else {
        (v as int / 2, bottom)
    }
}

/// The result and carry of a rotate or shift as numbers.
pub open spec fn rot_numbers(op: RotOp, v: u8, f: u8) -> (int, int) {
    (rot_spec(op, v, f).0 as int, rot_spec(op, v, f).1 as int)
}

/// Each shift and rotate does what its number says (see [`rot_meaning`]),
/// with the carry flag of `f` coming in.
pub proof fn rotates_do_what_their_numbers_say(v: u8, f: u8)
    ensures
        rot_numbers(RotOp::Rlc, v, f) == rot_meaning(0, v, (f & CF) as int),
        rot_numbers(RotOp::Rrc, v, f) == rot_meaning(1, v, (f & CF) as int),
        rot_numbers(RotOp::Rl, v, f) == rot_meaning(2, v, (f & CF) as int),
        rot_numbers(RotOp::Rr, v, f) == rot_meaning(3, v, (f & CF) as int),
        rot_numbers(RotOp::Sla, v, f) == rot_meaning(4, v, (f & CF) as int),
        rot_numbers(RotOp::Sra, v, f) == rot_meaning(5, v, (f & CF) as int),
        rot_numbers(RotOp::Sll, v, f) == rot_meaning(6, v, (f & CF) as int),
        rot_numbers(RotOp::Srl, v, f) == rot_meaning(7, v, (f & CF) as int),
{
    rot_bits(v, f);
}

proof fn rot_bits(v: u8, f: u8)
    by (bit_vector)
    ensures
        (v << 1u8) | (v >> 7u8) == ((2 * v + v / 128) % 256) as u8,
        (v >> 1u8) | (v << 7u8) == (v / 2 + 128 * (v % 2)) as u8,
        (v << 1u8) | (f & CF) == ((2 * v + (f & CF)) % 256) as u8,
        f & CF <= 1,
        (v >> 1u8) | ((f & CF) << 7u8) == (v / 2 + 128 * (f & CF)) as u8,
        v << 1u8 == ((2 * v) % 256) as u8,
        (v >> 1u8) | (v & 0x80) == (v / 2 + 128 * (v / 128)) as u8,
        (v << 1u8) | 1 == ((2 * v + 1) % 256) as u8,
        v >> 7u8 == v / 128,
        v >> 1u8 == v / 2,
        v & 1 == v % 2,
{
}

/// ADD rr,rr leaves the word sum in the destination, carries out of the
/// word into CF, keeps S, Z and P/V as they were, and clears N.
pub proof fn wide_add_carries_out_of_the_word(f: u8, a: u16, b: u16)
    ensures
        add16_spec(f, a, b).0 == (a + b) % 65536,
        (add16_spec(f, a, b).1 & CF != 0) == (a + b > 65535),
        add16_spec(f, a, b).1 & (SF | ZF | PF) == f & (SF | ZF | PF),
        add16_spec(f, a, b).1 & NF == 0,
{
    wide_bits(f, a, b);
}

proof fn wide_bits(f: u8, a: u16, b: u16)
    by (bit_vector)
    ensures
        add16_spec(f, a, b).0 == ((a + b) % 65536) as u16,
        (add16_spec(f, a, b).1 & CF != 0) == (a + b > 65535),
        add16_spec(f, a, b).1 & (SF | ZF | PF) == f & (SF | ZF | PF),
        add16_spec(f, a, b).1 & NF == 0,
{
}

proof fn add_bits(a: u8, v: u8, f: u8, with_carry: bool)
    by (bit_vector)
    ensures
        ({
            let c: u8 = if with_carry { f & CF } else { 0 };
            let (r, g) = add8_spec(a, v, c);
            &&& c <= 1
            &&& r == (a + v + c) % 256
            &&& (g & CF != 0) == (a + v + c > 255)
            &&& (g & ZF != 0) == ((a + v + c) % 256 == 0)
            &&& g & NF == 0
        }),
{
}

proof fn logic_and_compare_bits(a: u8, v: u8, g: u8)
    by (bit_vector)
    ensures
        (sz53p_spec(a & v) | HF) & CF == 0,
        sz53p_spec(a ^ v) & CF == 0,
        sz53p_spec(a | v) & CF == 0,
        ((g & !(XF | YF)) | (v & (XF | YF))) & CF == g & CF,
        ((g & !(XF | YF)) | (v & (XF | YF))) & ZF == g & ZF,
{
}

proof fn sub_bits(a: u8, v: u8, f: u8, with_carry: bool)
    by (bit_vector)
    ensures
        ({
            let c: u8 = if with_carry { f & CF } else { 0 };
            let (r, g) = sub8_spec(a, v, c);
            &&& c <= 1
            &&& r == (a - v - c + 512) % 256
            &&& (g & CF != 0) == (v + c > a)
            &&& (g & ZF != 0) == ((a - v - c + 512) % 256 == 0)
            &&& g & NF != 0
        }),
{
}

/// Rotating left then right, without the carry, gives the byte back.
pub proof fn rotations_undo_each_other(v: u8)
    ensures
        rrc8(rlc8(v)) == v,
        rlc8(rrc8(v)) == v,
{
    assert(((((v << 1u8) | (v >> 7u8)) >> 1u8) | (((v << 1u8) | (v >> 7u8)) << 7u8)) == v) by (bit_vector);
    assert(((((v >> 1u8) | (v << 7u8)) << 1u8) | (((v >> 1u8) | (v << 7u8)) >> 7u8)) == v) by (bit_vector);
}

/// Rotating left through the carry, then right through the carry the first
/// left, gives the byte back.
pub proof fn rotations_through_carry_undo_each_other(v: u8, f: u8)
    ensures
        rot_spec(RotOp::Rr, rot_spec(RotOp::Rl, v, f).0, rot_spec(RotOp::Rl, v, f).1).0 == v,
{
    let c = f & 1;
    let r = (v << 1u8) | c;
    let co = v >> 7u8;
    assert(((((v << 1u8) | (f & 1)) >> 1u8) | (((v >> 7u8) & 1) << 7u8)) == v) by (bit_vector);
}

/// A packed BCD byte's value.
pub open spec fn dec(b: u8) -> int {
    (b >> 4u8) as int * 10 + (b & 0x0Fu8) as int
}

/// Whether both of a byte's nibbles are decimal digits.
pub open spec fn is_bcd(b: u8) -> bool {
    b >> 4u8 <= 9 && b & 0x0Fu8 <= 9
}

/// Adding two packed BCD bytes and adjusting gives their decimal sum: the
/// last two digits in A, the carry out of the hundreds in CF, N clear, and
/// Z set exactly when the two digits are 00.
pub proof fn add_then_daa_is_decimal(x: u8, y: u8)
    requires
        is_bcd(x),
        is_bcd(y),
    ensures
        ({
            let (r, f) = add8_spec(x, y, 0);
            let (d, g) = daa_spec(r, f);
            let n = dec(x) + dec(y);
            &&& dec(d) == n % 100
            &&& is_bcd(d)
            &&& (g & CF != 0) == (n >= 100)
            &&& g & NF == 0
            &&& (g & ZF != 0) == (d == 0)
        }),
{
    decimal_bits(x, y);
}

proof fn decimal_bits(x: u8, y: u8)
    by (bit_vector)
    requires
        x >> 4u8 <= 9 && x & 0x0Fu8 <= 9,
        y >> 4u8 <= 9 && y & 0x0Fu8 <= 9,
    ensures
        ({
            let (r, f) = add8_spec(x, y, 0);
            let (d, g) = daa_spec(r, f);
            let n = (x >> 4u8) as int * 10 + (x & 0x0Fu8) as int + (y >> 4u8) as int * 10 + (y & 0x0Fu8) as int;
            &&& (d >> 4u8) as int * 10 + (d & 0x0Fu8) as int == n % 100
            &&& d >> 4u8 <= 9 && d & 0x0Fu8 <= 9
            &&& (g & CF != 0) == (n >= 100)
            &&& g & NF == 0
            &&& (g & ZF != 0) == (d == 0)
        }),
{
}

} // verus!
