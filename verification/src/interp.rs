//! Fallback interpreter.
//!
//! Runs whatever the recompiler could not see statically: code reached only
//! through computed jumps that were never traced, self-modifying code, and
//! the recompiler's own trace pass. It uses the same decoder and ALU
//! helpers as the generated code, so the two agree instruction for
//! instruction.

use vstd::prelude::*;
use crate::alu::{
    adc16_spec, add16_spec, alu_result, bit_flags, daa_spec, rlc8, rot_spec, rrc8, sbc16_spec, sub8_spec,
};
use crate::block::{iterated, pushed};
use crate::decode::{decode, decode_spec, flow_spec, idx_reg16, repeats_spec, Addr, Cond, Decoded, Flow, Instr,
    Op8, Reg8, Reg16};
use crate::machine::{
    Zx, add16w, r_after, hi_of, lo_of, sz53_spec, sz53p_spec, CF, HF, NF, PF, SF, XF, YF, ZF,
};
use crate::trace::Trace;

verus! {

/// The instruction at `pc` in the machine's memory.
pub fn decode_at(z: &Zx, pc: u16) -> (d: Decoded)
    requires
        z.wf(),
    ensures
        d == decode_spec(z.mem@, pc),
        1 <= d.len <= 4,
        d.m1 == 1 || d.m1 == 2,
        4 <= d.t <= 23,
        d.t_extra <= 7,
{
    decode(z.mem.as_slice(), pc)
}

pub open spec fn addr_spec(z: Zx, a: Addr) -> u16 {
    match a {
        Addr::BC => z.bc_spec(),
        Addr::DE => z.de_spec(),
        Addr::HL => z.hl_spec(),
        Addr::Idx(i, d) => add16w(z.r16_spec(idx_reg16(i)), d as int),
        Addr::Abs(nn) => nn,
    }
}

pub open spec fn get8_spec(z: Zx, o: Op8) -> u8 {
    match o {
        Op8::Reg(r) => z.r8_spec(r),
        Op8::Mem(a) => z.read_spec(addr_spec(z, a)),
        Op8::Imm(n) => n,
    }
}

/// `next` is `z` after `v` was stored to operand `o`.
pub open spec fn stored8(z: Zx, next: Zx, o: Op8, v: u8) -> bool {
    match o {
        Op8::Reg(r) => next == z.with_r8(r, v),
        Op8::Mem(a) => z.wrote(next, addr_spec(z, a), v),
        Op8::Imm(_) => false,
    }
}

pub(crate) fn addr(z: &Zx, a: Addr) -> (r: u16)
    ensures
        r == addr_spec(*z, a),
{
    match a {
        Addr::BC => z.bc(),
        Addr::DE => z.de(),
        Addr::HL => z.hl(),
        Addr::Idx(i, d) => ((z.r16(i.reg16()) as i32 + d as i32 + 65536) % 65536) as u16,
        Addr::Abs(nn) => nn,
    }
}

fn get8(z: &Zx, o: Op8) -> (v: u8)
    requires
        z.wf(),
    ensures
        v == get8_spec(*z, o),
{
    match o {
        Op8::Reg(r) => z.r8(r),
        Op8::Mem(a) => z.read(addr(z, a)),
        Op8::Imm(n) => n,
    }
}

fn set8(z: &mut Zx, o: Op8, v: u8)
    requires
        old(z).wf(),
        !(o is Imm),
    ensures
        final(z).wf(),
        final(z).frame == old(z).frame,
        stored8(*old(z), *final(z), o, v),
{
    match o {
        Op8::Reg(r) => z.set_r8(r, v),
        Op8::Mem(a) => {
            let at = addr(z, a);
            z.write(at, v)
        },
        Op8::Imm(_) => {},
    }
}

/// `next` is `z` after a word was written at `addr`, low byte first.
pub open spec fn wrote16(z: Zx, next: Zx, addr: u16, v: u16) -> bool {
    exists|mid: Zx| #[trigger] z.wrote(mid, addr, lo_of(v)) && mid.wrote(next, add16w(addr, 1), hi_of(v))
}

/// What a load, store, push, pop or exchange leaves of `z`.
pub open spec fn loaded(z: Zx, z1: Zx, i: Instr) -> bool {
    match i {
        Instr::Ld8(dst, src) => stored8(z, z1, dst, get8_spec(z, src)),
        Instr::Ld16(r, nn) => z1 == z.with_r16(r, nn),
        Instr::Ld16Load(r, a) => z1 == z.with_r16(r, z.read16_spec(a)),
        Instr::Ld16Store(a, r) => wrote16(z, z1, a, z.r16_spec(r)),
        Instr::LdSp(r) => z1 == (Zx { sp: z.r16_spec(r), ..z }),
        Instr::Push(r) => pushed(z, z1, z.r16_spec(r)),
        Instr::Pop(r) => z1 == (Zx { sp: add16w(z.sp, 2), ..z }).with_r16(r, z.read16_spec(z.sp)),
        Instr::ExDeHl => z1 == (Zx { d: z.h, e: z.l, h: z.d, l: z.e, ..z }),
        Instr::ExAf => z1 == (Zx { a: z.a_, f: z.f_, a_: z.a, f_: z.f, ..z }),
        Instr::Exx => z1 == (Zx {
            b: z.b_,
            c: z.c_,
            d: z.d_,
            e: z.e_,
            h: z.h_,
            l: z.l_,
            b_: z.b,
            c_: z.c,
            d_: z.d,
            e_: z.e,
            h_: z.h,
            l_: z.l,
            ..z
        }),
        Instr::ExSp(r) => exists|mid: Zx| #[trigger] wrote16(z, mid, z.sp, z.r16_spec(r)) && z1 == mid.with_r16(
            r,
            z.read16_spec(z.sp),
        ),
        _ => z1 == z,
    }
}

/// The flags INC leaves, for a byte `v` that became `r`.
pub open spec fn inc_flags(f: u8, v: u8, r: u8) -> u8 {
    (f & CF) | sz53_spec(r) | (if v & 0x0F == 0x0F { HF } else { 0 }) | (if v == 0x7F { PF } else { 0 })
}

/// The flags DEC leaves, for a byte `v` that became `r`.
pub open spec fn dec_flags(f: u8, v: u8, r: u8) -> u8 {
    (f & CF) | NF | sz53_spec(r) | (if v & 0x0F == 0 { HF } else { 0 }) | (if v == 0x80 { PF } else { 0 })
}

/// INC and DEC step a byte by one, wrapping, and leave the carry alone: Z
/// is set exactly when the byte comes to zero, P/V exactly when it crosses
/// from 7F to 80 (INC) or from 80 to 7F (DEC), N clear for INC and set for
/// DEC; and a DEC after an INC gives the byte back.
pub proof fn inc_dec_keep_the_carry(f: u8, v: u8)
    ensures
        ({
            let up = ((v + 1) % 256) as u8;
            let down = ((v + 255) % 256) as u8;
            &&& inc_flags(f, v, up) & CF == f & CF
            &&& (inc_flags(f, v, up) & ZF != 0) == (up == 0)
            &&& (inc_flags(f, v, up) & PF != 0) == (v == 0x7F)
            &&& inc_flags(f, v, up) & NF == 0
            &&& dec_flags(f, v, down) & CF == f & CF
            &&& (dec_flags(f, v, down) & ZF != 0) == (down == 0)
            &&& (dec_flags(f, v, down) & PF != 0) == (v == 0x80)
            &&& dec_flags(f, v, down) & NF != 0
            &&& ((up + 255) % 256) as u8 == v
        }),
{
    inc_dec_bits(f, v);
}

proof fn inc_dec_bits(f: u8, v: u8)
    by (bit_vector)
    ensures
        ({
            let up = ((v + 1) % 256) as u8;
            let down = ((v + 255) % 256) as u8;
            &&& inc_flags(f, v, up) & CF == f & CF
            &&& (inc_flags(f, v, up) & ZF != 0) == (up == 0)
            &&& (inc_flags(f, v, up) & PF != 0) == (v == 0x7F)
            &&& inc_flags(f, v, up) & NF == 0
            &&& dec_flags(f, v, down) & CF == f & CF
            &&& (dec_flags(f, v, down) & ZF != 0) == (down == 0)
            &&& (dec_flags(f, v, down) & PF != 0) == (v == 0x80)
            &&& dec_flags(f, v, down) & NF != 0
            &&& ((up + 255) % 256) as u8 == v
        }),
{
}

/// `next` is `z` after `v` was stored to operand `o`, and copied to `copy`
/// too if there is one (the undocumented indexed forms).
pub open spec fn stored_copy(z: Zx, next: Zx, o: Op8, v: u8, copy: Option<Reg8>) -> bool {
    match copy {
        None => stored8(z, next, o, v),
        Some(r) => exists|mid: Zx| #[trigger] stored8(z, mid, o, v) && next == mid.with_r8(r, v),
    }
}

/// What arithmetic on a byte or a pair leaves of `z`.
pub open spec fn computed(z: Zx, z1: Zx, i: Instr) -> bool {
    match i {
        Instr::Alu(op, src) => z1 == alu_result(z, op, get8_spec(z, src)),
        Instr::Inc8(o) => {
            let v = get8_spec(z, o);
            let r = ((v + 1) % 256) as u8;
            stored8(Zx { f: inc_flags(z.f, v, r), ..z }, z1, o, r)
        },
        Instr::Dec8(o) => {
            let v = get8_spec(z, o);
            let r = ((v + 255) % 256) as u8;
            stored8(Zx { f: dec_flags(z.f, v, r), ..z }, z1, o, r)
        },
        Instr::Inc16(r) => z1 == z.with_r16(r, add16w(z.r16_spec(r), 1)),
        Instr::Dec16(r) => z1 == z.with_r16(r, add16w(z.r16_spec(r), -1)),
        Instr::Add16(dst, src) => {
            let (v, f) = add16_spec(z.f, z.r16_spec(dst), z.r16_spec(src));
            z1 == (Zx { f, ..z }).with_r16(dst, v)
        },
        Instr::Adc16(r) => z1 == z.with_r16(Reg16::HL, adc16_spec(z.f, z.hl_spec(), z.r16_spec(r)).0).with_f(
            adc16_spec(z.f, z.hl_spec(), z.r16_spec(r)).1,
        ),
        Instr::Sbc16(r) => z1 == z.with_r16(Reg16::HL, sbc16_spec(z.f, z.hl_spec(), z.r16_spec(r)).0).with_f(
            sbc16_spec(z.f, z.hl_spec(), z.r16_spec(r)).1,
        ),
        _ => bits_done(z, z1, i),
    }
}

/// The byte a BIT test takes flag bits 3 and 5 from: for the indexed form,
/// undocumented, the high byte of the address; otherwise the byte tested.
pub open spec fn bit_source(z: Zx, o: Op8) -> u8 {
    match o {
        Op8::Mem(Addr::Idx(i, d)) => (addr_spec(z, Addr::Idx(i, d)) / 256) as u8,
        _ => get8_spec(z, o),
    }
}

/// What the accumulator adjustments, rotates, shifts and bit operations
/// leave of `z`.
#[verifier::opaque]
pub open spec fn bits_done(z: Zx, z1: Zx, i: Instr) -> bool {
    match i {
        Instr::Daa => z1 == (Zx { a: daa_spec(z.a, z.f).0, f: daa_spec(z.a, z.f).1, ..z }),
        Instr::Cpl => z1 == (Zx { a: !z.a, f: (z.f & (SF | ZF | PF | CF)) | HF | NF | (!z.a & (XF | YF)), ..z }),
        Instr::Neg => z1 == (Zx { a: sub8_spec(0, z.a, 0).0, f: sub8_spec(0, z.a, 0).1, ..z }),
        Instr::Scf => z1 == (Zx { f: (z.f & (SF | ZF | PF)) | (z.a & (XF | YF)) | CF, ..z }),
        Instr::Ccf => z1 == (Zx {
            f: (z.f & (SF | ZF | PF)) | (z.a & (XF | YF)) | (if z.f & CF != 0 { HF } else { CF }),
            ..z
        }),
        Instr::Rlca => z1 == (Zx { a: rlc8(z.a), f: (z.f & (SF | ZF | PF)) | (rlc8(z.a) & (XF | YF | CF)), ..z }),
        Instr::Rrca => z1 == (Zx { a: rrc8(z.a), f: (z.f & (SF | ZF | PF)) | (rrc8(z.a) & (XF | YF)) | (z.a & 1), ..z }),
        Instr::Rla => z1 == (Zx {
            a: (z.a << 1u8) | (z.f & CF),
            f: (z.f & (SF | ZF | PF)) | (((z.a << 1u8) | (z.f & CF)) & (XF | YF)) | (z.a >> 7u8),
            ..z
        }),
        Instr::Rra => z1 == (Zx {
            a: (z.a >> 1u8) | ((z.f & CF) << 7u8),
            f: (z.f & (SF | ZF | PF)) | (((z.a >> 1u8) | ((z.f & CF) << 7u8)) & (XF | YF)) | (z.a & 1),
            ..z
        }),
        Instr::Rld => {
            let v = z.read_spec(z.hl_spec());
            let a = (z.a & 0xF0) | (v >> 4u8);
            (Zx { a, f: (z.f & CF) | sz53p_spec(a), ..z }).wrote(z1, z.hl_spec(), (v << 4u8) | (z.a & 0x0F))
        },
        Instr::Rrd => {
            let v = z.read_spec(z.hl_spec());
            let a = (z.a & 0xF0) | (v & 0x0F);
            (Zx { a, f: (z.f & CF) | sz53p_spec(a), ..z }).wrote(z1, z.hl_spec(), (z.a << 4u8) | (v >> 4u8))
        },
        Instr::Rot(op, o, copy) => {
            let (r, c) = rot_spec(op, get8_spec(z, o), z.f);
            stored_copy(Zx { f: sz53p_spec(r) | c, ..z }, z1, o, r, copy)
        },
        Instr::Bit(n, o) => z1 == (Zx { f: bit_flags(z.f, n, get8_spec(z, o), bit_source(z, o)), ..z }),
        Instr::Res(n, o, copy) => stored_copy(z, z1, o, get8_spec(z, o) & !(1u8 << n), copy),
        Instr::SetBit(n, o, copy) => stored_copy(z, z1, o, get8_spec(z, o) | (1u8 << n), copy),
        _ => z1 == z,
    }
}

/// The machine after `v` went out on `port`: the border and the EAR bit
/// when the port is the ULA's.
pub open spec fn sent(z: Zx, port: u16, v: u8) -> Zx {
    if port & 1 == 0 {
        Zx { border: v & 7, ear: v & 0x10 != 0, ..z }
    } else {
        z
    }
}

/// What port reads and writes leave of `z`.
pub open spec fn ported(z: Zx, z1: Zx, i: Instr) -> bool {
    match i {
        Instr::InA(n) => z1 == (Zx { a: z.port_in_spec((z.a as int * 256 + n) as u16), ..z }),
        Instr::InC(r) => {
            let v = z.port_in_spec(z.bc_spec());
            let flagged = Zx { f: (z.f & CF) | sz53p_spec(v), ..z };
            z1 == match r {
                None => flagged,
                Some(r) => flagged.with_r8(r, v),
            }
        },
        Instr::OutA(n) => z1 == sent(z, (z.a as int * 256 + n) as u16, z.a),
        Instr::OutC(r) => z1 == sent(z, z.bc_spec(), match r {
            None => 0,
            Some(r) => z.r8_spec(r),
        }),
        _ => z1 == z,
    }
}

/// What the interrupt mode, the I and R registers' loads leave of `z`.
pub open spec fn misc_done(z: Zx, z1: Zx, i: Instr) -> bool {
    match i {
        Instr::Im(m) => z1 == (Zx { im: m, ..z }),
        Instr::LdIA => z1 == (Zx { i: z.a, ..z }),
        Instr::LdRA => z1 == (Zx { r: z.a, ..z }),
        Instr::LdAI => z1 == (Zx { a: z.i, f: (z.f & CF) | sz53_spec(z.i) | (if z.iff2 { PF } else { 0 }), ..z }),
        Instr::LdAR => z1 == (Zx { a: z.r, f: (z.f & CF) | sz53_spec(z.r) | (if z.iff2 { PF } else { 0 }), ..z }),
        _ => true,
    }
}

/// What an instruction does to the registers, memory and ports, apart
/// from where control goes: loads and exchanges, arithmetic, rotates and
/// bit operations, port reads and writes, one iteration of a block
/// instruction, and the interrupt mode and I and R registers.
pub open spec fn worked(z: Zx, z1: Zx, i: Instr) -> bool {
    match i {
        Instr::Ld8(..) | Instr::Ld16(..) | Instr::Ld16Load(..) | Instr::Ld16Store(..) | Instr::LdSp(_) | Instr::Push(_)
        | Instr::Pop(_) | Instr::ExDeHl | Instr::ExAf | Instr::Exx | Instr::ExSp(_) => loaded(z, z1, i),
        Instr::Alu(..) | Instr::Inc8(_) | Instr::Dec8(_) | Instr::Inc16(_) | Instr::Dec16(_) | Instr::Add16(..)
        | Instr::Adc16(_) | Instr::Sbc16(_) | Instr::Daa | Instr::Cpl | Instr::Neg | Instr::Ccf | Instr::Scf
        | Instr::Rlca | Instr::Rrca | Instr::Rla | Instr::Rra | Instr::Rld | Instr::Rrd | Instr::Rot(..) | Instr::Bit(..)
        | Instr::Res(..) | Instr::SetBit(..) => computed(z, z1, i),
        Instr::InA(_) | Instr::InC(_) | Instr::OutA(_) | Instr::OutC(_) => ported(z, z1, i),
        Instr::Block(op) => exists|zi: Zx| #[trigger] iterated(z, zi, op) && z1 == (Zx { pc: z1.pc, t: z1.t, ..zi }),
        Instr::Im(_) | Instr::LdIA | Instr::LdRA | Instr::LdAI | Instr::LdAR => misc_done(z, z1, i),
        _ => true,
    }
}

/// An instruction the interpreter can run: nothing is stored to an
/// immediate, bit numbers are bits of a byte.
pub open spec fn runnable(i: Instr) -> bool {
    match i {
        Instr::Ld8(d, _) => !(d is Imm),
        Instr::Inc8(o) | Instr::Dec8(o) => !(o is Imm),
        Instr::Rot(_, o, _) => !(o is Imm),
        Instr::Bit(n, _) => n < 8,
        Instr::Res(n, o, _) | Instr::SetBit(n, o, _) => n < 8 && !(o is Imm),
        _ => true,
    }
}

/// Everything the decoder produces can be run.
pub proof fn decoded_is_runnable(mem: Seq<u8>, pc: u16)
    requires
        mem.len() > 0,
    ensures
        runnable(decode_spec(mem, pc).instr),
{
    reveal(decode_spec);
}

pub open spec fn cond_ok(z: Zx, c: Option<Cond>) -> bool {
    match c {
        None => true,
        Some(c) => z.cond_spec(c),
    }
}

/// Where control goes and how long it takes, given the machine `z` as the
/// instruction found it with PC already past it (`next`), and `z1` after.
pub open spec fn flow_after(z: Zx, z1: Zx, d: Decoded, pc: u16, next: u16) -> bool {
    match d.instr {
        Instr::Jp(c, a) => z1.pc == (if cond_ok(z, c) { a } else { next }) && z1.t == z.t,
        Instr::Jr(c, a) => if cond_ok(z, c) {
            z1.pc == a && z1.t == z.t + d.t_extra
        } else {
            z1.pc == next && z1.t == z.t
        },
        Instr::Djnz(a) => if z.b != 1 {
            z1.pc == a && z1.t == z.t + d.t_extra
        } else {
            z1.pc == next && z1.t == z.t
        },
        Instr::Call(c, a) => if cond_ok(z, c) {
            z1.pc == a && z1.t == z.t + d.t_extra && pushed(Zx { t: (z.t + d.t_extra) as u32, ..z }, Zx { pc: next, ..z1 }, next)
        } else {
            z1 == z
        },
        Instr::Ret(c) => if cond_ok(z, c) {
            z1.pc == z.read16_spec(z.sp) && z1.sp == add16w(z.sp, 2) && z1.t == z.t + d.t_extra
        } else {
            z1 == z
        },
        Instr::Reti | Instr::Retn => z1.pc == z.read16_spec(z.sp) && z1.sp == add16w(z.sp, 2) && z1.iff1 == z.iff2
            && z1.t == z.t,
        Instr::Rst(n) => z1.pc == n as u16 && z1.t == z.t && pushed(z, Zx { pc: next, ..z1 }, next),
        Instr::JpInd(r) => z1 == (Zx { pc: z.r16_spec(r), ..z }),
        Instr::Halt => z1 == (Zx { halted: true, pc, ..z }),
        Instr::Block(op) => z1.t == z.t + (if z1.pc == pc && repeats_spec(op) { d.t_extra as int } else { 0 })
            && (z1.pc == next || (repeats_spec(op) && z1.pc == pc)),
        _ => z1.pc == next && z1.t == z.t,
    }
}

/// `z1` is what running the instruction at `z0.pc` leaves, the trace
/// having recorded it as `tr`: control flow and timing as [`flow_after`]
/// has them from the machine with PC past the instruction, its T-states
/// counted and R advanced; what loads, arithmetic, rotates and bit
/// operations do as [`worked`] has it; `EI`, `DI` and `NOP` exactly.
pub open spec fn stepped(z0: Zx, z1: Zx, tr: Option<Trace>) -> bool {
    let d = decode_spec(z0.mem@, z0.pc);
    let next = add16w(z0.pc, d.len as int);
    let before = Zx { pc: next, t: (z0.t + d.t) as u32, r: r_after(z0.r, d.m1), trace: tr, ..z0 };
    &&& (z0.trace is None <==> tr is None)
    &&& flow_after(before, z1, d, z0.pc, next)
    &&& worked(before, z1, d.instr)
    &&& d.instr == Instr::Ei ==> z1 == (Zx { iff1: true, iff2: true, ei_delay: true, ..before })
    &&& d.instr == Instr::Di ==> z1 == (Zx { iff1: false, iff2: false, ..before })
    &&& d.instr == Instr::Nop ==> z1 == before
}

/// The trace as the instruction at `pc` leaves it when recorded: none
/// stays none, and a trace records the execution.
pub open spec fn exec_traced(o: Option<Trace>, n: Option<Trace>, pc: u16, mem: Seq<u8>, len: u8) -> bool {
    match o {
        Some(a) => n matches Some(b) && crate::trace::exec_recorded(a, b, pc, mem, len),
        None => n is None,
    }
}

/// The most T-states an instruction's step and taken branch add.
pub const STEP_T_MAX: u32 = 64;

/// Executes one instruction at `z.pc`.
#[verifier::rlimit(40)]
pub fn step(z: &mut Zx)
    requires
        old(z).wf(),
        old(z).t as int + STEP_T_MAX <= u32::MAX,
    ensures
        final(z).wf(),
        final(z).frame == old(z).frame,
        exists|tr: Option<Trace>| #[trigger] stepped(*old(z), *final(z), tr),
        exists|tr: Option<Trace>|
            #[trigger] stepped(*old(z), *final(z), tr) && exec_traced(
                old(z).trace,
                tr,
                old(z).pc,
                old(z).mem@,
                decode_spec(old(z).mem@, old(z).pc).len,
            ),
        old(z).t + 4 <= final(z).t <= old(z).t + 30,
{
    let pc = z.pc;
    let d = decode_at(z, pc);
    proof {
        decoded_is_runnable(old(z).mem@, pc);
    }
    let next = ((pc as u32 + d.len as u32) % 65536) as u16;
    assert(next != pc);
    match &mut z.trace {
        Some(trace) => trace.on_exec(pc, z.mem.as_slice(), d.len),
        None => {},
    }
    let ghost tr = z.trace;
    z.pc = next;
    z.step(d.t, d.m1);
    execute(z, &d, pc, next);
    assert(stepped(*old(z), *z, tr));
}

/// Loads, stores, pushes, pops and exchanges: PC and the clock stay.
fn execute_load(z: &mut Zx, d: &Decoded, pc: u16, next: u16)
    requires
        old(z).wf(),
        runnable(d.instr),
    ensures
        final(z).wf(),
        final(z).frame == old(z).frame,
        final(z).pc == old(z).pc && final(z).t == old(z).t,
        loaded(*old(z), *final(z), d.instr),
{
    match d.instr {
        Instr::Ld8(dst, src) => {
            let v = get8(z, src);
            set8(z, dst, v);
            assert(stored8(*old(z), *z, dst, get8_spec(*old(z), src)));
            assert(loaded(*old(z), *z, Instr::Ld8(dst, src)));
        },
        Instr::Ld16(r, nn) => z.set_r16(r, nn),
        Instr::Ld16Load(r, a) => {
            let v = z.read16(a);
            z.set_r16(r, v);
        },
        Instr::Ld16Store(a, r) => {
            let v = z.r16(r);
            z.write16(a, v);
        },
        Instr::LdSp(r) => z.sp = z.r16(r),
        Instr::Push(r) => {
            let v = z.r16(r);
            z.push(v);
        },
        Instr::Pop(r) => {
            let v = z.pop();
            z.set_r16(r, v);
        },
        Instr::ExDeHl => z.ex_de_hl(),
        Instr::ExAf => z.ex_af(),
        Instr::Exx => z.exx(),
        Instr::ExSp(r) => {
            let v = z.read16(z.sp);
            let w = z.r16(r);
            let sp = z.sp;
            z.write16(sp, w);
            let ghost written = *z;
            assert(wrote16(*old(z), written, sp, w));
            z.set_r16(r, v);
            assert(wrote16(*old(z), written, old(z).sp, old(z).r16_spec(r)) && *z == written.with_r16(r, v));
        },
        _ => {},
    }
}

/// INC and DEC of a byte: PC and the clock stay.
fn execute_step8(z: &mut Zx, d: &Decoded)
    requires
        old(z).wf(),
        runnable(d.instr),
        d.instr is Inc8 || d.instr is Dec8,
    ensures
        final(z).wf(),
        final(z).frame == old(z).frame,
        final(z).pc == old(z).pc && final(z).t == old(z).t,
        computed(*old(z), *final(z), d.instr),
{
    match d.instr {
        Instr::Inc8(o) => {
            let v0 = get8(z, o);
            let v = z.inc8(v0);
            set8(z, o, v);
        },
        Instr::Dec8(o) => {
            let v0 = get8(z, o);
            let v = z.dec8(v0);
            set8(z, o, v);
        },
        _ => {},
    }
}

/// INC and DEC of a register pair.
fn step16(z: &mut Zx, r: Reg16, up: bool)
    ensures
        *final(z) == old(z).with_r16(r, add16w(old(z).r16_spec(r), if up { 1 } else { -1 })),
{
    let v = if up { ((z.r16(r) as u32 + 1) % 65536) as u16 } else { ((z.r16(r) as u32 + 65535) % 65536) as u16 };
    z.set_r16(r, v);
}

/// ADD of two register pairs.
fn add_pairs(z: &mut Zx, dst: Reg16, src: Reg16)
    ensures
        *final(z) == (Zx { f: add16_spec(old(z).f, old(z).r16_spec(dst), old(z).r16_spec(src)).1, ..*old(z) }).with_r16(
            dst,
            add16_spec(old(z).f, old(z).r16_spec(dst), old(z).r16_spec(src)).0,
        ),
{
    let a = z.r16(dst);
    let b = z.r16(src);
    let v = z.add16(a, b);
    z.set_r16(dst, v);
}

/// Arithmetic on register pairs: PC and the clock stay.
fn execute_pairs(z: &mut Zx, d: &Decoded)
    requires
        old(z).wf(),
        d.instr is Inc16 || d.instr is Dec16 || d.instr is Add16 || d.instr is Adc16 || d.instr is Sbc16,
    ensures
        final(z).wf(),
        final(z).frame == old(z).frame,
        final(z).pc == old(z).pc && final(z).t == old(z).t,
        computed(*old(z), *final(z), d.instr),
{
    match d.instr {
        Instr::Inc16(r) => step16(z, r, true),
        Instr::Dec16(r) => step16(z, r, false),
        Instr::Add16(dst, src) => add_pairs(z, dst, src),
        Instr::Adc16(r) => {
            let v = z.r16(r);
            z.adc_hl(v);
        },
        Instr::Sbc16(r) => {
            let v = z.r16(r);
            z.sbc_hl(v);
        },
        _ => {},
    }
}

/// Arithmetic on bytes and pairs: PC and the clock stay.
#[verifier::rlimit(80)]
fn execute_alu(z: &mut Zx, d: &Decoded, pc: u16, next: u16)
    requires
        old(z).wf(),
        runnable(d.instr),
    ensures
        final(z).wf(),
        final(z).frame == old(z).frame,
        final(z).pc == old(z).pc && final(z).t == old(z).t,
        computed(*old(z), *final(z), d.instr),
{
    match d.instr {
        Instr::Alu(op, src) => {
            let v = get8(z, src);
            z.alu(op, v);
        },
        Instr::Inc8(_) | Instr::Dec8(_) => execute_step8(z, d),
        Instr::Inc16(_) | Instr::Dec16(_) | Instr::Add16(..) | Instr::Adc16(_) | Instr::Sbc16(_) => execute_pairs(z, d),
        _ => execute_bits(z, d),
    }
}

/// Accumulator adjustments, rotates, shifts and bit operations: PC and the
/// clock stay.
#[verifier::rlimit(40)]
fn execute_bits(z: &mut Zx, d: &Decoded)
    requires
        old(z).wf(),
        runnable(d.instr),
    ensures
        final(z).wf(),
        final(z).frame == old(z).frame,
        final(z).pc == old(z).pc && final(z).t == old(z).t,
        bits_done(*old(z), *final(z), d.instr),
{
    reveal(bits_done);
    match d.instr {
        Instr::Daa => z.daa(),
        Instr::Cpl => z.cpl(),
        Instr::Neg => z.neg(),
        Instr::Ccf => z.ccf(),
        Instr::Scf => z.scf(),
        Instr::Rlca => z.rlca(),
        Instr::Rrca => z.rrca(),
        Instr::Rla => z.rla(),
        Instr::Rra => z.rra(),
        Instr::Rld => z.rld(),
        Instr::Rrd => z.rrd(),
        Instr::Rot(op, o, copy) => {
            let v0 = get8(z, o);
            let v = z.rot(op, v0);
            set8(z, o, v);
            if let Some(r) = copy {
                z.set_r8(r, v);
            }
        },
        Instr::Bit(n, o) => {
            let v = get8(z, o);
            // Undocumented: for the indexed form, flag bits 3 and 5 come
            // from the high byte of the address rather than the byte read.
            let undocumented = match o {
                Op8::Mem(a) => match a {
                    Addr::Idx(_, _) => (addr(z, a) / 256) as u8,
                    _ => v,
                },
                _ => v,
            };
            z.bit(n, v, undocumented);
        },
        Instr::Res(n, o, copy) => {
            let v0 = get8(z, o);
            let v = v0 & !(1u8 << n);
            set8(z, o, v);
            if let Some(r) = copy {
                z.set_r8(r, v);
            }
        },
        Instr::SetBit(n, o, copy) => {
            let v0 = get8(z, o);
            let v = v0 | (1u8 << n);
            set8(z, o, v);
            if let Some(r) = copy {
                z.set_r8(r, v);
            }
        },
        _ => {},
    }
}

/// Jumps, calls and returns.
#[verifier::rlimit(40)]
fn execute_flow(z: &mut Zx, d: &Decoded, pc: u16, next: u16)
    requires
        d.instr is Jp || d.instr is JpInd || d.instr is Jr || d.instr is Djnz || d.instr is Call || d.instr is Ret
            || d.instr is Reti || d.instr is Retn || d.instr is Rst,
        old(z).wf(),
        old(z).pc == next,
        old(z).t as int + 40 <= u32::MAX,
        d.t_extra <= 7,
    ensures
        final(z).wf(),
        final(z).frame == old(z).frame,
        flow_after(*old(z), *final(z), *d, pc, next),
{
    match d.instr {
        Instr::Jp(c, a) => {
            let go = match c {
                None => true,
                Some(c) => z.cond(c),
            };
            if go {
                z.pc = a;
            }
        },
        Instr::JpInd(r) => z.pc = z.r16(r),
        Instr::Jr(c, a) => {
            let go = match c {
                None => true,
                Some(c) => z.cond(c),
            };
            if go {
                z.t = z.t + d.t_extra as u32;
                z.pc = a;
            }
        },
        Instr::Djnz(a) => {
            z.b = ((z.b as u16 + 255) % 256) as u8;
            if z.b != 0 {
                z.t = z.t + d.t_extra as u32;
                z.pc = a;
            }
        },
        Instr::Call(c, a) => {
            let go = match c {
                None => true,
                Some(c) => z.cond(c),
            };
            if go {
                z.t = z.t + d.t_extra as u32;
                z.push(next);
                z.pc = a;
            }
        },
        Instr::Ret(c) => {
            let go = match c {
                None => true,
                Some(c) => z.cond(c),
            };
            if go {
                z.t = z.t + d.t_extra as u32;
                z.pc = z.pop();
            }
        },
        Instr::Reti | Instr::Retn => {
            z.iff1 = z.iff2;
            z.pc = z.pop();
        },
        Instr::Rst(n) => {
            z.push(next);
            z.pc = n as u16;
        },
        _ => {},
    }
}

/// Port reads and writes: PC and the clock stay.
fn execute_io(z: &mut Zx, d: &Decoded)
    requires
        old(z).wf(),
    ensures
        final(z).wf(),
        final(z).frame == old(z).frame,
        final(z).pc == old(z).pc && final(z).t == old(z).t,
        ported(*old(z), *final(z), d.instr),
{
    match d.instr {
        Instr::InA(n) => {
            let port = (z.a as u16) * 256 + n as u16;
            z.a = z.port_in(port);
        },
        Instr::InC(r) => {
            let v = z.port_in(z.bc());
            z.in_flags(v);
            if let Some(r) = r {
                z.set_r8(r, v);
            }
        },
        Instr::OutA(n) => {
            let port = (z.a as u16) * 256 + n as u16;
            let a = z.a;
            z.port_out(port, a);
        },
        Instr::OutC(r) => {
            let v = match r {
                None => 0,
                Some(r) => z.r8(r),
            };
            let bc = z.bc();
            z.port_out(bc, v);
        },
        _ => {},
    }
}

/// One iteration of a block instruction, seen from the control flow: PC
/// and the clock stay.
fn block_iteration(z: &mut Zx, op: crate::decode::BlockOp) -> (more: bool)
    requires
        old(z).wf(),
    ensures
        final(z).wf(),
        final(z).frame == old(z).frame,
        final(z).pc == old(z).pc && final(z).t == old(z).t,
        iterated(*old(z), *final(z), op),
{
    z.block(op)
}

/// A block instruction: one iteration, and back to its start while the
/// repeating form goes round.
fn execute_block(z: &mut Zx, d: &Decoded, pc: u16, next: u16)
    requires
        old(z).wf(),
        old(z).pc == next,
        old(z).t as int + 40 <= u32::MAX,
        d.instr is Block,
        d.t_extra <= 7,
        next != pc,
    ensures
        final(z).wf(),
        final(z).frame == old(z).frame,
        flow_after(*old(z), *final(z), *d, pc, next),
        worked(*old(z), *final(z), d.instr),
{
    match d.instr {
        Instr::Block(op) => {
            let more = block_iteration(z, op);
            let ghost zi = *z;
            if more && op.repeats() {
                z.t = z.t + d.t_extra as u32;
                z.pc = pc;
            }
            assert(iterated(*old(z), zi, op) && *z == (Zx { pc: z.pc, t: z.t, ..zi }));
        },
        _ => {},
    }
}

/// The rest: HALT, the interrupt controls, ports, block instructions and
/// the I and R registers.
#[verifier::rlimit(40)]
fn execute_misc(z: &mut Zx, d: &Decoded, pc: u16, next: u16)
    requires
        !(d.instr is InA || d.instr is InC || d.instr is OutA || d.instr is OutC || d.instr is Block),
        !(d.instr is Jp || d.instr is JpInd || d.instr is Jr || d.instr is Djnz || d.instr is Call || d.instr is Ret
            || d.instr is Reti || d.instr is Retn || d.instr is Rst),
        old(z).wf(),
        old(z).pc == next,
        old(z).t as int + 40 <= u32::MAX,
        d.t_extra <= 7,
    ensures
        final(z).wf(),
        final(z).frame == old(z).frame,
        flow_after(*old(z), *final(z), *d, pc, next),
        d.instr == Instr::Ei ==> *final(z) == (Zx { iff1: true, iff2: true, ei_delay: true, ..*old(z) }),
        d.instr == Instr::Di ==> *final(z) == (Zx { iff1: false, iff2: false, ..*old(z) }),
        d.instr == Instr::Nop ==> *final(z) == *old(z),
        misc_done(*old(z), *final(z), d.instr),
{
    match d.instr {
        Instr::Nop => {},
        // The processor holds PC on the HALT and keeps re-fetching it;
        // accepting an interrupt is what steps past it.
        Instr::Halt => {
            z.halted = true;
            z.pc = pc;
        },
        Instr::Di => z.di(),
        Instr::Ei => {
            z.ei();
            z.ei_delay = true;
        },
        Instr::Im(m) => z.im = m,
        Instr::LdIA => z.i = z.a,
        Instr::LdRA => z.r = z.a,
        Instr::LdAI => z.ld_a_i(),
        Instr::LdAR => z.ld_a_r(),

        _ => {},
    }
}

fn execute(z: &mut Zx, d: &Decoded, pc: u16, next: u16)
    requires
        next != pc,
        old(z).wf(),
        old(z).pc == next,
        old(z).t as int + 40 <= u32::MAX,
        runnable(d.instr),
        d.t_extra <= 7,
    ensures
        final(z).wf(),
        final(z).frame == old(z).frame,
        flow_after(*old(z), *final(z), *d, pc, next),
        worked(*old(z), *final(z), d.instr),
        d.instr == Instr::Ei ==> *final(z) == (Zx { iff1: true, iff2: true, ei_delay: true, ..*old(z) }),
        d.instr == Instr::Di ==> *final(z) == (Zx { iff1: false, iff2: false, ..*old(z) }),
        d.instr == Instr::Nop ==> *final(z) == *old(z),
{
    match d.instr {
        Instr::Ld8(..) | Instr::Ld16(..) | Instr::Ld16Load(..) | Instr::Ld16Store(..) | Instr::LdSp(_)
        | Instr::Push(_) | Instr::Pop(_) | Instr::ExDeHl | Instr::ExAf | Instr::Exx | Instr::ExSp(_) => {
            execute_load(z, d, pc, next)
        },
        Instr::Alu(..) | Instr::Inc8(_) | Instr::Dec8(_) | Instr::Inc16(_) | Instr::Dec16(_) | Instr::Add16(..)
        | Instr::Adc16(_) | Instr::Sbc16(_) | Instr::Daa | Instr::Cpl | Instr::Neg | Instr::Ccf | Instr::Scf
        | Instr::Rlca | Instr::Rrca | Instr::Rla | Instr::Rra | Instr::Rld | Instr::Rrd | Instr::Rot(..)
        | Instr::Bit(..) | Instr::Res(..) | Instr::SetBit(..) => execute_alu(z, d, pc, next),
        Instr::Jp(..) | Instr::JpInd(_) | Instr::Jr(..) | Instr::Djnz(_) | Instr::Call(..) | Instr::Ret(_)
        | Instr::Reti | Instr::Retn | Instr::Rst(_) => execute_flow(z, d, pc, next),
        Instr::InA(_) | Instr::InC(_) | Instr::OutA(_) | Instr::OutC(_) => execute_io(z, d),
        Instr::Block(_) => execute_block(z, d, pc, next),
        _ => execute_misc(z, d, pc, next),
    }
}

} // verus!
