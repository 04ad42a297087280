//! When each instruction touches the bus, and what the ULA charges for it.
//!
//! The interpreter runs an instruction all at once and then charges its
//! T-states. That is fine until the ULA is involved: while it draws the
//! picture it stops the processor from reaching the bottom 16K of RAM, so
//! what an instruction costs depends on where it lives and when it runs.
//!
//! So the timing is kept apart from the execution: [`cycles`] says which
//! addresses an instruction puts on the bus, in what order, and for how long
//! each. What each of those costs is [`crate::bus`], which the game's sound
//! models charge through as well, so the two cannot disagree.

use vstd::prelude::*;
use crate::bus::{idle_after, Cycle, Cycles, Kind, CYCLES_MAX};
use crate::decode::{
    Addr, BlockOp, Cond, Decoded, Idx, Instr, Op8, cb_spec, decode_spec, ed_spec, fetch, idx_cb_spec, main_spec,
    repeats_spec, step_op_spec,
};
use crate::interp::{addr, addr_spec, stepped};
use crate::trace::Trace;
use crate::machine::{add16w, pair, r_after, Zx};

verus! {

pub open spec fn rd(at: u16) -> Cycle {
    Cycle { at, len: 3, kind: Kind::Read }
}

pub open spec fn wr(at: u16) -> Cycle {
    Cycle { at, len: 3, kind: Kind::Write }
}

/// `n` one-T-state cycles with `at` on the address bus.
pub open spec fn idles(at: u16, n: nat) -> Seq<Cycle> {
    Seq::new(n, |i: int| Cycle { at, len: 1, kind: Kind::Idle })
}

/// The address the refresh cycle leaves on the bus, which idle cycles sit
/// on. R has already counted the opcode fetches by then.
pub open spec fn ir_spec(z: Zx, m1: u8) -> u16 {
    pair(z.i, r_after(z.r, m1))
}

/// Where an operand is in memory, if it is.
pub open spec fn mem_of_spec(z: Zx, o: Op8) -> Option<u16> {
    match o {
        Op8::Mem(a) => Some(addr_spec(z, a)),
        _ => None,
    }
}

pub open spec fn read_of(a: Option<u16>) -> Seq<Cycle> {
    match a {
        Some(a) => seq![rd(a)],
        None => seq![],
    }
}

pub open spec fn write_of(a: Option<u16>) -> Seq<Cycle> {
    match a {
        Some(a) => seq![wr(a)],
        None => seq![],
    }
}

pub open spec fn indexed(o: Op8) -> bool {
    o matches Op8::Mem(Addr::Idx(_, _))
}

pub open spec fn is_abs(o: Op8) -> bool {
    o matches Op8::Mem(Addr::Abs(_))
}

/// The opcode fetches: all of four T-states but DJNZ's first, which is 5.
pub open spec fn fetches(pc: u16, m1: u8, first: u32) -> Seq<Cycle> {
    Seq::new(m1 as nat, |i: int| Cycle { at: add16w(pc, i), len: if i == 0 { first } else { 4 }, kind: Kind::Read })
}

/// A DD/FD instruction reads its displacement and then takes five cycles to
/// add it. A CB-prefixed one has already had both fetches, so the
/// displacement and the opcode come next as ordinary reads, and the add
/// takes two.
pub open spec fn displacement(ops: u16, cb_indexed: bool) -> Seq<Cycle> {
    if cb_indexed {
        seq![rd(ops), rd(add16w(ops, 1))] + idles(add16w(ops, 1), 2)
    } else {
        seq![rd(ops)] + idles(ops, 5)
    }
}

/// The cycles of an 8-bit load after its fetches.
pub open spec fn load8_cycles(z: Zx, dst: Op8, src: Op8, ops: u16) -> Seq<Cycle> {
    let pre = if indexed(dst) || indexed(src) {
        seq![rd(ops)] + if src is Imm {
            seq![rd(add16w(ops, 1))] + idles(add16w(ops, 1), 2)
        } else {
            idles(ops, 5)
        }
    } else if src is Imm {
        seq![rd(ops)]
    } else if is_abs(dst) || is_abs(src) {
        seq![rd(ops), rd(add16w(ops, 1))]
    } else {
        seq![]
    };
    pre + read_of(mem_of_spec(z, src)) + write_of(mem_of_spec(z, dst))
}

/// The cycles of an operation on an operand after the fetches: reading it,
/// and for a read-modify-write, the pause and the write back.
pub open spec fn operand_cycles(z: Zx, o: Op8, ops: u16, cbx: bool, imm_read: bool, tail: nat, write: bool) -> Seq<
    Cycle,
> {
    let pre = if indexed(o) {
        displacement(ops, cbx)
    } else if imm_read && o is Imm {
        seq![rd(ops)]
    } else {
        seq![]
    };
    pre + match mem_of_spec(z, o) {
        Some(a) => seq![rd(a)] + idles(a, tail) + if write { seq![wr(a)] } else { seq![] },
        None => seq![],
    }
}

pub open spec fn cond_taken(z: Zx, c: Option<Cond>) -> bool {
    match c {
        None => true,
        Some(c) => z.cond_spec(c),
    }
}

pub open spec fn port(at: u16, kind: Kind) -> Cycle {
    Cycle { at, len: 4, kind }
}

/// The cycles of a block instruction after its fetches.
pub open spec fn block_cycles(z: Zx, op: BlockOp, m1: u8) -> Seq<Cycle> {
    let (hl, de, bc) = (z.hl_spec(), z.de_spec(), z.bc_spec());
    let again = crate::decode::repeats_spec(op);
    match crate::decode::step_op_spec(op) {
        BlockOp::Ldi | BlockOp::Ldd => seq![rd(hl), wr(de)] + idles(de, 2) + if again && add16w(bc, -1) != 0 {
            idles(de, 5)
        } else {
            seq![]
        },
        BlockOp::Cpi | BlockOp::Cpd => seq![rd(hl)] + idles(hl, 5) + if again && add16w(bc, -1) != 0 && z.a
            != z.read_spec(hl) {
            idles(hl, 5)
        } else {
            seq![]
        },
        BlockOp::Ini | BlockOp::Ind => idles(ir_spec(z, m1), 1) + seq![port(bc, Kind::PortRead), wr(hl)] + if again
            && (z.b + 255) % 256 != 0 {
            idles(hl, 5)
        } else {
            seq![]
        },
        _ => {
            let bc1 = pair(((z.b + 255) % 256) as u8, z.c);
            idles(ir_spec(z, m1), 1) + seq![rd(hl), port(bc1, Kind::PortWrite)] + if again && (z.b + 255) % 256
                != 0 {
                idles(bc1, 5)
            } else {
                seq![]
            }
        },
    }
}

/// The cycles of the instruction `d` at `pc` after its opcode fetches.
pub open spec fn body_cycles(z: Zx, d: Decoded, pc: u16) -> Seq<Cycle> {
    let ops = add16w(pc, d.m1 as int);
    let cbx = d.m1 == 2 && d.len == 4;
    let ir = ir_spec(z, d.m1);
    match d.instr {
        Instr::LdIA | Instr::LdRA | Instr::LdAI | Instr::LdAR => idles(ir, 1),
        Instr::Ld8(dst, src) => load8_cycles(z, dst, src, ops),
        Instr::Alu(_, o) => operand_cycles(z, o, ops, cbx, true, 0, false),
        Instr::Bit(_, o) => operand_cycles(z, o, ops, cbx, true, 1, false),
        Instr::Inc8(o) | Instr::Dec8(o) | Instr::Rot(_, o, _) | Instr::Res(_, o, _) | Instr::SetBit(_, o, _) => {
            operand_cycles(z, o, ops, cbx, false, 1, true)
        },
        Instr::Rld | Instr::Rrd => seq![rd(z.hl_spec())] + idles(z.hl_spec(), 4) + seq![wr(z.hl_spec())],
        Instr::Ld16(_, _) => seq![rd(ops), rd(add16w(ops, 1))],
        Instr::Ld16Load(_, nn) => seq![rd(ops), rd(add16w(ops, 1)), rd(nn), rd(add16w(nn, 1))],
        Instr::Ld16Store(nn, _) => seq![rd(ops), rd(add16w(ops, 1)), wr(nn), wr(add16w(nn, 1))],
        Instr::Push(_) | Instr::Rst(_) => idles(ir, 1) + seq![wr(add16w(z.sp, -1)), wr(add16w(z.sp, -2))],
        Instr::ExSp(_) => seq![rd(z.sp), rd(add16w(z.sp, 1))] + idles(add16w(z.sp, 1), 1) + seq![
            wr(add16w(z.sp, 1)),
            wr(z.sp),
        ] + idles(z.sp, 2),
        Instr::LdSp(_) | Instr::Inc16(_) | Instr::Dec16(_) => idles(ir, 2),
        Instr::Add16(_, _) | Instr::Adc16(_) | Instr::Sbc16(_) => idles(ir, 7),
        Instr::Jp(_, _) => seq![rd(ops), rd(add16w(ops, 1))],
        Instr::Call(c, _) => seq![rd(ops), rd(add16w(ops, 1))] + if cond_taken(z, c) {
            idles(add16w(ops, 1), 1) + seq![wr(add16w(z.sp, -1)), wr(add16w(z.sp, -2))]
        } else {
            seq![]
        },
        Instr::Jr(c, _) => seq![rd(ops)] + if cond_taken(z, c) { idles(ops, 5) } else { seq![] },
        Instr::Djnz(_) => seq![rd(ops)] + if (z.b + 255) % 256 != 0 { idles(ops, 5) } else { seq![] },
        Instr::Pop(_) | Instr::Ret(None) | Instr::Reti | Instr::Retn => seq![rd(z.sp), rd(add16w(z.sp, 1))],
        Instr::Ret(Some(c)) => idles(ir, 1) + if z.cond_spec(c) {
            seq![rd(z.sp), rd(add16w(z.sp, 1))]
        } else {
            seq![]
        },
        Instr::InA(n) => seq![rd(ops), port(pair(z.a, n), Kind::PortRead)],
        Instr::OutA(n) => seq![rd(ops), port(pair(z.a, n), Kind::PortWrite)],
        Instr::InC(_) => seq![port(z.bc_spec(), Kind::PortRead)],
        Instr::OutC(_) => seq![port(z.bc_spec(), Kind::PortWrite)],
        Instr::Block(op) => block_cycles(z, op, d.m1),
        _ => seq![],
    }
}

/// The machine cycles of the instruction `d` at `pc`, in order, worked out
/// from the state before it runs.
pub open spec fn cycles_spec(z: Zx, d: Decoded, pc: u16) -> Seq<Cycle> {
    fetches(pc, d.m1, if d.instr is Djnz { 5 } else { 4 }) + body_cycles(z, d, pc)
}

proof fn idle_after_fits(s: Seq<Cycle>, at: u16, n: nat)
    requires
        s.len() + n <= CYCLES_MAX,
    ensures
        idle_after(s, at, n) == s + idles(at, n),
    decreases n,
{
    if n > 0 {
        idle_after_fits(s, at, (n - 1) as nat);
        assert(s + idles(at, n) =~= (s + idles(at, (n - 1) as nat)).push(Cycle { at, len: 1, kind: Kind::Idle }));
    } else {
        assert(s + idles(at, 0) =~= s);
    }
}

fn wrap_add(a: u16, b: u16) -> (r: u16)
    ensures
        r == add16w(a, b as int),
{
    ((a as u32 + b as u32) % 65536) as u16
}

fn wrap_sub(a: u16, b: u16) -> (r: u16)
    ensures
        r == add16w(a, -(b as int)),
{
    ((a as u32 + 65536 - b as u32) % 65536) as u16
}

/// Appends a cycle the caller knows there is room for.
fn put(out: &mut Cycles, c: Cycle)
    requires
        old(out).wf(),
        old(out)@.len() < CYCLES_MAX,
    ensures
        final(out).wf(),
        final(out)@ == old(out)@.push(c),
{
    out.push(c);
}

/// Appends `n` idle cycles the caller knows there is room for.
fn idle(out: &mut Cycles, at: u16, n: u32)
    requires
        old(out).wf(),
        old(out)@.len() + n <= CYCLES_MAX,
    ensures
        final(out).wf(),
        final(out)@ == old(out)@ + idles(at, n as nat),
{
    proof {
        idle_after_fits(old(out)@, at, n as nat);
    }
    out.idle(at, n);
}

fn read(out: &mut Cycles, at: u16)
    requires
        old(out).wf(),
        old(out)@.len() < CYCLES_MAX,
    ensures
        final(out).wf(),
        final(out)@ == old(out)@.push(rd(at)),
{
    put(out, Cycle::read(at));
}

fn write(out: &mut Cycles, at: u16)
    requires
        old(out).wf(),
        old(out)@.len() < CYCLES_MAX,
    ensures
        final(out).wf(),
        final(out)@ == old(out)@.push(wr(at)),
{
    put(out, Cycle::write(at));
}

impl Zx {
    /// The address the refresh cycle leaves on the bus.
    fn ir(&self, m1: u8) -> (a: u16)
        ensures
            a == ir_spec(*self, m1),
    {
        let r = (self.r & 0x80) | ((((self.r as u16 + m1 as u16) % 256) as u8) & 0x7F);
        self.i as u16 * 256 + r as u16
    }
}

fn mem_of(z: &Zx, o: Op8) -> (a: Option<u16>)
    ensures
        a == mem_of_spec(*z, o),
{
    match o {
        Op8::Mem(a) => Some(addr(z, a)),
        _ => None,
    }
}

fn displace(out: &mut Cycles, ops: u16, cbx: bool)
    requires
        old(out).wf(),
        old(out)@.len() + 6 <= CYCLES_MAX,
    ensures
        final(out).wf(),
        final(out)@ == old(out)@ + displacement(ops, cbx),
{
    read(out, ops);
    if cbx {
        let next = wrap_add(ops, 1);
        read(out, next);
        idle(out, next, 2);
    } else {
        idle(out, ops, 5);
    }
    assert(final(out)@ =~= old(out)@ + displacement(ops, cbx));
}

fn load8(out: &mut Cycles, z: &Zx, dst: Op8, src: Op8, ops: u16)
    requires
        old(out).wf(),
        old(out)@.len() + 8 <= CYCLES_MAX,
    ensures
        final(out).wf(),
        final(out)@ == old(out)@ + load8_cycles(*z, dst, src, ops),
{
    let is_idx = |o: Op8| -> (b: bool)
        ensures
            b == indexed(o),
        { matches!(o, Op8::Mem(Addr::Idx(_, _))) };
    let is_imm = match src {
        Op8::Imm(_) => true,
        _ => false,
    };
    let abs = match dst {
        Op8::Mem(Addr::Abs(_)) => true,
        _ => false,
    } || match src {
        Op8::Mem(Addr::Abs(_)) => true,
        _ => false,
    };
    if is_idx(dst) || is_idx(src) {
        read(out, ops);
        if is_imm {
            let next = wrap_add(ops, 1);
            read(out, next);
            idle(out, next, 2);
        } else {
            idle(out, ops, 5);
        }
    } else if is_imm {
        read(out, ops);
    } else if abs {
        read(out, ops);
        read(out, wrap_add(ops, 1));
    }
    let ghost pre = out@;
    match mem_of(z, src) {
        Some(a) => read(out, a),
        None => {},
    }
    match mem_of(z, dst) {
        Some(a) => write(out, a),
        None => {},
    }
    assert(final(out)@ =~= old(out)@ + load8_cycles(*z, dst, src, ops));
}

fn operand(out: &mut Cycles, z: &Zx, o: Op8, ops: u16, cbx: bool, imm_read: bool, tail: u32, write_back: bool)
    requires
        old(out).wf(),
        old(out)@.len() + 8 + tail <= CYCLES_MAX,
    ensures
        final(out).wf(),
        final(out)@ == old(out)@ + operand_cycles(*z, o, ops, cbx, imm_read, tail as nat, write_back),
{
    let is_idx = match o {
        Op8::Mem(Addr::Idx(_, _)) => true,
        _ => false,
    };
    let is_imm = match o {
        Op8::Imm(_) => true,
        _ => false,
    };
    if is_idx {
        displace(out, ops, cbx);
    } else if imm_read && is_imm {
        read(out, ops);
    }
    let ghost pre = out@;
    match mem_of(z, o) {
        Some(a) => {
            read(out, a);
            idle(out, a, tail);
            if write_back {
                write(out, a);
            }
        },
        None => {},
    }
    assert(final(out)@ =~= old(out)@ + operand_cycles(*z, o, ops, cbx, imm_read, tail as nat, write_back));
}

fn block(out: &mut Cycles, z: &Zx, op: BlockOp, m1: u8)
    requires
        z.wf(),
        old(out).wf(),
        old(out)@.len() + 12 <= CYCLES_MAX,
    ensures
        final(out).wf(),
        final(out)@ == old(out)@ + block_cycles(*z, op, m1),
{
    let hl = z.hl();
    let de = z.de();
    let bc = z.bc();
    let again = op.repeats();
    let b1 = ((z.b as u16 + 255) % 256) as u8;
    match op.step_op() {
        BlockOp::Ldi | BlockOp::Ldd => {
            read(out, hl);
            write(out, de);
            idle(out, de, 2);
            if again && wrap_sub(bc, 1) != 0 {
                idle(out, de, 5);
            }
        },
        BlockOp::Cpi | BlockOp::Cpd => {
            read(out, hl);
            idle(out, hl, 5);
            if again && wrap_sub(bc, 1) != 0 && z.a != z.read(hl) {
                idle(out, hl, 5);
            }
        },
        BlockOp::Ini | BlockOp::Ind => {
            idle(out, z.ir(m1), 1);
            put(out, Cycle { at: bc, len: 4, kind: Kind::PortRead });
            write(out, hl);
            if again && b1 != 0 {
                idle(out, hl, 5);
            }
        },
        _ => {
            // B is counted down before the byte goes out, so the port and
            // the cycles that follow see the new value.
            let bc1 = b1 as u16 * 256 + z.c as u16;
            idle(out, z.ir(m1), 1);
            read(out, hl);
            put(out, Cycle { at: bc1, len: 4, kind: Kind::PortWrite });
            if again && b1 != 0 {
                idle(out, bc1, 5);
            }
        },
    }
    assert(final(out)@ =~= old(out)@ + block_cycles(*z, op, m1));
}

fn cond_ok(z: &Zx, c: Option<Cond>) -> (b: bool)
    ensures
        b == cond_taken(*z, c),
{
    match c {
        None => true,
        Some(c) => z.cond(c),
    }
}

/// The cycles of loads, stores and the stack.
fn body_loads(out: &mut Cycles, z: &Zx, d: &Decoded, pc: u16)
    requires
        z.wf(),
        old(out).wf(),
        old(out)@.len() + 10 <= CYCLES_MAX,
        d.instr is Ld16 || d.instr is Ld16Load || d.instr is Ld16Store || d.instr is Push || d.instr is Rst
            || d.instr is ExSp || d.instr is Pop || d.instr is LdSp || d.instr is Inc16 || d.instr is Dec16
            || d.instr is Add16 || d.instr is Adc16 || d.instr is Sbc16 || d.instr is Rld || d.instr is Rrd,
    ensures
        final(out).wf(),
        final(out)@ == old(out)@ + body_cycles(*z, *d, pc),
{
    let ops = wrap_add(pc, d.m1 as u16);
    let ir = z.ir(d.m1);
    let sp = z.sp;
    match d.instr {
        Instr::Rld | Instr::Rrd => {
            let hl = z.hl();
            read(out, hl);
            idle(out, hl, 4);
            write(out, hl);
        },
        Instr::Ld16(_, _) => {
            read(out, ops);
            read(out, wrap_add(ops, 1));
        },
        Instr::Ld16Load(_, nn) => {
            read(out, ops);
            read(out, wrap_add(ops, 1));
            read(out, nn);
            read(out, wrap_add(nn, 1));
        },
        Instr::Ld16Store(nn, _) => {
            read(out, ops);
            read(out, wrap_add(ops, 1));
            write(out, nn);
            write(out, wrap_add(nn, 1));
        },
        Instr::Push(_) | Instr::Rst(_) => {
            idle(out, ir, 1);
            write(out, wrap_sub(sp, 1));
            write(out, wrap_sub(sp, 2));
        },
        Instr::ExSp(_) => {
            read(out, sp);
            read(out, wrap_add(sp, 1));
            idle(out, wrap_add(sp, 1), 1);
            write(out, wrap_add(sp, 1));
            write(out, sp);
            idle(out, sp, 2);
        },
        Instr::Pop(_) => {
            read(out, sp);
            read(out, wrap_add(sp, 1));
        },
        Instr::LdSp(_) | Instr::Inc16(_) | Instr::Dec16(_) => idle(out, ir, 2),
        _ => idle(out, ir, 7),
    }
    assert(final(out)@ =~= old(out)@ + body_cycles(*z, *d, pc));
}

/// The cycles of jumps, calls, returns and ports.
fn body_flow(out: &mut Cycles, z: &Zx, d: &Decoded, pc: u16)
    requires
        z.wf(),
        old(out).wf(),
        old(out)@.len() + 10 <= CYCLES_MAX,
        d.instr is Jp || d.instr is Call || d.instr is Jr || d.instr is Djnz || d.instr is Ret || d.instr is Reti
            || d.instr is Retn || d.instr is InA || d.instr is OutA || d.instr is InC || d.instr is OutC,
    ensures
        final(out).wf(),
        final(out)@ == old(out)@ + body_cycles(*z, *d, pc),
{
    let ops = wrap_add(pc, d.m1 as u16);
    let ir = z.ir(d.m1);
    let sp = z.sp;
    match d.instr {
        Instr::Jp(_, _) => {
            read(out, ops);
            read(out, wrap_add(ops, 1));
        },
        Instr::Call(c, _) => {
            read(out, ops);
            read(out, wrap_add(ops, 1));
            if cond_ok(z, c) {
                idle(out, wrap_add(ops, 1), 1);
                write(out, wrap_sub(sp, 1));
                write(out, wrap_sub(sp, 2));
            }
        },
        Instr::Jr(c, _) => {
            read(out, ops);
            if cond_ok(z, c) {
                idle(out, ops, 5);
            }
        },
        Instr::Djnz(_) => {
            read(out, ops);
            if (z.b as u16 + 255) % 256 != 0 {
                idle(out, ops, 5);
            }
        },
        Instr::Ret(Some(c)) => {
            idle(out, ir, 1);
            if z.cond(c) {
                read(out, sp);
                read(out, wrap_add(sp, 1));
            }
        },
        Instr::Ret(None) | Instr::Reti | Instr::Retn => {
            read(out, sp);
            read(out, wrap_add(sp, 1));
        },
        Instr::InA(n) => {
            read(out, ops);
            put(out, Cycle { at: z.a as u16 * 256 + n as u16, len: 4, kind: Kind::PortRead });
        },
        Instr::OutA(n) => {
            read(out, ops);
            put(out, Cycle { at: z.a as u16 * 256 + n as u16, len: 4, kind: Kind::PortWrite });
        },
        Instr::InC(_) => put(out, Cycle { at: z.bc(), len: 4, kind: Kind::PortRead }),
        _ => put(out, Cycle { at: z.bc(), len: 4, kind: Kind::PortWrite }),
    }
    assert(final(out)@ =~= old(out)@ + body_cycles(*z, *d, pc));
}

/// The machine cycles of the instruction `d` at `pc`, in order.
///
/// Worked out from the state before the instruction runs, which is what the
/// processor has when it puts each address on the bus.
pub fn cycles(z: &Zx, d: &Decoded, pc: u16) -> (out: Cycles)
    requires
        z.wf(),
        d.m1 <= 2,
    ensures
        out.wf(),
        out@ == cycles_spec(*z, *d, pc),
{
    let mut out = Cycles::new();
    let first: u32 = match d.instr {
        Instr::Djnz(_) => 5,
        _ => 4,
    };
    let mut i: u16 = 0;
    while i < d.m1 as u16
        invariant
            i <= d.m1 <= 2,
            out.wf(),
            out@ == fetches(pc, d.m1, first).take(i as int),
        decreases d.m1 - i,
    {
        put(&mut out, Cycle::fetch(wrap_add(pc, i), if i == 0 { first } else { 4 }));
        i = i + 1;
        assert(out@ =~= fetches(pc, d.m1, first).take(i as int));
    }
    assert(fetches(pc, d.m1, first).take(i as int) =~= fetches(pc, d.m1, first));
    let ghost pre = out@;
    let ops = wrap_add(pc, d.m1 as u16);
    let cbx = d.m1 == 2 && d.len == 4;
    match d.instr {
        Instr::LdIA | Instr::LdRA | Instr::LdAI | Instr::LdAR => {
            let ir = z.ir(d.m1);
            idle(&mut out, ir, 1);
        },
        Instr::Ld8(dst, src) => load8(&mut out, z, dst, src, ops),
        Instr::Alu(_, o) => operand(&mut out, z, o, ops, cbx, true, 0, false),
        Instr::Bit(_, o) => operand(&mut out, z, o, ops, cbx, true, 1, false),
        Instr::Inc8(o) | Instr::Dec8(o) | Instr::Rot(_, o, _) | Instr::Res(_, o, _) | Instr::SetBit(_, o, _) => {
            operand(&mut out, z, o, ops, cbx, false, 1, true)
        },
        Instr::Rld | Instr::Rrd | Instr::Ld16(..) | Instr::Ld16Load(..) | Instr::Ld16Store(..) | Instr::Push(_)
        | Instr::Rst(_) | Instr::ExSp(_) | Instr::Pop(_) | Instr::LdSp(_) | Instr::Inc16(_) | Instr::Dec16(_)
        | Instr::Add16(..) | Instr::Adc16(_) | Instr::Sbc16(_) => body_loads(&mut out, z, d, pc),
        Instr::Jp(..) | Instr::Call(..) | Instr::Jr(..) | Instr::Djnz(_) | Instr::Ret(_) | Instr::Reti
        | Instr::Retn | Instr::InA(_) | Instr::OutA(_) | Instr::InC(_) | Instr::OutC(_) => {
            body_flow(&mut out, z, d, pc)
        },
        Instr::Block(op) => block(&mut out, z, op, d.m1),
        _ => {},
    }
    assert(out@ =~= cycles_spec(*z, *d, pc));
    out
}

// ---------------------------------------------------------------------------
// The cycles add up to what the decoder charges.

/// How many T-states a run of machine cycles takes.
pub open spec fn t_states(s: Seq<Cycle>) -> int
    decreases s.len(),
{
    if s.len() == 0 {
        0
    } else {
        t_states(s.drop_last()) + s.last().len
    }
}

/// Whether the instruction spends its extra T-states: a conditional jump,
/// call or return whose condition holds, or a DJNZ that loops.
pub open spec fn extra_taken(z: Zx, d: Decoded) -> bool {
    match d.instr {
        Instr::Jr(c, _) | Instr::Call(c, _) => cond_taken(z, c),
        Instr::Ret(Some(c)) => z.cond_spec(c),
        Instr::Djnz(_) => (z.b + 255) % 256 != 0,
        Instr::Block(op) => repeats_spec(op) && match step_op_spec(op) {
            BlockOp::Ldi | BlockOp::Ldd => add16w(z.bc_spec(), -1) != 0,
            BlockOp::Cpi | BlockOp::Cpd => add16w(z.bc_spec(), -1) != 0 && z.a != z.read_spec(z.hl_spec()),
            _ => (z.b + 255) % 256 != 0,
        },
        _ => false,
    }
}

proof fn t_states_add(a: Seq<Cycle>, b: Seq<Cycle>)
    ensures
        t_states(a + b) == t_states(a) + t_states(b),
    decreases b.len(),
{
    if b.len() == 0 {
        assert(a + b =~= a);
    } else {
        t_states_add(a, b.drop_last());
        assert((a + b).drop_last() =~= a + b.drop_last());
    }
}

proof fn t_states_idles(at: u16, n: nat)
    ensures
        t_states(idles(at, n)) == n,
    decreases n,
{
    if n > 0 {
        t_states_idles(at, (n - 1) as nat);
        assert(idles(at, n).drop_last() =~= idles(at, (n - 1) as nat));
    }
}

proof fn t_states_fetches(pc: u16, m1: u8, first: u32)
    requires
        m1 >= 1,
    ensures
        t_states(fetches(pc, m1, first)) == first + 4 * (m1 - 1),
    decreases m1,
{
    let s = fetches(pc, m1, first);
    assert(t_states(Seq::<Cycle>::empty()) == 0);
    if m1 == 1 {
        assert(s.drop_last() =~= Seq::<Cycle>::empty());
        assert(s.last().len == first);
    } else {
        t_states_fetches(pc, (m1 - 1) as u8, first);
        assert(s.drop_last() =~= fetches(pc, (m1 - 1) as u8, first));
        assert(s.last().len == 4);
    }
}

proof fn t_states_small(a: Cycle, b: Cycle)
    ensures
        t_states(seq![a]) == a.len,
        t_states(seq![a, b]) == a.len + b.len,
{
    assert(t_states(Seq::<Cycle>::empty()) == 0);
    assert(seq![a].drop_last() =~= Seq::<Cycle>::empty());
    assert(t_states(seq![a]) == a.len);
    assert(seq![a, b].drop_last() =~= seq![a]);
}

proof fn t_states_facts()
    ensures
        t_states(Seq::<Cycle>::empty()) == 0,
        forall|a: Seq<Cycle>, b: Seq<Cycle>| #[trigger] t_states(a + b) == t_states(a) + t_states(b),
        forall|at: u16, n: nat| #[trigger] t_states(idles(at, n)) == n,
        forall|s: Seq<Cycle>| #![trigger t_states(s)] s.len() == 1 ==> t_states(s) == s[0].len,
        forall|s: Seq<Cycle>| #![trigger t_states(s)] s.len() == 2 ==> t_states(s) == s[0].len + s[1].len,
        forall|s: Seq<Cycle>| #![trigger t_states(s)] s.len() == 4 ==> t_states(s) == s[0].len + s[1].len + s[2].len + s[3].len,
{
    assert forall|a: Seq<Cycle>, b: Seq<Cycle>| #[trigger] t_states(a + b) == t_states(a) + t_states(b) by {
        t_states_add(a, b);
    }
    assert forall|at: u16, n: nat| #[trigger] t_states(idles(at, n)) == n by {
        t_states_idles(at, n);
    }
    assert(t_states(Seq::<Cycle>::empty()) == 0);
    assert forall|s: Seq<Cycle>| #![trigger t_states(s)] s.len() == 1 implies t_states(s) == s[0].len by {
        assert(s.drop_last() =~= Seq::<Cycle>::empty());
        assert(t_states(s.drop_last()) == 0);
    }
    assert forall|s: Seq<Cycle>| #![trigger t_states(s)] s.len() == 2 implies t_states(s) == s[0].len + s[1].len by {
        let p = s.drop_last();
        assert(p.len() == 1 && p[0] == s[0]);
        assert(p.drop_last() =~= Seq::<Cycle>::empty());
        assert(t_states(p.drop_last()) == 0);
        assert(t_states(p) == s[0].len);
    }
    assert forall|s: Seq<Cycle>| #![trigger t_states(s)] s.len() == 4 implies t_states(s) == s[0].len + s[1].len + s[2].len + s[3].len by {
        t_states_add(s.take(2), s.skip(2));
        assert(s.take(2) + s.skip(2) =~= s);
        let (p, q) = (s.take(2), s.skip(2));
        assert(p.drop_last().drop_last() =~= Seq::<Cycle>::empty());
        assert(q.drop_last().drop_last() =~= Seq::<Cycle>::empty());
    }
}

proof fn cb_cycles_add_up(z: Zx, pc: u16)
    ensures
        ({
            let d = cb_spec(z.mem@, pc);
            t_states(cycles_spec(z, d, pc)) == d.t + if extra_taken(z, d) { d.t_extra as int } else { 0 }
        }),
{
    let d = cb_spec(z.mem@, pc);
    t_states_facts();
    t_states_fetches(pc, d.m1, 4);
}

proof fn idx_cb_cycles_add_up(z: Zx, pc: u16, idx: Idx)
    ensures
        ({
            let d = idx_cb_spec(z.mem@, pc, idx);
            t_states(cycles_spec(z, d, pc)) == d.t + if extra_taken(z, d) { d.t_extra as int } else { 0 }
        }),
{
    let d = idx_cb_spec(z.mem@, pc, idx);
    t_states_facts();
    t_states_fetches(pc, d.m1, 4);
}

proof fn ed_cycles_add_up(z: Zx, pc: u16)
    ensures
        ({
            let d = ed_spec(z.mem@, pc);
            t_states(cycles_spec(z, d, pc)) == d.t + if extra_taken(z, d) { d.t_extra as int } else { 0 }
        }),
{
    let d = ed_spec(z.mem@, pc);
    t_states_facts();
    t_states_fetches(pc, d.m1, 4);
}

#[verifier::rlimit(60)]
proof fn main_x0_cycles_add_up(z: Zx, pc: u16, start: int, idx: Option<Idx>)
    requires
        (start == 0 && idx is None) || (start == 1 && idx is Some),
        fetch(z.mem@, pc, start) / 64 == 0,
    ensures
        ({
            let d = main_spec(z.mem@, pc, start, idx);
            t_states(cycles_spec(z, d, pc)) == d.t + if extra_taken(z, d) { d.t_extra as int } else { 0 }
        }),
{
    let d = main_spec(z.mem@, pc, start, idx);
    t_states_facts();
    t_states_fetches(pc, d.m1, if d.instr is Djnz { 5 } else { 4 });
}

#[verifier::rlimit(60)]
proof fn main_x1_cycles_add_up(z: Zx, pc: u16, start: int, idx: Option<Idx>)
    requires
        (start == 0 && idx is None) || (start == 1 && idx is Some),
        fetch(z.mem@, pc, start) / 64 == 1,
    ensures
        ({
            let d = main_spec(z.mem@, pc, start, idx);
            t_states(cycles_spec(z, d, pc)) == d.t + if extra_taken(z, d) { d.t_extra as int } else { 0 }
        }),
{
    let d = main_spec(z.mem@, pc, start, idx);
    t_states_facts();
    t_states_fetches(pc, d.m1, if d.instr is Djnz { 5 } else { 4 });
}

#[verifier::rlimit(60)]
proof fn main_x2_cycles_add_up(z: Zx, pc: u16, start: int, idx: Option<Idx>)
    requires
        (start == 0 && idx is None) || (start == 1 && idx is Some),
        fetch(z.mem@, pc, start) / 64 == 2,
    ensures
        ({
            let d = main_spec(z.mem@, pc, start, idx);
            t_states(cycles_spec(z, d, pc)) == d.t + if extra_taken(z, d) { d.t_extra as int } else { 0 }
        }),
{
    let d = main_spec(z.mem@, pc, start, idx);
    t_states_facts();
    t_states_fetches(pc, d.m1, if d.instr is Djnz { 5 } else { 4 });
}

#[verifier::rlimit(60)]
proof fn main_x3_cycles_add_up(z: Zx, pc: u16, start: int, idx: Option<Idx>)
    requires
        (start == 0 && idx is None) || (start == 1 && idx is Some),
        fetch(z.mem@, pc, start) / 64 == 3,
    ensures
        ({
            let d = main_spec(z.mem@, pc, start, idx);
            t_states(cycles_spec(z, d, pc)) == d.t + if extra_taken(z, d) { d.t_extra as int } else { 0 }
        }),
{
    let d = main_spec(z.mem@, pc, start, idx);
    t_states_facts();
    t_states_fetches(pc, d.m1, if d.instr is Djnz { 5 } else { 4 });
}

proof fn main_cycles_add_up(z: Zx, pc: u16, start: int, idx: Option<Idx>)
    requires
        (start == 0 && idx is None) || (start == 1 && idx is Some),
    ensures
        ({
            let d = main_spec(z.mem@, pc, start, idx);
            t_states(cycles_spec(z, d, pc)) == d.t + if extra_taken(z, d) { d.t_extra as int } else { 0 }
        }),
{
    let x = fetch(z.mem@, pc, start) / 64;
    if x == 0 {
        main_x0_cycles_add_up(z, pc, start, idx);
    } else if x == 1 {
        main_x1_cycles_add_up(z, pc, start, idx);
    } else if x == 2 {
        main_x2_cycles_add_up(z, pc, start, idx);
    } else {
        main_x3_cycles_add_up(z, pc, start, idx);
    }
}

/// Every instruction puts on the bus exactly the T-states the decoder
/// charges for it: its time, and its extra time too when that is spent (a
/// conditional jump, call or return whose condition holds, a DJNZ that
/// loops, a repeating block instruction that goes round again).
pub proof fn cycles_add_up(z: Zx, pc: u16)
    ensures
        ({
            let d = decode_spec(z.mem@, pc);
            t_states(cycles_spec(z, d, pc)) == d.t + if extra_taken(z, d) { d.t_extra as int } else { 0 }
        }),
{
    let d = decode_spec(z.mem@, pc);
    reveal(decode_spec);
    let b0 = fetch(z.mem@, pc, 0);
    let b1 = fetch(z.mem@, pc, 1);
    if b0 == 0xCB {
        cb_cycles_add_up(z, pc);
    } else if b0 == 0xED {
        ed_cycles_add_up(z, pc);
    } else if b0 == 0xDD || b0 == 0xFD {
        let idx = if b0 == 0xDD { Idx::IX } else { Idx::IY };
        if b1 == 0xDD || b1 == 0xFD || b1 == 0xED {
            t_states_facts();
            t_states_fetches(pc, 1, 4);
        } else if b1 == 0xCB {
            idx_cb_cycles_add_up(z, pc, idx);
        } else {
            main_cycles_add_up(z, pc, 1, Some(idx));
        }
    } else {
        main_cycles_add_up(z, pc, 0, None);
    }
}

proof fn unconditional_return_has_no_extra(mem: Seq<u8>, pc: u16)
    ensures
        decode_spec(mem, pc).instr == Instr::Ret(None) ==> decode_spec(mem, pc).t_extra == 0,
{
    reveal(decode_spec);
}

/// Running an instruction other than a block instruction advances the
/// clock by exactly the T-states its machine cycles add up to (given a
/// clock with room for them).
pub proof fn a_step_takes_its_cycles(z0: Zx, z1: Zx, tr: Option<Trace>)
    requires
        stepped(z0, z1, tr),
        z0.t + 0x200 <= u32::MAX,
        !(decode_spec(z0.mem@, z0.pc).instr is Block),
    ensures
        z1.t == z0.t + t_states(cycles_spec(z0, decode_spec(z0.mem@, z0.pc), z0.pc)),
{
    cycles_add_up(z0, z0.pc);
    let d = decode_spec(z0.mem@, z0.pc);
    let next = add16w(z0.pc, d.len as int);
    let before = Zx { pc: next, t: (z0.t + d.t) as u32, r: r_after(z0.r, d.m1), trace: tr, ..z0 };
    assert(before.t == z0.t + d.t);
    assert(before.f == z0.f && before.b == z0.b);
    unconditional_return_has_no_extra(z0.mem@, z0.pc);
    assert(z1.t == before.t + if extra_taken(z0, d) { d.t_extra as int } else { 0 });
}

} // verus!
