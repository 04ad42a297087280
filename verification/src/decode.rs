//! Z80 instruction decoder.
//!
//! Decoding follows the x/y/z/p/q decomposition of an opcode: `x` is its
//! top two bits, `y` the three below them, `z` the bottom three, and `y`
//! splits again into `p` (its top two bits) and `q` (its bottom one).
//! Undocumented instructions (the IXH/IXL halves, SLL, the DDCB register
//! copies, ED's NOPs) are decoded because Spectrum games do use them.
//!
//! The decoder reads memory through a slice that it takes to repeat every
//! `len` bytes: a 64K slice is the whole address space, and a shorter one
//! stands for memory that repeats.

use vstd::prelude::*;

verus! {

#[derive(Clone, Copy, Debug, PartialEq, Eq, Hash, Structural)]
pub enum Reg8 {
    B,
    C,
    D,
    E,
    H,
    L,
    A,
    IXH,
    IXL,
    IYH,
    IYL,
}

#[derive(Clone, Copy, Debug, PartialEq, Eq, Hash, Structural)]
pub enum Reg16 {
    BC,
    DE,
    HL,
    SP,
    AF,
    IX,
    IY,
}

#[derive(Clone, Copy, Debug, PartialEq, Eq, Hash, Structural)]
pub enum Idx {
    IX,
    IY,
}

pub open spec fn idx_reg16(i: Idx) -> Reg16 {
    match i {
        Idx::IX => Reg16::IX,
        Idx::IY => Reg16::IY,
    }
}

impl Idx {
    /// The 16-bit register an index prefix names.
    pub fn reg16(self) -> (r: Reg16)
        ensures
            r == idx_reg16(self),
    {
        match self {
            Idx::IX => Reg16::IX,
            Idx::IY => Reg16::IY,
        }
    }
}

/// A memory operand.
#[derive(Clone, Copy, Debug, PartialEq, Eq, Hash, Structural)]
pub enum Addr {
    BC,
    DE,
    HL,
    Idx(Idx, i8),
    Abs(u16),
}

/// An 8-bit operand.
#[derive(Clone, Copy, Debug, PartialEq, Eq, Hash, Structural)]
pub enum Op8 {
    Reg(Reg8),
    Mem(Addr),
    Imm(u8),
}

#[derive(Clone, Copy, Debug, PartialEq, Eq, Hash, Structural)]
pub enum Cond {
    NZ,
    Z,
    NC,
    C,
    PO,
    PE,
    P,
    M,
}

#[derive(Clone, Copy, Debug, PartialEq, Eq, Hash, Structural)]
pub enum AluOp {
    Add,
    Adc,
    Sub,
    Sbc,
    And,
    Xor,
    Or,
    Cp,
}

#[derive(Clone, Copy, Debug, PartialEq, Eq, Hash, Structural)]
pub enum RotOp {
    Rlc,
    Rrc,
    Rl,
    Rr,
    Sla,
    Sra,
    Sll,
    Srl,
}

#[derive(Clone, Copy, Debug, PartialEq, Eq, Hash, Structural)]
pub enum BlockOp {
    Ldi,
    Ldd,
    Ldir,
    Lddr,
    Cpi,
    Cpd,
    Cpir,
    Cpdr,
    Ini,
    Ind,
    Inir,
    Indr,
    Outi,
    Outd,
    Otir,
    Otdr,
}

pub open spec fn repeats_spec(op: BlockOp) -> bool {
    match op {
        BlockOp::Ldir | BlockOp::Lddr | BlockOp::Cpir | BlockOp::Cpdr | BlockOp::Inir
        | BlockOp::Indr | BlockOp::Otir | BlockOp::Otdr => true,
        _ => false,
    }
}

pub open spec fn step_op_spec(op: BlockOp) -> BlockOp {
    match op {
        BlockOp::Ldir => BlockOp::Ldi,
        BlockOp::Lddr => BlockOp::Ldd,
        BlockOp::Cpir => BlockOp::Cpi,
        BlockOp::Cpdr => BlockOp::Cpd,
        BlockOp::Inir => BlockOp::Ini,
        BlockOp::Indr => BlockOp::Ind,
        BlockOp::Otir => BlockOp::Outi,
        BlockOp::Otdr => BlockOp::Outd,
        _ => op,
    }
}

impl BlockOp {
    /// Whether this is a repeating form (LDIR and the like).
    pub fn repeats(self) -> (b: bool)
        ensures
            b == repeats_spec(self),
    {
        match self {
            BlockOp::Ldir | BlockOp::Lddr | BlockOp::Cpir | BlockOp::Cpdr | BlockOp::Inir
            | BlockOp::Indr | BlockOp::Otir | BlockOp::Otdr => true,
            _ => false,
        }
    }

    /// The single-step operation a repeating instruction performs each
    /// iteration; a single step is its own.
    pub fn step_op(self) -> (s: BlockOp)
        ensures
            s == step_op_spec(self),
            !repeats_spec(s),
    {
        match self {
            BlockOp::Ldir => BlockOp::Ldi,
            BlockOp::Lddr => BlockOp::Ldd,
            BlockOp::Cpir => BlockOp::Cpi,
            BlockOp::Cpdr => BlockOp::Cpd,
            BlockOp::Inir => BlockOp::Ini,
            BlockOp::Indr => BlockOp::Ind,
            BlockOp::Otir => BlockOp::Outi,
            BlockOp::Otdr => BlockOp::Outd,
            op => op,
        }
    }
}

#[derive(Clone, Copy, Debug, PartialEq, Eq, Hash, Structural)]
pub enum Instr {
    Nop,
    Halt,
    Di,
    Ei,
    /// `LD dst,src` for every 8-bit form.
    Ld8(Op8, Op8),
    /// `LD rr,nn`
    Ld16(Reg16, u16),
    /// `LD rr,(nn)`
    Ld16Load(Reg16, u16),
    /// `LD (nn),rr`
    Ld16Store(u16, Reg16),
    /// `LD SP,HL/IX/IY`
    LdSp(Reg16),
    Push(Reg16),
    Pop(Reg16),
    ExDeHl,
    ExAf,
    Exx,
    /// `EX (SP),HL/IX/IY`
    ExSp(Reg16),
    Alu(AluOp, Op8),
    Inc8(Op8),
    Dec8(Op8),
    Inc16(Reg16),
    Dec16(Reg16),
    Add16(Reg16, Reg16),
    Adc16(Reg16),
    Sbc16(Reg16),
    Daa,
    Cpl,
    Neg,
    Ccf,
    Scf,
    Rlca,
    Rrca,
    Rla,
    Rra,
    Rld,
    Rrd,
    /// CB rotates and shifts. The register is the undocumented DDCB copy
    /// target.
    Rot(RotOp, Op8, Option<Reg8>),
    Bit(u8, Op8),
    Res(u8, Op8, Option<Reg8>),
    SetBit(u8, Op8, Option<Reg8>),
    Jp(Option<Cond>, u16),
    /// `JP (HL/IX/IY)`
    JpInd(Reg16),
    Jr(Option<Cond>, u16),
    Djnz(u16),
    Call(Option<Cond>, u16),
    Ret(Option<Cond>),
    Reti,
    Retn,
    Rst(u8),
    /// `IN A,(n)`
    InA(u8),
    /// `IN r,(C)`; `None` is the flags-only `IN (C)`.
    InC(Option<Reg8>),
    /// `OUT (n),A`
    OutA(u8),
    /// `OUT (C),r`; `None` is `OUT (C),0`.
    OutC(Option<Reg8>),
    Block(BlockOp),
    Im(u8),
    LdIA,
    LdRA,
    LdAI,
    LdAR,
}

/// How an instruction affects control flow, as far as can be known
/// statically.
#[derive(Clone, Copy, Debug, PartialEq, Eq, Structural)]
pub enum Flow {
    /// Always continues with the next instruction.
    Next,
    /// Always transfers to the given address.
    Jump(u16),
    /// Either the given address or the next instruction.
    Branch(u16),
    /// Pushes the next address and jumps (the call may or may not be taken).
    Call { target: u16, conditional: bool },
    /// Returns (the return may or may not be taken).
    Return { conditional: bool },
    /// Jumps to an address only known at run time.
    Indirect,
    /// Stops until the next interrupt, then continues with the next
    /// instruction.
    Halt,
}

pub open spec fn flow_spec(i: Instr) -> Flow {
    match i {
        Instr::Jp(None, a) => Flow::Jump(a),
        Instr::Jr(None, a) => Flow::Jump(a),
        Instr::Jp(Some(_), a) => Flow::Branch(a),
        Instr::Jr(Some(_), a) => Flow::Branch(a),
        Instr::Djnz(a) => Flow::Branch(a),
        Instr::Call(c, a) => Flow::Call { target: a, conditional: c is Some },
        Instr::Rst(n) => Flow::Call { target: n as u16, conditional: false },
        Instr::Ret(c) => Flow::Return { conditional: c is Some },
        Instr::Reti | Instr::Retn => Flow::Return { conditional: false },
        Instr::JpInd(_) => Flow::Indirect,
        Instr::Halt => Flow::Halt,
        _ => Flow::Next,
    }
}

impl Instr {
    /// How the instruction affects control flow.
    pub fn flow(&self) -> (f: Flow)
        ensures
            f == flow_spec(*self),
    {
        match *self {
            Instr::Jp(None, a) | Instr::Jr(None, a) => Flow::Jump(a),
            Instr::Jp(Some(_), a) | Instr::Jr(Some(_), a) | Instr::Djnz(a) => Flow::Branch(a),
            Instr::Call(c, a) => Flow::Call { target: a, conditional: c.is_some() },
            Instr::Rst(n) => Flow::Call { target: n as u16, conditional: false },
            Instr::Ret(c) => Flow::Return { conditional: c.is_some() },
            Instr::Reti | Instr::Retn => Flow::Return { conditional: false },
            Instr::JpInd(_) => Flow::Indirect,
            Instr::Halt => Flow::Halt,
            _ => Flow::Next,
        }
    }
}

#[derive(Clone, Copy, Debug, PartialEq, Eq, Structural)]
pub struct Decoded {
    pub instr: Instr,
    /// Length in bytes.
    pub len: u8,
    /// T-states. For conditional instructions, the not-taken time; for
    /// repeating block instructions, the time of the final iteration.
    pub t: u8,
    /// Extra T-states when a conditional branch is taken or a block
    /// instruction repeats.
    pub t_extra: u8,
    /// Opcode fetches (how far the R register advances).
    pub m1: u8,
}

// ---------------------------------------------------------------------------
// What the bytes mean.

/// The byte `k` bytes after `pc`, memory repeating every `mem.len()` bytes.
pub open spec fn fetch(mem: Seq<u8>, pc: u16, k: int) -> u8 {
    mem[((pc as int + k) % 65536) % (mem.len() as int)]
}

/// The little-endian word `k` bytes after `pc`.
pub open spec fn word_at(mem: Seq<u8>, pc: u16, k: int) -> u16 {
    (fetch(mem, pc, k) as int + 256 * fetch(mem, pc, k + 1) as int) as u16
}

/// A byte read as a two's complement displacement.
pub open spec fn signed(b: u8) -> int {
    if b < 128 {
        b as int
    } else {
        b as int - 256
    }
}

/// The target of a relative jump whose displacement is `k` bytes after
/// `pc`: the address after the displacement, moved by it.
pub open spec fn rel_at(mem: Seq<u8>, pc: u16, k: int) -> u16 {
    ((pc as int + k + 1 + signed(fetch(mem, pc, k))) % 65536) as u16
}

pub open spec fn cc_spec(i: int) -> Cond {
    if i == 0 {
        Cond::NZ
    } else if i == 1 {
        Cond::Z
    } else if i == 2 {
        Cond::NC
    } else if i == 3 {
        Cond::C
    } else if i == 4 {
        Cond::PO
    } else if i == 5 {
        Cond::PE
    } else if i == 6 {
        Cond::P
    } else {
        Cond::M
    }
}

pub open spec fn alu_spec(i: int) -> AluOp {
    if i == 0 {
        AluOp::Add
    } else if i == 1 {
        AluOp::Adc
    } else if i == 2 {
        AluOp::Sub
    } else if i == 3 {
        AluOp::Sbc
    } else if i == 4 {
        AluOp::And
    } else if i == 5 {
        AluOp::Xor
    } else if i == 6 {
        AluOp::Or
    } else {
        AluOp::Cp
    }
}

pub open spec fn rot_spec(i: int) -> RotOp {
    if i == 0 {
        RotOp::Rlc
    } else if i == 1 {
        RotOp::Rrc
    } else if i == 2 {
        RotOp::Rl
    } else if i == 3 {
        RotOp::Rr
    } else if i == 4 {
        RotOp::Sla
    } else if i == 5 {
        RotOp::Sra
    } else if i == 6 {
        RotOp::Sll
    } else {
        RotOp::Srl
    }
}

/// The register an index 0–7 other than 6 names.
pub open spec fn reg_plain_spec(i: int) -> Reg8 {
    if i == 0 {
        Reg8::B
    } else if i == 1 {
        Reg8::C
    } else if i == 2 {
        Reg8::D
    } else if i == 3 {
        Reg8::E
    } else if i == 4 {
        Reg8::H
    } else if i == 5 {
        Reg8::L
    } else {
        Reg8::A
    }
}

/// The register an index names under an index prefix: H and L become the
/// index register's halves.
pub open spec fn reg_idx_spec(i: int, idx: Option<Idx>) -> Reg8 {
    match idx {
        Some(Idx::IX) if i == 4 => Reg8::IXH,
        Some(Idx::IX) if i == 5 => Reg8::IXL,
        Some(Idx::IY) if i == 4 => Reg8::IYH,
        Some(Idx::IY) if i == 5 => Reg8::IYL,
        _ => reg_plain_spec(i),
    }
}

pub open spec fn rp_spec(p: int, hl: Reg16) -> Reg16 {
    if p == 0 {
        Reg16::BC
    } else if p == 1 {
        Reg16::DE
    } else if p == 2 {
        hl
    } else {
        Reg16::SP
    }
}

pub open spec fn rp2_spec(p: int, hl: Reg16) -> Reg16 {
    if p == 0 {
        Reg16::BC
    } else if p == 1 {
        Reg16::DE
    } else if p == 2 {
        hl
    } else {
        Reg16::AF
    }
}

pub open spec fn hl_of(idx: Option<Idx>) -> Reg16 {
    match idx {
        None => Reg16::HL,
        Some(i) => idx_reg16(i),
    }
}

/// The 8-bit operand index `i` names at offset `k`: the operand, the
/// offset after it, and whether it is an indexed memory operand.
pub open spec fn op8_spec(mem: Seq<u8>, pc: u16, k: int, idx: Option<Idx>, i: int) -> (Op8, int, bool) {
    if i == 6 {
        match idx {
            None => (Op8::Mem(Addr::HL), k, false),
            Some(ix) => (Op8::Mem(Addr::Idx(ix, signed(fetch(mem, pc, k)) as i8)), k + 1, true),
        }
    } else {
        (Op8::Reg(reg_idx_spec(i, idx)), k, false)
    }
}

pub open spec fn is_mem(o: Op8) -> bool {
    o is Mem
}

/// The main table, for the opcode at offset `start`: the instruction, the
/// offset after it, its T-states unprefixed, the extra T-states when taken,
/// whether it uses an indexed memory operand, and what that adds.
pub open spec fn main_table(mem: Seq<u8>, pc: u16, start: int, idx: Option<Idx>) -> (Instr, int, int, int, bool, int) {
    let op = fetch(mem, pc, start) as int;
    let x = op / 64;
    let y = (op / 8) % 8;
    let z = op % 8;
    let p = y / 2;
    let q = y % 2;
    let hl = hl_of(idx);
    let k = start + 1;
    if x == 0 {
        if z == 0 {
            if y == 0 {
                (Instr::Nop, k, 4, 0, false, 12)
            } else if y == 1 {
                (Instr::ExAf, k, 4, 0, false, 12)
            } else if y == 2 {
                (Instr::Djnz(rel_at(mem, pc, k)), k + 1, 8, 5, false, 12)
            } else if y == 3 {
                (Instr::Jr(None, rel_at(mem, pc, k)), k + 1, 12, 0, false, 12)
            } else {
                (Instr::Jr(Some(cc_spec(y - 4)), rel_at(mem, pc, k)), k + 1, 7, 5, false, 12)
            }
        } else if z == 1 {
            if q == 0 {
                (Instr::Ld16(rp_spec(p, hl), word_at(mem, pc, k)), k + 2, 10, 0, false, 12)
            } else {
                (Instr::Add16(hl, rp_spec(p, hl)), k, 11, 0, false, 12)
            }
        } else if z == 2 {
            let a = Op8::Reg(Reg8::A);
            if q == 0 {
                if p == 0 {
                    (Instr::Ld8(Op8::Mem(Addr::BC), a), k, 7, 0, false, 12)
                } else if p == 1 {
                    (Instr::Ld8(Op8::Mem(Addr::DE), a), k, 7, 0, false, 12)
                } else if p == 2 {
                    (Instr::Ld16Store(word_at(mem, pc, k), hl), k + 2, 16, 0, false, 12)
                } else {
                    (Instr::Ld8(Op8::Mem(Addr::Abs(word_at(mem, pc, k))), a), k + 2, 13, 0, false, 12)
                }
            } else {
                if p == 0 {
                    (Instr::Ld8(a, Op8::Mem(Addr::BC)), k, 7, 0, false, 12)
                } else if p == 1 {
                    (Instr::Ld8(a, Op8::Mem(Addr::DE)), k, 7, 0, false, 12)
                } else if p == 2 {
                    (Instr::Ld16Load(hl, word_at(mem, pc, k)), k + 2, 16, 0, false, 12)
                } else {
                    (Instr::Ld8(a, Op8::Mem(Addr::Abs(word_at(mem, pc, k)))), k + 2, 13, 0, false, 12)
                }
            }
        } else if z == 3 {
            if q == 0 {
                (Instr::Inc16(rp_spec(p, hl)), k, 6, 0, false, 12)
            } else {
                (Instr::Dec16(rp_spec(p, hl)), k, 6, 0, false, 12)
            }
        } else if z == 4 || z == 5 {
            let (o, k2, im) = op8_spec(mem, pc, k, idx, y);
            let t = if is_mem(o) { 11int } else { 4int };
            (if z == 4 { Instr::Inc8(o) } else { Instr::Dec8(o) }, k2, t, 0, im, 12)
        } else if z == 6 {
            let (o, k2, im) = op8_spec(mem, pc, k, idx, y);
            let n = fetch(mem, pc, k2);
            (Instr::Ld8(o, Op8::Imm(n)), k2 + 1, if is_mem(o) { 10int } else { 7int }, 0, im, 9)
        } else {
            let i = if y == 0 {
                Instr::Rlca
            } else if y == 1 {
                Instr::Rrca
            } else if y == 2 {
                Instr::Rla
            } else if y == 3 {
                Instr::Rra
            } else if y == 4 {
                Instr::Daa
            } else if y == 5 {
                Instr::Cpl
            } else if y == 6 {
                Instr::Scf
            } else {
                Instr::Ccf
            };
            (i, k, 4, 0, false, 12)
        }
    } else if x == 1 {
        if y == 6 && z == 6 {
            (Instr::Halt, k, 4, 0, false, 12)
        } else if z == 6 {
            let (src, k2, im) = op8_spec(mem, pc, k, idx, 6);
            (Instr::Ld8(Op8::Reg(reg_plain_spec(y)), src), k2, 7, 0, im, 12)
        } else if y == 6 {
            let (dst, k2, im) = op8_spec(mem, pc, k, idx, 6);
            (Instr::Ld8(dst, Op8::Reg(reg_plain_spec(z))), k2, 7, 0, im, 12)
        } else {
            (
                Instr::Ld8(Op8::Reg(reg_idx_spec(y, idx)), Op8::Reg(reg_idx_spec(z, idx))),
                k,
                4,
                0,
                false,
                12,
            )
        }
    } else if x == 2 {
        let (o, k2, im) = op8_spec(mem, pc, k, idx, z);
        (Instr::Alu(alu_spec(y), o), k2, if is_mem(o) { 7int } else { 4int }, 0, im, 12)
    } else {
        if z == 0 {
            (Instr::Ret(Some(cc_spec(y))), k, 5, 6, false, 12)
        } else if z == 1 {
            if q == 0 {
                (Instr::Pop(rp2_spec(p, hl)), k, 10, 0, false, 12)
            } else if p == 0 {
                (Instr::Ret(None), k, 10, 0, false, 12)
            } else if p == 1 {
                (Instr::Exx, k, 4, 0, false, 12)
            } else if p == 2 {
                (Instr::JpInd(hl), k, 4, 0, false, 12)
            } else {
                (Instr::LdSp(hl), k, 6, 0, false, 12)
            }
        } else if z == 2 {
            (Instr::Jp(Some(cc_spec(y)), word_at(mem, pc, k)), k + 2, 10, 0, false, 12)
        } else if z == 3 {
            if y == 0 {
                (Instr::Jp(None, word_at(mem, pc, k)), k + 2, 10, 0, false, 12)
            } else if y == 2 {
                (Instr::OutA(fetch(mem, pc, k)), k + 1, 11, 0, false, 12)
            } else if y == 3 {
                (Instr::InA(fetch(mem, pc, k)), k + 1, 11, 0, false, 12)
            } else if y == 4 {
                (Instr::ExSp(hl), k, 19, 0, false, 12)
            } else if y == 5 {
                (Instr::ExDeHl, k, 4, 0, false, 12)
            } else if y == 6 {
                (Instr::Di, k, 4, 0, false, 12)
            } else {
                (Instr::Ei, k, 4, 0, false, 12)
            }
        } else if z == 4 {
            (Instr::Call(Some(cc_spec(y)), word_at(mem, pc, k)), k + 2, 10, 7, false, 12)
        } else if z == 5 {
            if q == 0 {
                (Instr::Push(rp2_spec(p, hl)), k, 11, 0, false, 12)
            } else {
                (Instr::Call(None, word_at(mem, pc, k)), k + 2, 17, 0, false, 12)
            }
        } else if z == 6 {
            (Instr::Alu(alu_spec(y), Op8::Imm(fetch(mem, pc, k))), k + 1, 7, 0, false, 12)
        } else {
            (Instr::Rst((y * 8) as u8), k, 11, 0, false, 12)
        }
    }
}

/// An unprefixed or DD/FD-prefixed instruction whose main opcode is at
/// offset `start`.
pub open spec fn main_spec(mem: Seq<u8>, pc: u16, start: int, idx: Option<Idx>) -> Decoded {
    let (instr, k, t, t_extra, idx_mem, idx_mem_extra) = main_table(mem, pc, start, idx);
    let t2 = match idx {
        Some(_) => if idx_mem { t + idx_mem_extra } else { t + 4 },
        None => t,
    };
    Decoded {
        instr,
        len: k as u8,
        t: t2 as u8,
        t_extra: t_extra as u8,
        m1: if idx is Some { 2 } else { 1 },
    }
}

/// A CB-prefixed instruction.
pub open spec fn cb_spec(mem: Seq<u8>, pc: u16) -> Decoded {
    let op = fetch(mem, pc, 1) as int;
    let x = op / 64;
    let y = (op / 8) % 8;
    let z = op % 8;
    let target = if z == 6 { Op8::Mem(Addr::HL) } else { Op8::Reg(reg_plain_spec(z)) };
    let instr = if x == 0 {
        Instr::Rot(rot_spec(y), target, None)
    } else if x == 1 {
        Instr::Bit(y as u8, target)
    } else if x == 2 {
        Instr::Res(y as u8, target, None)
    } else {
        Instr::SetBit(y as u8, target, None)
    };
    let t: u8 = if z != 6 { 8 } else if x == 1 { 12 } else { 15 };
    Decoded { instr, len: 2, t, t_extra: 0, m1: 2 }
}

/// A DDCB or FDCB instruction: the displacement comes before the opcode.
pub open spec fn idx_cb_spec(mem: Seq<u8>, pc: u16, idx: Idx) -> Decoded {
    let d = signed(fetch(mem, pc, 2)) as i8;
    let op = fetch(mem, pc, 3) as int;
    let x = op / 64;
    let y = (op / 8) % 8;
    let z = op % 8;
    let target = Op8::Mem(Addr::Idx(idx, d));
    let copy = if z == 6 { None } else { Some(reg_plain_spec(z)) };
    let instr = if x == 0 {
        Instr::Rot(rot_spec(y), target, copy)
    } else if x == 1 {
        Instr::Bit(y as u8, target)
    } else if x == 2 {
        Instr::Res(y as u8, target, copy)
    } else {
        Instr::SetBit(y as u8, target, copy)
    };
    Decoded { instr, len: 4, t: if x == 1 { 20 } else { 23 }, t_extra: 0, m1: 2 }
}

pub open spec fn block_table(row: int, col: int) -> BlockOp {
    if row == 0 {
        if col == 0 { BlockOp::Ldi } else if col == 1 { BlockOp::Cpi } else if col == 2 { BlockOp::Ini } else { BlockOp::Outi }
    } else if row == 1 {
        if col == 0 { BlockOp::Ldd } else if col == 1 { BlockOp::Cpd } else if col == 2 { BlockOp::Ind } else { BlockOp::Outd }
    } else if row == 2 {
        if col == 0 { BlockOp::Ldir } else if col == 1 { BlockOp::Cpir } else if col == 2 { BlockOp::Inir } else { BlockOp::Otir }
    } else {
        if col == 0 { BlockOp::Lddr } else if col == 1 { BlockOp::Cpdr } else if col == 2 { BlockOp::Indr } else { BlockOp::Otdr }
    }
}

pub open spec fn im_table(y: int) -> u8 {
    if y == 2 || y == 6 {
        1
    } else if y == 3 || y == 7 {
        2
    } else {
        0
    }
}

/// An ED-prefixed instruction: the instruction, its length, T-states and
/// extra T-states.
pub open spec fn ed_table(mem: Seq<u8>, pc: u16) -> (Instr, int, int, int) {
    let op = fetch(mem, pc, 1) as int;
    let x = op / 64;
    let y = (op / 8) % 8;
    let z = op % 8;
    let p = y / 2;
    let q = y % 2;
    let r = if y == 6 { None } else { Some(reg_plain_spec(y)) };
    if x == 1 {
        if z == 0 {
            (Instr::InC(r), 2, 12, 0)
        } else if z == 1 {
            (Instr::OutC(r), 2, 12, 0)
        } else if z == 2 {
            if q == 0 {
                (Instr::Sbc16(rp_spec(p, Reg16::HL)), 2, 15, 0)
            } else {
                (Instr::Adc16(rp_spec(p, Reg16::HL)), 2, 15, 0)
            }
        } else if z == 3 {
            let nn = word_at(mem, pc, 2);
            if q == 0 {
                (Instr::Ld16Store(nn, rp_spec(p, Reg16::HL)), 4, 20, 0)
            } else {
                (Instr::Ld16Load(rp_spec(p, Reg16::HL), nn), 4, 20, 0)
            }
        } else if z == 4 {
            (Instr::Neg, 2, 8, 0)
        } else if z == 5 {
            (if y == 1 { Instr::Reti } else { Instr::Retn }, 2, 14, 0)
        } else if z == 6 {
            (Instr::Im(im_table(y)), 2, 8, 0)
        } else {
            if y == 0 {
                (Instr::LdIA, 2, 9, 0)
            } else if y == 1 {
                (Instr::LdRA, 2, 9, 0)
            } else if y == 2 {
                (Instr::LdAI, 2, 9, 0)
            } else if y == 3 {
                (Instr::LdAR, 2, 9, 0)
            } else if y == 4 {
                (Instr::Rrd, 2, 18, 0)
            } else if y == 5 {
                (Instr::Rld, 2, 18, 0)
            } else {
                (Instr::Nop, 2, 8, 0)
            }
        }
    } else if x == 2 && z <= 3 && y >= 4 {
        let op = block_table(y - 4, z);
        (Instr::Block(op), 2, 16, if repeats_spec(op) { 5int } else { 0int })
    } else {
        (Instr::Nop, 2, 8, 0)
    }
}

pub open spec fn ed_spec(mem: Seq<u8>, pc: u16) -> Decoded {
    let (instr, len, t, t_extra) = ed_table(mem, pc);
    Decoded { instr, len: len as u8, t: t as u8, t_extra: t_extra as u8, m1: 2 }
}

/// What the bytes at `pc` decode to.
#[verifier::opaque]
pub open spec fn decode_spec(mem: Seq<u8>, pc: u16) -> Decoded {
    let b0 = fetch(mem, pc, 0);
    if b0 == 0xCB {
        cb_spec(mem, pc)
    } else if b0 == 0xED {
        ed_spec(mem, pc)
    } else if b0 == 0xDD || b0 == 0xFD {
        let idx = if b0 == 0xDD { Idx::IX } else { Idx::IY };
        let b1 = fetch(mem, pc, 1);
        if b1 == 0xDD || b1 == 0xFD || b1 == 0xED {
            // A prefix followed by another prefix acts as a 4 T-state NOP.
            Decoded { instr: Instr::Nop, len: 1, t: 4, t_extra: 0, m1: 1 }
        } else if b1 == 0xCB {
            idx_cb_spec(mem, pc, idx)
        } else {
            main_spec(mem, pc, 1, Some(idx))
        }
    } else {
        main_spec(mem, pc, 0, None)
    }
}

// ---------------------------------------------------------------------------
// Reading the bytes.

/// Where the decoder has got to: the instruction's address and how many of
/// its bytes have been read.
struct Cursor {
    pc: u16,
    len: u8,
}

fn byte(mem: &[u8], c: &mut Cursor) -> (v: u8)
    requires
        mem@.len() > 0,
        old(c).len < 8,
    ensures
        v == fetch(mem@, old(c).pc, old(c).len as int),
        final(c).pc == old(c).pc,
        final(c).len == old(c).len + 1,
{
    let a = ((c.pc as u32 + c.len as u32) % 65536) as usize;
    let v = mem[a % mem.len()];
    c.len = c.len + 1;
    v
}

fn word(mem: &[u8], c: &mut Cursor) -> (v: u16)
    requires
        mem@.len() > 0,
        old(c).len < 7,
    ensures
        v == word_at(mem@, old(c).pc, old(c).len as int),
        final(c).pc == old(c).pc,
        final(c).len == old(c).len + 2,
{
    let lo = byte(mem, c) as u16;
    let hi = byte(mem, c) as u16;
    lo + 256 * hi
}

fn to_i8(b: u8) -> (r: i8)
    ensures
        r == signed(b),
{
    if b < 128 {
        b as i8
    } else {
        (b as i16 - 256) as i8
    }
}

/// Reads a relative displacement and returns the absolute target.
fn rel(mem: &[u8], c: &mut Cursor) -> (v: u16)
    requires
        mem@.len() > 0,
        old(c).len < 8,
    ensures
        v == rel_at(mem@, old(c).pc, old(c).len as int),
        final(c).pc == old(c).pc,
        final(c).len == old(c).len + 1,
{
    let d = byte(mem, c);
    let after = c.pc as u32 + c.len as u32;
    if d < 128 {
        ((after + d as u32) % 65536) as u16
    } else {
        ((after + 65536 - 256 + d as u32) % 65536) as u16
    }
}

fn cc(i: u8) -> (r: Cond)
    requires
        i < 8,
    ensures
        r == cc_spec(i as int),
{
    match i {
        0 => Cond::NZ,
        1 => Cond::Z,
        2 => Cond::NC,
        3 => Cond::C,
        4 => Cond::PO,
        5 => Cond::PE,
        6 => Cond::P,
        _ => Cond::M,
    }
}

fn alu_op(i: u8) -> (r: AluOp)
    requires
        i < 8,
    ensures
        r == alu_spec(i as int),
{
    match i {
        0 => AluOp::Add,
        1 => AluOp::Adc,
        2 => AluOp::Sub,
        3 => AluOp::Sbc,
        4 => AluOp::And,
        5 => AluOp::Xor,
        6 => AluOp::Or,
        _ => AluOp::Cp,
    }
}

fn rot_op(i: u8) -> (r: RotOp)
    requires
        i < 8,
    ensures
        r == rot_spec(i as int),
{
    match i {
        0 => RotOp::Rlc,
        1 => RotOp::Rrc,
        2 => RotOp::Rl,
        3 => RotOp::Rr,
        4 => RotOp::Sla,
        5 => RotOp::Sra,
        6 => RotOp::Sll,
        _ => RotOp::Srl,
    }
}

fn reg_plain(i: u8) -> (r: Reg8)
    requires
        i < 8,
        i != 6,
    ensures
        r == reg_plain_spec(i as int),
{
    match i {
        0 => Reg8::B,
        1 => Reg8::C,
        2 => Reg8::D,
        3 => Reg8::E,
        4 => Reg8::H,
        5 => Reg8::L,
        _ => Reg8::A,
    }
}

fn reg_idx(i: u8, idx: Option<Idx>) -> (r: Reg8)
    requires
        i < 8,
        i != 6,
    ensures
        r == reg_idx_spec(i as int, idx),
{
    match (i, idx) {
        (4, Some(Idx::IX)) => Reg8::IXH,
        (5, Some(Idx::IX)) => Reg8::IXL,
        (4, Some(Idx::IY)) => Reg8::IYH,
        (5, Some(Idx::IY)) => Reg8::IYL,
        _ => reg_plain(i),
    }
}

fn rp(p: u8, hl: Reg16) -> (r: Reg16)
    requires
        p < 4,
    ensures
        r == rp_spec(p as int, hl),
{
    match p {
        0 => Reg16::BC,
        1 => Reg16::DE,
        2 => hl,
        _ => Reg16::SP,
    }
}

fn rp2(p: u8, hl: Reg16) -> (r: Reg16)
    requires
        p < 4,
    ensures
        r == rp2_spec(p as int, hl),
{
    match p {
        0 => Reg16::BC,
        1 => Reg16::DE,
        2 => hl,
        _ => Reg16::AF,
    }
}

fn op8(mem: &[u8], c: &mut Cursor, idx: Option<Idx>, i: u8) -> (r: (Op8, bool))
    requires
        mem@.len() > 0,
        old(c).len < 8,
        i < 8,
    ensures
        ({
            let (o, k, im) = op8_spec(mem@, old(c).pc, old(c).len as int, idx, i as int);
            r.0 == o && final(c).len == k && r.1 == im
        }),
        final(c).pc == old(c).pc,
        final(c).len <= old(c).len + 1,
{
    if i == 6 {
        match idx {
            None => (Op8::Mem(Addr::HL), false),
            Some(ix) => {
                let d = byte(mem, c);
                (Op8::Mem(Addr::Idx(ix, to_i8(d))), true)
            },
        }
    } else {
        (Op8::Reg(reg_idx(i, idx)), false)
    }
}

/// Decodes the instruction at `pc`, reading bytes from `mem`, which is
/// taken to repeat every `mem.len()` bytes.
pub fn decode(mem: &[u8], pc: u16) -> (d: Decoded)
    requires
        mem@.len() > 0,
    ensures
        d == decode_spec(mem@, pc),
        1 <= d.len <= 4,
        d.m1 == 1 || d.m1 == 2,
        4 <= d.t <= 23,
        d.t_extra <= 7,
{
    reveal(decode_spec);
    let mut c = Cursor { pc, len: 0 };
    let b0 = byte(mem, &mut c);
    if b0 == 0xCB {
        decode_cb(mem, pc)
    } else if b0 == 0xED {
        decode_ed(mem, pc)
    } else if b0 == 0xDD || b0 == 0xFD {
        let idx = if b0 == 0xDD { Idx::IX } else { Idx::IY };
        let b1 = byte(mem, &mut c);
        if b1 == 0xDD || b1 == 0xFD || b1 == 0xED {
            Decoded { instr: Instr::Nop, len: 1, t: 4, t_extra: 0, m1: 1 }
        } else if b1 == 0xCB {
            decode_idx_cb(mem, pc, idx)
        } else {
            decode_main(mem, pc, 1, Some(idx))
        }
    } else {
        decode_main(mem, pc, 0, None)
    }
}

#[verifier::rlimit(40)]
fn decode_main(mem: &[u8], pc: u16, start: u8, idx: Option<Idx>) -> (d: Decoded)
    requires
        mem@.len() > 0,
        start <= 1,
        fetch(mem@, pc, start as int) != 0xCB,
        fetch(mem@, pc, start as int) != 0xDD,
        fetch(mem@, pc, start as int) != 0xED,
        fetch(mem@, pc, start as int) != 0xFD,
    ensures
        d == main_spec(mem@, pc, start as int, idx),
        1 <= d.len <= 4,
        d.m1 == 1 || d.m1 == 2,
        4 <= d.t <= 23,
        d.t_extra <= 7,
{
    let mut c = Cursor { pc, len: start };
    let op = byte(mem, &mut c);
    let x = op / 64;
    let y = (op / 8) % 8;
    let z = op % 8;
    let p = y / 2;
    let q = y % 2;
    let hl = match idx {
        None => Reg16::HL,
        Some(i) => i.reg16(),
    };
    let mut idx_mem = false;
    let mut idx_mem_extra: u8 = 12;
    let a = Op8::Reg(Reg8::A);

    let (instr, t, t_extra): (Instr, u8, u8) = if x == 0 {
        if z == 0 {
            if y == 0 {
                (Instr::Nop, 4, 0)
            } else if y == 1 {
                (Instr::ExAf, 4, 0)
            } else if y == 2 {
                (Instr::Djnz(rel(mem, &mut c)), 8, 5)
            } else if y == 3 {
                (Instr::Jr(None, rel(mem, &mut c)), 12, 0)
            } else {
                let cond = cc(y - 4);
                (Instr::Jr(Some(cond), rel(mem, &mut c)), 7, 5)
            }
        } else if z == 1 {
            if q == 0 {
                let r = rp(p, hl);
                (Instr::Ld16(r, word(mem, &mut c)), 10, 0)
            } else {
                (Instr::Add16(hl, rp(p, hl)), 11, 0)
            }
        } else if z == 2 {
            if q == 0 {
                if p == 0 {
                    (Instr::Ld8(Op8::Mem(Addr::BC), a), 7, 0)
                } else if p == 1 {
                    (Instr::Ld8(Op8::Mem(Addr::DE), a), 7, 0)
                } else if p == 2 {
                    (Instr::Ld16Store(word(mem, &mut c), hl), 16, 0)
                } else {
                    (Instr::Ld8(Op8::Mem(Addr::Abs(word(mem, &mut c))), a), 13, 0)
                }
            } else {
                if p == 0 {
                    (Instr::Ld8(a, Op8::Mem(Addr::BC)), 7, 0)
                } else if p == 1 {
                    (Instr::Ld8(a, Op8::Mem(Addr::DE)), 7, 0)
                } else if p == 2 {
                    (Instr::Ld16Load(hl, word(mem, &mut c)), 16, 0)
                } else {
                    (Instr::Ld8(a, Op8::Mem(Addr::Abs(word(mem, &mut c)))), 13, 0)
                }
            }
        } else if z == 3 {
            if q == 0 {
                (Instr::Inc16(rp(p, hl)), 6, 0)
            } else {
                (Instr::Dec16(rp(p, hl)), 6, 0)
            }
        } else if z == 4 || z == 5 {
            let (o, im) = op8(mem, &mut c, idx, y);
            idx_mem = im;
            let t: u8 = if matches!(o, Op8::Mem(_)) { 11 } else { 4 };
            (if z == 4 { Instr::Inc8(o) } else { Instr::Dec8(o) }, t, 0)
        } else if z == 6 {
            let (o, im) = op8(mem, &mut c, idx, y);
            idx_mem = im;
            let n = byte(mem, &mut c);
            idx_mem_extra = 9;
            let t: u8 = if matches!(o, Op8::Mem(_)) { 10 } else { 7 };
            (Instr::Ld8(o, Op8::Imm(n)), t, 0)
        } else {
            let i = if y == 0 {
                Instr::Rlca
            } else if y == 1 {
                Instr::Rrca
            } else if y == 2 {
                Instr::Rla
            } else if y == 3 {
                Instr::Rra
            } else if y == 4 {
                Instr::Daa
            } else if y == 5 {
                Instr::Cpl
            } else if y == 6 {
                Instr::Scf
            } else {
                Instr::Ccf
            };
            (i, 4, 0)
        }
    } else if x == 1 {
        if y == 6 && z == 6 {
            (Instr::Halt, 4, 0)
        } else if z == 6 {
            // With (IX+d), the other operand stays H/L rather than IXH/IXL.
            let (src, im) = op8(mem, &mut c, idx, 6);
            idx_mem = im;
            (Instr::Ld8(Op8::Reg(reg_plain(y)), src), 7, 0)
        } else if y == 6 {
            let (dst, im) = op8(mem, &mut c, idx, 6);
            idx_mem = im;
            (Instr::Ld8(dst, Op8::Reg(reg_plain(z))), 7, 0)
        } else {
            (Instr::Ld8(Op8::Reg(reg_idx(y, idx)), Op8::Reg(reg_idx(z, idx))), 4, 0)
        }
    } else if x == 2 {
        let (o, im) = op8(mem, &mut c, idx, z);
        idx_mem = im;
        let t: u8 = if matches!(o, Op8::Mem(_)) { 7 } else { 4 };
        (Instr::Alu(alu_op(y), o), t, 0)
    } else {
        if z == 0 {
            (Instr::Ret(Some(cc(y))), 5, 6)
        } else if z == 1 {
            if q == 0 {
                (Instr::Pop(rp2(p, hl)), 10, 0)
            } else if p == 0 {
                (Instr::Ret(None), 10, 0)
            } else if p == 1 {
                (Instr::Exx, 4, 0)
            } else if p == 2 {
                (Instr::JpInd(hl), 4, 0)
            } else {
                (Instr::LdSp(hl), 6, 0)
            }
        } else if z == 2 {
            let cond = cc(y);
            (Instr::Jp(Some(cond), word(mem, &mut c)), 10, 0)
        } else if z == 3 {
            if y == 0 {
                (Instr::Jp(None, word(mem, &mut c)), 10, 0)
            } else if y == 2 {
                (Instr::OutA(byte(mem, &mut c)), 11, 0)
            } else if y == 3 {
                (Instr::InA(byte(mem, &mut c)), 11, 0)
            } else if y == 4 {
                (Instr::ExSp(hl), 19, 0)
            } else if y == 5 {
                (Instr::ExDeHl, 4, 0)
            } else if y == 6 {
                (Instr::Di, 4, 0)
            } else {
                (Instr::Ei, 4, 0)
            }
        } else if z == 4 {
            let cond = cc(y);
            (Instr::Call(Some(cond), word(mem, &mut c)), 10, 7)
        } else if z == 5 {
            if q == 0 {
                (Instr::Push(rp2(p, hl)), 11, 0)
            } else {
                (Instr::Call(None, word(mem, &mut c)), 17, 0)
            }
        } else if z == 6 {
            (Instr::Alu(alu_op(y), Op8::Imm(byte(mem, &mut c))), 7, 0)
        } else {
            (Instr::Rst(y * 8), 11, 0)
        }
    };

    let t = match idx {
        Some(_) => if idx_mem { t + idx_mem_extra } else { t + 4 },
        None => t,
    };
    Decoded { instr, len: c.len, t, t_extra, m1: if idx.is_some() { 2 } else { 1 } }
}

fn decode_cb(mem: &[u8], pc: u16) -> (d: Decoded)
    requires
        mem@.len() > 0,
    ensures
        d == cb_spec(mem@, pc),
        8 <= d.t <= 15,
        d.t_extra == 0,
{
    let mut c = Cursor { pc, len: 1 };
    let op = byte(mem, &mut c);
    let x = op / 64;
    let y = (op / 8) % 8;
    let z = op % 8;
    let target = if z == 6 { Op8::Mem(Addr::HL) } else { Op8::Reg(reg_plain(z)) };
    let instr = if x == 0 {
        Instr::Rot(rot_op(y), target, None)
    } else if x == 1 {
        Instr::Bit(y, target)
    } else if x == 2 {
        Instr::Res(y, target, None)
    } else {
        Instr::SetBit(y, target, None)
    };
    let t: u8 = if z != 6 { 8 } else if x == 1 { 12 } else { 15 };
    Decoded { instr, len: 2, t, t_extra: 0, m1: 2 }
}

fn decode_idx_cb(mem: &[u8], pc: u16, idx: Idx) -> (d: Decoded)
    requires
        mem@.len() > 0,
    ensures
        d == idx_cb_spec(mem@, pc, idx),
        20 <= d.t <= 23,
        d.t_extra == 0,
{
    let mut c = Cursor { pc, len: 2 };
    let d = to_i8(byte(mem, &mut c));
    let op = byte(mem, &mut c);
    let x = op / 64;
    let y = (op / 8) % 8;
    let z = op % 8;
    let target = Op8::Mem(Addr::Idx(idx, d));
    let copy = if z == 6 { None } else { Some(reg_plain(z)) };
    let instr = if x == 0 {
        Instr::Rot(rot_op(y), target, copy)
    } else if x == 1 {
        Instr::Bit(y, target)
    } else if x == 2 {
        Instr::Res(y, target, copy)
    } else {
        Instr::SetBit(y, target, copy)
    };
    Decoded { instr, len: 4, t: if x == 1 { 20 } else { 23 }, t_extra: 0, m1: 2 }
}

fn block_op(row: u8, col: u8) -> (b: BlockOp)
    requires
        row < 4,
        col < 4,
    ensures
        b == block_table(row as int, col as int),
{
    match (row, col) {
        (0, 0) => BlockOp::Ldi,
        (0, 1) => BlockOp::Cpi,
        (0, 2) => BlockOp::Ini,
        (0, _) => BlockOp::Outi,
        (1, 0) => BlockOp::Ldd,
        (1, 1) => BlockOp::Cpd,
        (1, 2) => BlockOp::Ind,
        (1, _) => BlockOp::Outd,
        (2, 0) => BlockOp::Ldir,
        (2, 1) => BlockOp::Cpir,
        (2, 2) => BlockOp::Inir,
        (2, _) => BlockOp::Otir,
        (_, 0) => BlockOp::Lddr,
        (_, 1) => BlockOp::Cpdr,
        (_, 2) => BlockOp::Indr,
        (_, _) => BlockOp::Otdr,
    }
}

#[verifier::rlimit(30)]
fn decode_ed(mem: &[u8], pc: u16) -> (d: Decoded)
    requires
        mem@.len() > 0,
    ensures
        d == ed_spec(mem@, pc),
        8 <= d.t <= 20,
        d.t_extra <= 5,
{
    let mut c = Cursor { pc, len: 1 };
    let op = byte(mem, &mut c);
    let x = op / 64;
    let y = (op / 8) % 8;
    let z = op % 8;
    let p = y / 2;
    let q = y % 2;
    let r = if y == 6 { None } else { Some(reg_plain(y)) };
    let (instr, t, t_extra): (Instr, u8, u8) = if x == 1 {
        if z == 0 {
            (Instr::InC(r), 12, 0)
        } else if z == 1 {
            (Instr::OutC(r), 12, 0)
        } else if z == 2 {
            if q == 0 {
                (Instr::Sbc16(rp(p, Reg16::HL)), 15, 0)
            } else {
                (Instr::Adc16(rp(p, Reg16::HL)), 15, 0)
            }
        } else if z == 3 {
            let nn = word(mem, &mut c);
            if q == 0 {
                (Instr::Ld16Store(nn, rp(p, Reg16::HL)), 20, 0)
            } else {
                (Instr::Ld16Load(rp(p, Reg16::HL), nn), 20, 0)
            }
        } else if z == 4 {
            (Instr::Neg, 8, 0)
        } else if z == 5 {
            (if y == 1 { Instr::Reti } else { Instr::Retn }, 14, 0)
        } else if z == 6 {
            let m: u8 = if y == 2 || y == 6 { 1 } else if y == 3 || y == 7 { 2 } else { 0 };
            (Instr::Im(m), 8, 0)
        } else {
            if y == 0 {
                (Instr::LdIA, 9, 0)
            } else if y == 1 {
                (Instr::LdRA, 9, 0)
            } else if y == 2 {
                (Instr::LdAI, 9, 0)
            } else if y == 3 {
                (Instr::LdAR, 9, 0)
            } else if y == 4 {
                (Instr::Rrd, 18, 0)
            } else if y == 5 {
                (Instr::Rld, 18, 0)
            } else {
                (Instr::Nop, 8, 0)
            }
        }
    } else if x == 2 && z <= 3 && y >= 4 {
        let op = block_op(y - 4, z);
        (Instr::Block(op), 16, if op.repeats() { 5 } else { 0 })
    } else {
        (Instr::Nop, 8, 0)
    };
    Decoded { instr, len: c.len, t, t_extra, m1: 2 }
}

} // verus!
