//! Disassembly: the text of a decoded instruction, in lower case with `$`
//! hex numbers, as the listings print it.

use vstd::prelude::*;
use vstd::string::StringExecFns;
use crate::text::{digit, hex2, hex4, hex_digit, push_char, push_hex2, push_hex4};
use crate::decode::{Addr, AluOp, BlockOp, Cond, Instr, Op8, Reg16, Reg8, RotOp, idx_reg16};
use crate::machine::{Zx, CF, PF, SF, ZF};

verus! {

pub open spec fn reg8_text(r: Reg8) -> Seq<char> {
    match r {
        Reg8::B => "b"@,
        Reg8::C => "c"@,
        Reg8::D => "d"@,
        Reg8::E => "e"@,
        Reg8::H => "h"@,
        Reg8::L => "l"@,
        Reg8::A => "a"@,
        Reg8::IXH => "ixh"@,
        Reg8::IXL => "ixl"@,
        Reg8::IYH => "iyh"@,
        Reg8::IYL => "iyl"@,
    }
}

pub open spec fn reg16_text(r: Reg16) -> Seq<char> {
    match r {
        Reg16::BC => "bc"@,
        Reg16::DE => "de"@,
        Reg16::HL => "hl"@,
        Reg16::SP => "sp"@,
        Reg16::AF => "af"@,
        Reg16::IX => "ix"@,
        Reg16::IY => "iy"@,
    }
}

pub open spec fn cond_text(c: Cond) -> Seq<char> {
    match c {
        Cond::NZ => "nz"@,
        Cond::Z => "z"@,
        Cond::NC => "nc"@,
        Cond::C => "c"@,
        Cond::PO => "po"@,
        Cond::PE => "pe"@,
        Cond::P => "p"@,
        Cond::M => "m"@,
    }
}

/// The text of a condition names the test it makes: "nz" and "z" the zero
/// flag clear and set, "nc" and "c" the carry, "po" and "pe" the
/// parity/overflow flag clear (parity odd) and set (parity even), "p" and
/// "m" the sign flag clear (plus) and set (minus).
pub proof fn cond_text_names_its_test(c: Cond, z: Zx)
    ensures
        cond_text(c) == "nz"@ ==> z.cond_spec(c) == (z.f & ZF == 0),
        cond_text(c) == "z"@ ==> z.cond_spec(c) == (z.f & ZF != 0),
        cond_text(c) == "nc"@ ==> z.cond_spec(c) == (z.f & CF == 0),
        cond_text(c) == "c"@ ==> z.cond_spec(c) == (z.f & CF != 0),
        cond_text(c) == "po"@ ==> z.cond_spec(c) == (z.f & PF == 0),
        cond_text(c) == "pe"@ ==> z.cond_spec(c) == (z.f & PF != 0),
        cond_text(c) == "p"@ ==> z.cond_spec(c) == (z.f & SF == 0),
        cond_text(c) == "m"@ ==> z.cond_spec(c) == (z.f & SF != 0),
{
    reveal_strlit("nz");
    reveal_strlit("z");
    reveal_strlit("nc");
    reveal_strlit("c");
    reveal_strlit("po");
    reveal_strlit("pe");
    reveal_strlit("p");
    reveal_strlit("m");
    let t = cond_text(c);
    assert(t.len() == 1 ==> t != "nz"@ && t != "nc"@ && t != "po"@ && t != "pe"@);
    assert(t.len() == 2 ==> t != "z"@ && t != "c"@ && t != "p"@ && t != "m"@);
    assert(t.len() == 1 ==> t[0] == 'z' || t[0] == 'c' || t[0] == 'p' || t[0] == 'm');
    assert("nz"@[1] != "nc"@[1] && "po"@[1] != "pe"@[1] && "nz"@[0] != "po"@[0]);
    assert("nz"@ != "nc"@ && "nz"@ != "po"@ && "nz"@ != "pe"@);
    assert("nc"@ != "po"@ && "nc"@ != "pe"@ && "po"@ != "pe"@);
}

pub open spec fn addr_text(a: Addr) -> Seq<char> {
    match a {
        Addr::BC => "(bc)"@,
        Addr::DE => "(de)"@,
        Addr::HL => "(hl)"@,
        Addr::Idx(i, d) => if d < 0 {
            "("@ + reg16_text(idx_reg16(i)) + "-$"@ + hex2(-(d as int)) + ")"@
        } else {
            "("@ + reg16_text(idx_reg16(i)) + "+$"@ + hex2(d as int) + ")"@
        },
        Addr::Abs(nn) => "($"@ + hex4(nn as int) + ")"@,
    }
}

pub open spec fn op8_text(o: Op8) -> Seq<char> {
    match o {
        Op8::Reg(r) => reg8_text(r),
        Op8::Mem(a) => addr_text(a),
        Op8::Imm(n) => "$"@ + hex2(n as int),
    }
}

pub open spec fn alu_text(op: AluOp) -> Seq<char> {
    match op {
        AluOp::Add => "add a,"@,
        AluOp::Adc => "adc a,"@,
        AluOp::Sub => "sub "@,
        AluOp::Sbc => "sbc a,"@,
        AluOp::And => "and "@,
        AluOp::Xor => "xor "@,
        AluOp::Or => "or "@,
        AluOp::Cp => "cp "@,
    }
}

pub open spec fn rot_text(op: RotOp) -> Seq<char> {
    match op {
        RotOp::Rlc => "rlc"@,
        RotOp::Rrc => "rrc"@,
        RotOp::Rl => "rl"@,
        RotOp::Rr => "rr"@,
        RotOp::Sla => "sla"@,
        RotOp::Sra => "sra"@,
        RotOp::Sll => "sll"@,
        RotOp::Srl => "srl"@,
    }
}

pub open spec fn block_text(op: BlockOp) -> Seq<char> {
    match op {
        BlockOp::Ldi => "ldi"@,
        BlockOp::Ldd => "ldd"@,
        BlockOp::Ldir => "ldir"@,
        BlockOp::Lddr => "lddr"@,
        BlockOp::Cpi => "cpi"@,
        BlockOp::Cpd => "cpd"@,
        BlockOp::Cpir => "cpir"@,
        BlockOp::Cpdr => "cpdr"@,
        BlockOp::Ini => "ini"@,
        BlockOp::Ind => "ind"@,
        BlockOp::Inir => "inir"@,
        BlockOp::Indr => "indr"@,
        BlockOp::Outi => "outi"@,
        BlockOp::Outd => "outd"@,
        BlockOp::Otir => "otir"@,
        BlockOp::Otdr => "otdr"@,
    }
}

/// A condition and its comma, or nothing.
pub open spec fn cc_text(c: Option<Cond>) -> Seq<char> {
    match c {
        Some(c) => cond_text(c) + ","@,
        None => Seq::empty(),
    }
}

/// The DDCB copy register after its comma, or nothing.
pub open spec fn copy_text(r: Option<Reg8>) -> Seq<char> {
    match r {
        Some(r) => ","@ + reg8_text(r),
        None => Seq::empty(),
    }
}

/// A number in decimal, with no leading zeros.
pub open spec fn digit_text(n: u8) -> Seq<char> {
    if n < 10 {
        seq![hex_digit(n as int)]
    } else if n < 100 {
        seq![hex_digit(n as int / 10), hex_digit(n as int % 10)]
    } else {
        seq![hex_digit(n as int / 100), hex_digit((n as int / 10) % 10), hex_digit(n as int % 10)]
    }
}

/// An instruction's text.
pub open spec fn instr_text(i: Instr) -> Seq<char> {
    match i {
        Instr::Nop => "nop"@,
        Instr::Halt => "halt"@,
        Instr::Di => "di"@,
        Instr::Ei => "ei"@,
        Instr::Ld8(d, s) => "ld "@ + op8_text(d) + ","@ + op8_text(s),
        Instr::Ld16(r, nn) => "ld "@ + reg16_text(r) + ",$"@ + hex4(nn as int),
        Instr::Ld16Load(r, nn) => "ld "@ + reg16_text(r) + ",($"@ + hex4(nn as int) + ")"@,
        Instr::Ld16Store(nn, r) => "ld ($"@ + hex4(nn as int) + "),"@ + reg16_text(r),
        Instr::LdSp(r) => "ld sp,"@ + reg16_text(r),
        Instr::Push(r) => "push "@ + reg16_text(r),
        Instr::Pop(r) => "pop "@ + reg16_text(r),
        Instr::ExDeHl => "ex de,hl"@,
        Instr::ExAf => "ex af,af'"@,
        Instr::Exx => "exx"@,
        Instr::ExSp(r) => "ex (sp),"@ + reg16_text(r),
        Instr::Alu(op, s) => alu_text(op) + op8_text(s),
        Instr::Inc8(o) => "inc "@ + op8_text(o),
        Instr::Dec8(o) => "dec "@ + op8_text(o),
        Instr::Inc16(r) => "inc "@ + reg16_text(r),
        Instr::Dec16(r) => "dec "@ + reg16_text(r),
        Instr::Add16(d, s) => "add "@ + reg16_text(d) + ","@ + reg16_text(s),
        Instr::Adc16(s) => "adc hl,"@ + reg16_text(s),
        Instr::Sbc16(s) => "sbc hl,"@ + reg16_text(s),
        Instr::Daa => "daa"@,
        Instr::Cpl => "cpl"@,
        Instr::Neg => "neg"@,
        Instr::Ccf => "ccf"@,
        Instr::Scf => "scf"@,
        Instr::Rlca => "rlca"@,
        Instr::Rrca => "rrca"@,
        Instr::Rla => "rla"@,
        Instr::Rra => "rra"@,
        Instr::Rld => "rld"@,
        Instr::Rrd => "rrd"@,
        Instr::Rot(op, o, c) => rot_text(op) + " "@ + op8_text(o) + copy_text(c),
        Instr::Bit(n, o) => "bit "@ + digit_text(n) + ","@ + op8_text(o),
        Instr::Res(n, o, c) => "res "@ + digit_text(n) + ","@ + op8_text(o) + copy_text(c),
        Instr::SetBit(n, o, c) => "set "@ + digit_text(n) + ","@ + op8_text(o) + copy_text(c),
        Instr::Jp(c, a) => "jp "@ + cc_text(c) + "$"@ + hex4(a as int),
        Instr::JpInd(r) => "jp ("@ + reg16_text(r) + ")"@,
        Instr::Jr(c, a) => "jr "@ + cc_text(c) + "$"@ + hex4(a as int),
        Instr::Djnz(a) => "djnz $"@ + hex4(a as int),
        Instr::Call(c, a) => "call "@ + cc_text(c) + "$"@ + hex4(a as int),
        Instr::Ret(Some(c)) => "ret "@ + cond_text(c),
        Instr::Ret(None) => "ret"@,
        Instr::Reti => "reti"@,
        Instr::Retn => "retn"@,
        Instr::Rst(n) => "rst $"@ + hex2(n as int),
        Instr::InA(n) => "in a,($"@ + hex2(n as int) + ")"@,
        Instr::InC(Some(r)) => "in "@ + reg8_text(r) + ",(c)"@,
        Instr::InC(None) => "in (c)"@,
        Instr::OutA(n) => "out ($"@ + hex2(n as int) + "),a"@,
        Instr::OutC(Some(r)) => "out (c),"@ + reg8_text(r),
        Instr::OutC(None) => "out (c),0"@,
        Instr::Block(op) => block_text(op),
        Instr::Im(m) => "im "@ + digit_text(m),
        Instr::LdIA => "ld i,a"@,
        Instr::LdRA => "ld r,a"@,
        Instr::LdAI => "ld a,i"@,
        Instr::LdAR => "ld a,r"@,
    }
}

impl Reg8 {
    pub fn name(&self) -> (s: &'static str)
        ensures
            s@ == reg8_text(*self),
    {
        match self {
            Reg8::B => "b",
            Reg8::C => "c",
            Reg8::D => "d",
            Reg8::E => "e",
            Reg8::H => "h",
            Reg8::L => "l",
            Reg8::A => "a",
            Reg8::IXH => "ixh",
            Reg8::IXL => "ixl",
            Reg8::IYH => "iyh",
            Reg8::IYL => "iyl",
        }
    }
}

impl Reg16 {
    pub fn name(&self) -> (s: &'static str)
        ensures
            s@ == reg16_text(*self),
    {
        match self {
            Reg16::BC => "bc",
            Reg16::DE => "de",
            Reg16::HL => "hl",
            Reg16::SP => "sp",
            Reg16::AF => "af",
            Reg16::IX => "ix",
            Reg16::IY => "iy",
        }
    }
}

impl Cond {
    pub fn name(&self) -> (s: &'static str)
        ensures
            s@ == cond_text(*self),
    {
        match self {
            Cond::NZ => "nz",
            Cond::Z => "z",
            Cond::NC => "nc",
            Cond::C => "c",
            Cond::PO => "po",
            Cond::PE => "pe",
            Cond::P => "p",
            Cond::M => "m",
        }
    }
}

impl AluOp {
    /// The mnemonic and what comes between it and the operand.
    pub fn prefix(&self) -> (s: &'static str)
        ensures
            s@ == alu_text(*self),
    {
        match self {
            AluOp::Add => "add a,",
            AluOp::Adc => "adc a,",
            AluOp::Sub => "sub ",
            AluOp::Sbc => "sbc a,",
            AluOp::And => "and ",
            AluOp::Xor => "xor ",
            AluOp::Or => "or ",
            AluOp::Cp => "cp ",
        }
    }
}

impl RotOp {
    pub fn name(&self) -> (s: &'static str)
        ensures
            s@ == rot_text(*self),
    {
        match self {
            RotOp::Rlc => "rlc",
            RotOp::Rrc => "rrc",
            RotOp::Rl => "rl",
            RotOp::Rr => "rr",
            RotOp::Sla => "sla",
            RotOp::Sra => "sra",
            RotOp::Sll => "sll",
            RotOp::Srl => "srl",
        }
    }
}

impl BlockOp {
    pub fn name(&self) -> (s: &'static str)
        ensures
            s@ == block_text(*self),
    {
        match self {
            BlockOp::Ldi => "ldi",
            BlockOp::Ldd => "ldd",
            BlockOp::Ldir => "ldir",
            BlockOp::Lddr => "lddr",
            BlockOp::Cpi => "cpi",
            BlockOp::Cpd => "cpd",
            BlockOp::Cpir => "cpir",
            BlockOp::Cpdr => "cpdr",
            BlockOp::Ini => "ini",
            BlockOp::Ind => "ind",
            BlockOp::Inir => "inir",
            BlockOp::Indr => "indr",
            BlockOp::Outi => "outi",
            BlockOp::Outd => "outd",
            BlockOp::Otir => "otir",
            BlockOp::Otdr => "otdr",
        }
    }
}

fn push_addr(s: &mut String, a: Addr)
    ensures
        final(s)@ == old(s)@ + addr_text(a),
{
    match a {
        Addr::BC => s.append("(bc)"),
        Addr::DE => s.append("(de)"),
        Addr::HL => s.append("(hl)"),
        Addr::Idx(i, d) => {
            s.append("(");
            s.append(i.reg16().name());
            if d < 0 {
                s.append("-$");
                push_hex2(s, (-(d as i16)) as u8);
            } else {
                s.append("+$");
                push_hex2(s, d as u8);
            }
            s.append(")");
        },
        Addr::Abs(nn) => {
            s.append("($");
            push_hex4(s, nn);
            s.append(")");
        },
    }
    assert(final(s)@ =~= old(s)@ + addr_text(a));
}

fn push_op8(s: &mut String, o: Op8)
    ensures
        final(s)@ == old(s)@ + op8_text(o),
{
    match o {
        Op8::Reg(r) => s.append(r.name()),
        Op8::Mem(a) => push_addr(s, a),
        Op8::Imm(n) => {
            s.append("$");
            push_hex2(s, n);
        },
    }
    assert(final(s)@ =~= old(s)@ + op8_text(o));
}

fn push_cc(s: &mut String, c: Option<Cond>)
    ensures
        final(s)@ == old(s)@ + cc_text(c),
{
    if let Some(c) = c {
        s.append(c.name());
        s.append(",");
    }
    assert(final(s)@ =~= old(s)@ + cc_text(c));
}

fn push_copy(s: &mut String, r: Option<Reg8>)
    ensures
        final(s)@ == old(s)@ + copy_text(r),
{
    if let Some(r) = r {
        s.append(",");
        s.append(r.name());
    }
    assert(final(s)@ =~= old(s)@ + copy_text(r));
}

fn push_digit(s: &mut String, n: u8)
    ensures
        final(s)@ == old(s)@ + digit_text(n),
{
    if n < 10 {
        push_char(s, digit(n));
    } else if n < 100 {
        push_char(s, digit(n / 10));
        push_char(s, digit(n % 10));
    } else {
        push_char(s, digit(n / 100));
        push_char(s, digit((n / 10) % 10));
        push_char(s, digit(n % 10));
    }
    assert(final(s)@ =~= old(s)@ + digit_text(n));
}

fn push_reg16(s: &mut String, r: Reg16)
    ensures
        final(s)@ == old(s)@ + reg16_text(r),
{
    s.append(r.name());
}

impl Instr {
    /// The instruction's text, as a listing prints it.
    #[verifier::rlimit(40)]
    pub fn text(&self) -> (s: String)
        ensures
            s@ == instr_text(*self),
    {
        let mut s = String::new();
        let ghost e = s@;
        match *self {
            Instr::Nop => s.append("nop"),
            Instr::Halt => s.append("halt"),
            Instr::Di => s.append("di"),
            Instr::Ei => s.append("ei"),
            Instr::Ld8(d, o) => {
                s.append("ld ");
                push_op8(&mut s, d);
                s.append(",");
                push_op8(&mut s, o);
            },
            Instr::Ld16(r, nn) => {
                s.append("ld ");
                push_reg16(&mut s, r);
                s.append(",$");
                push_hex4(&mut s, nn);
            },
            Instr::Ld16Load(r, nn) => {
                s.append("ld ");
                push_reg16(&mut s, r);
                s.append(",($");
                push_hex4(&mut s, nn);
                s.append(")");
            },
            Instr::Ld16Store(nn, r) => {
                s.append("ld ($");
                push_hex4(&mut s, nn);
                s.append("),");
                push_reg16(&mut s, r);
            },
            Instr::LdSp(r) => {
                s.append("ld sp,");
                push_reg16(&mut s, r);
            },
            Instr::Push(r) => {
                s.append("push ");
                push_reg16(&mut s, r);
            },
            Instr::Pop(r) => {
                s.append("pop ");
                push_reg16(&mut s, r);
            },
            Instr::ExDeHl => s.append("ex de,hl"),
            Instr::ExAf => s.append("ex af,af'"),
            Instr::Exx => s.append("exx"),
            Instr::ExSp(r) => {
                s.append("ex (sp),");
                push_reg16(&mut s, r);
            },
            Instr::Alu(op, o) => {
                s.append(op.prefix());
                push_op8(&mut s, o);
            },
            Instr::Inc8(o) => {
                s.append("inc ");
                push_op8(&mut s, o);
            },
            Instr::Dec8(o) => {
                s.append("dec ");
                push_op8(&mut s, o);
            },
            Instr::Inc16(r) => {
                s.append("inc ");
                push_reg16(&mut s, r);
            },
            Instr::Dec16(r) => {
                s.append("dec ");
                push_reg16(&mut s, r);
            },
            Instr::Add16(d, o) => {
                s.append("add ");
                push_reg16(&mut s, d);
                s.append(",");
                push_reg16(&mut s, o);
            },
            Instr::Adc16(o) => {
                s.append("adc hl,");
                push_reg16(&mut s, o);
            },
            Instr::Sbc16(o) => {
                s.append("sbc hl,");
                push_reg16(&mut s, o);
            },
            Instr::Daa => s.append("daa"),
            Instr::Cpl => s.append("cpl"),
            Instr::Neg => s.append("neg"),
            Instr::Ccf => s.append("ccf"),
            Instr::Scf => s.append("scf"),
            Instr::Rlca => s.append("rlca"),
            Instr::Rrca => s.append("rrca"),
            Instr::Rla => s.append("rla"),
            Instr::Rra => s.append("rra"),
            Instr::Rld => s.append("rld"),
            Instr::Rrd => s.append("rrd"),
            Instr::Rot(op, o, c) => {
                s.append(op.name());
                s.append(" ");
                push_op8(&mut s, o);
                push_copy(&mut s, c);
            },
            Instr::Bit(n, o) => {
                s.append("bit ");
                push_digit(&mut s, n);
                s.append(",");
                push_op8(&mut s, o);
            },
            Instr::Res(n, o, c) => {
                s.append("res ");
                push_digit(&mut s, n);
                s.append(",");
                push_op8(&mut s, o);
                push_copy(&mut s, c);
            },
            Instr::SetBit(n, o, c) => {
                s.append("set ");
                push_digit(&mut s, n);
                s.append(",");
                push_op8(&mut s, o);
                push_copy(&mut s, c);
            },
            Instr::Jp(c, a) => {
                s.append("jp ");
                push_cc(&mut s, c);
                s.append("$");
                push_hex4(&mut s, a);
            },
            Instr::JpInd(r) => {
                s.append("jp (");
                push_reg16(&mut s, r);
                s.append(")");
            },
            Instr::Jr(c, a) => {
                s.append("jr ");
                push_cc(&mut s, c);
                s.append("$");
                push_hex4(&mut s, a);
            },
            Instr::Djnz(a) => {
                s.append("djnz $");
                push_hex4(&mut s, a);
            },
            Instr::Call(c, a) => {
                s.append("call ");
                push_cc(&mut s, c);
                s.append("$");
                push_hex4(&mut s, a);
            },
            Instr::Ret(Some(c)) => {
                s.append("ret ");
                s.append(c.name());
            },
            Instr::Ret(None) => s.append("ret"),
            Instr::Reti => s.append("reti"),
            Instr::Retn => s.append("retn"),
            Instr::Rst(n) => {
                s.append("rst $");
                push_hex2(&mut s, n);
            },
            Instr::InA(n) => {
                s.append("in a,($");
                push_hex2(&mut s, n);
                s.append(")");
            },
            Instr::InC(Some(r)) => {
                s.append("in ");
                s.append(r.name());
                s.append(",(c)");
            },
            Instr::InC(None) => s.append("in (c)"),
            Instr::OutA(n) => {
                s.append("out ($");
                push_hex2(&mut s, n);
                s.append("),a");
            },
            Instr::OutC(Some(r)) => {
                s.append("out (c),");
                s.append(r.name());
            },
            Instr::OutC(None) => s.append("out (c),0"),
            Instr::Block(op) => s.append(op.name()),
            Instr::Im(m) => {
                s.append("im ");
                push_digit(&mut s, m);
            },
            Instr::LdIA => s.append("ld i,a"),
            Instr::LdRA => s.append("ld r,a"),
            Instr::LdAI => s.append("ld a,i"),
            Instr::LdAR => s.append("ld a,r"),
        }
        assert(s@ =~= instr_text(*self));
        s
    }
}

} // verus!
