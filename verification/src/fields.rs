//! What the fields of an opcode select: the condition a jump tests, the
//! operation an ALU instruction does, the shift or rotate a CB instruction
//! does. The decoder reads them through its tables; these say what the
//! tables come to, which registers a register field names, where a jump's
//! operand sends it, and that the mnemonics the disassembler prints for the
//! operations name what they do.

use vstd::prelude::*;
use crate::alu::{
    alu_meaning, alu_ops_do_what_their_numbers_say, alu_result, rot_meaning, rot_numbers, rotates_do_what_their_numbers_say,
};
use crate::decode::{decode_spec, fetch, signed, AluOp, Cond, Instr, Op8, RotOp};
use crate::disasm::{alu_text, instr_text, rot_text};
use crate::text::{all_hex, hex_number, hex_reads_back, hex4};
use crate::machine::{pair, Zx, CF, PF, SF, ZF};

verus! {

/// The condition a jump, call or return tests, if it has one.
pub open spec fn branch_cond(i: Instr) -> Option<Cond> {
    match i {
        Instr::Jr(c, _) | Instr::Jp(c, _) | Instr::Call(c, _) | Instr::Ret(c) => c,
        _ => None,
    }
}

/// The Z80's condition codes, by number: 0 and 1 test the zero flag, 2 and
/// 3 the carry, 4 and 5 parity/overflow, 6 and 7 the sign; an even code
/// passes when its flag is clear, an odd one when it is set.
pub open spec fn flag_test(f: u8, code: int) -> bool {
    let mask = if code / 2 == 0 {
        ZF
    } else if code / 2 == 1 {
        CF
    } else if code / 2 == 2 {
        PF
    } else {
        SF
    };
    (f & mask != 0) == (code % 2 == 1)
}

/// A conditional JP, CALL or RET (opcode 11yyyzzz with zzz 0, 2 or 4)
/// tests condition code yyy, and a conditional JR (001yy000) condition code
/// yy: so 38, D8, DA and DC test carry set, and 30, D0, D2 and D4 carry
/// clear.
pub proof fn condition_field_selects_the_flag(mem: Seq<u8>, pc: u16, z: Zx)
    ensures
        ({
            let op = fetch(mem, pc, 0) as int;
            let d = decode_spec(mem, pc);
            &&& (op >= 0xC0 && (op % 8 == 0 || op % 8 == 2 || op % 8 == 4)) ==> branch_cond(d.instr) is Some
                && z.cond_spec(branch_cond(d.instr)->0) == flag_test(z.f, (op / 8) % 8)
            &&& (0x20 <= op < 0x40 && op % 8 == 0) ==> branch_cond(d.instr) is Some
                && z.cond_spec(branch_cond(d.instr)->0) == flag_test(z.f, (op / 8) % 8 - 4)
        }),
{
    reveal(decode_spec);
}

/// An ALU instruction (opcode 10yyyzzz on a register or (HL), 11yyy110 on
/// an immediate byte) does the operation its y field numbers: 0 ADD, 1 ADC,
/// 2 SUB, 3 SBC, 4 AND, 5 XOR, 6 OR, 7 CP (see [`alu_meaning`]).
pub proof fn alu_field_selects_the_operation(mem: Seq<u8>, pc: u16, z: Zx, v: u8)
    ensures
        ({
            let op = fetch(mem, pc, 0) as int;
            let d = decode_spec(mem, pc);
            (op / 64 == 2 || (op / 64 == 3 && op % 8 == 6)) ==> d.instr is Alu && alu_meaning(
                (op / 8) % 8,
                z,
                v,
                alu_result(z, d.instr->Alu_0, v),
            )
        }),
{
    reveal(decode_spec);
    alu_ops_do_what_their_numbers_say(z, v);
}

/// A CB rotate or shift (CB 00yyyzzz, or DD CB d 00yyyzzz and the FD form)
/// does the operation its y field numbers: 0 RLC, 1 RRC, 2 RL, 3 RR, 4 SLA,
/// 5 SRA, 6 SLL, 7 SRL (see [`rot_meaning`]).
pub proof fn rotate_field_selects_the_operation(mem: Seq<u8>, pc: u16, v: u8, f: u8)
    ensures
        ({
            let d = decode_spec(mem, pc);
            let b0 = fetch(mem, pc, 0);
            let indexed = (b0 == 0xDD || b0 == 0xFD) && fetch(mem, pc, 1) == 0xCB;
            let op = if indexed { fetch(mem, pc, 3) as int } else { fetch(mem, pc, 1) as int };
            ((b0 == 0xCB || indexed) && op < 0x40) ==> d.instr is Rot && rot_numbers(d.instr->Rot_0, v, f)
                == rot_meaning((op / 8) % 8, v, (f & CF) as int)
        }),
{
    reveal(decode_spec);
    rotates_do_what_their_numbers_say(v, f);
}

/// The mnemonic printed for an ALU operation names what it does: "add a,",
/// "adc a,", "sub ", "sbc a,", "and ", "xor ", "or " and "cp " are the
/// operations numbered 0 to 7 (see [`alu_meaning`]).
pub proof fn alu_text_names_the_operation(op: AluOp, z: Zx, v: u8)
    ensures
        alu_text(op) == "add a,"@ ==> alu_meaning(0, z, v, alu_result(z, op, v)),
        alu_text(op) == "adc a,"@ ==> alu_meaning(1, z, v, alu_result(z, op, v)),
        alu_text(op) == "sub "@ ==> alu_meaning(2, z, v, alu_result(z, op, v)),
        alu_text(op) == "sbc a,"@ ==> alu_meaning(3, z, v, alu_result(z, op, v)),
        alu_text(op) == "and "@ ==> alu_meaning(4, z, v, alu_result(z, op, v)),
        alu_text(op) == "xor "@ ==> alu_meaning(5, z, v, alu_result(z, op, v)),
        alu_text(op) == "or "@ ==> alu_meaning(6, z, v, alu_result(z, op, v)),
        alu_text(op) == "cp "@ ==> alu_meaning(7, z, v, alu_result(z, op, v)),
{
    reveal_strlit("add a,");
    reveal_strlit("adc a,");
    reveal_strlit("sub ");
    reveal_strlit("sbc a,");
    reveal_strlit("and ");
    reveal_strlit("xor ");
    reveal_strlit("or ");
    reveal_strlit("cp ");
    alu_ops_do_what_their_numbers_say(z, v);
    let t = alu_text(op);
    assert(t.len() == 6 ==> t[0] == 'a' || t[0] == 's');
    assert(t.len() == 6 ==> (t[2] == 'd' || t[2] == 'c'));
    assert(t.len() == 4 ==> t[0] == 's' || t[0] == 'a' || t[0] == 'x');
    assert(t.len() == 3 ==> t[0] == 'o' || t[0] == 'c');
}

/// The mnemonic printed for a shift or rotate names what it does: "rlc",
/// "rrc", "rl", "rr", "sla", "sra", "sll" and "srl" are the operations
/// numbered 0 to 7 (see [`rot_meaning`]).
pub proof fn rot_text_names_the_operation(op: RotOp, v: u8, f: u8)
    ensures
        rot_text(op) == "rlc"@ ==> rot_numbers(op, v, f) == rot_meaning(0, v, (f & CF) as int),
        rot_text(op) == "rrc"@ ==> rot_numbers(op, v, f) == rot_meaning(1, v, (f & CF) as int),
        rot_text(op) == "rl"@ ==> rot_numbers(op, v, f) == rot_meaning(2, v, (f & CF) as int),
        rot_text(op) == "rr"@ ==> rot_numbers(op, v, f) == rot_meaning(3, v, (f & CF) as int),
        rot_text(op) == "sla"@ ==> rot_numbers(op, v, f) == rot_meaning(4, v, (f & CF) as int),
        rot_text(op) == "sra"@ ==> rot_numbers(op, v, f) == rot_meaning(5, v, (f & CF) as int),
        rot_text(op) == "sll"@ ==> rot_numbers(op, v, f) == rot_meaning(6, v, (f & CF) as int),
        rot_text(op) == "srl"@ ==> rot_numbers(op, v, f) == rot_meaning(7, v, (f & CF) as int),
{
    reveal_strlit("rlc");
    reveal_strlit("rrc");
    reveal_strlit("rl");
    reveal_strlit("rr");
    reveal_strlit("sla");
    reveal_strlit("sra");
    reveal_strlit("sll");
    reveal_strlit("srl");
    rotates_do_what_their_numbers_say(v, f);
    assert("rl"@.len() == 2 && "rr"@.len() == 2);
    match op {
        RotOp::Rl => assert(rot_text(op) != "rr"@),
        RotOp::Rr => assert(rot_text(op) != "rl"@),
        _ => assert(rot_text(op).len() == 3),
    }
    let t = rot_text(op);
    assert(t.len() == 3 ==> t[0] == 'r' || t[0] == 's');
    assert(t.len() == 3 ==> t[1] == 'l' || t[1] == 'r');
    assert(t.len() == 3 ==> t[2] == 'c' || t[2] == 'a' || t[2] == 'l');
    assert("rl"@[1] != "rr"@[1] && "rl"@ != "rr"@);
}

/// Where a jump, call or DJNZ goes, if it names the address.
pub open spec fn branch_target(i: Instr) -> Option<u16> {
    match i {
        Instr::Jr(_, a) | Instr::Djnz(a) | Instr::Jp(_, a) | Instr::Call(_, a) => Some(a),
        _ => None,
    }
}

/// A relative jump (DJNZ, JR and JR cc: opcodes 10, 18, 20, 28, 30, 38) is
/// two bytes long and goes to the address after it moved by its second
/// byte read as a signed number; an absolute one (JP nn, CALL nn, and their
/// conditional forms 11yyy010 and 11yyy100) is three bytes long and goes
/// to the little-endian word after the opcode.
pub proof fn jumps_go_where_their_operand_says(mem: Seq<u8>, pc: u16)
    ensures
        ({
            let op = fetch(mem, pc, 0) as int;
            let d = decode_spec(mem, pc);
            &&& (op == 0x10 || op == 0x18 || (0x20 <= op < 0x40 && op % 8 == 0)) ==> d.len == 2
                && branch_target(d.instr) == Some(((pc + 2 + signed(fetch(mem, pc, 1))) % 65536) as u16)
            &&& (op == 0xC3 || op == 0xCD || (op >= 0xC0 && (op % 8 == 2 || op % 8 == 4))) ==> d.len == 3
                && branch_target(d.instr) == Some((fetch(mem, pc, 1) + 256 * fetch(mem, pc, 2)) as u16)
        }),
{
    reveal(decode_spec);
}

/// The byte register numbered `i` in an opcode's register field, as it
/// stands in `z`: 0 B, 1 C, 2 D, 3 E, 4 H, 5 L, 7 A (6 is memory).
pub open spec fn reg_field(z: Zx, i: int) -> u8 {
    if i == 0 {
        z.b
    } else if i == 1 {
        z.c
    } else if i == 2 {
        z.d
    } else if i == 3 {
        z.e
    } else if i == 4 {
        z.h
    } else if i == 5 {
        z.l
    } else {
        z.a
    }
}

/// The register pair numbered `p` in an opcode's pair field, as it stands
/// in `z`: 0 BC, 1 DE, 2 HL, 3 SP.
pub open spec fn pair_field(z: Zx, p: int) -> u16 {
    if p == 0 {
        pair(z.b, z.c)
    } else if p == 1 {
        pair(z.d, z.e)
    } else if p == 2 {
        pair(z.h, z.l)
    } else {
        z.sp
    }
}

/// LD r,r' (opcode 01dddsss, neither field 6) reads the register its low
/// field numbers and writes the one its middle field numbers, by the
/// numbering of [`reg_field`].
pub proof fn register_fields_name_the_registers(mem: Seq<u8>, pc: u16, z: Zx, v: u8)
    ensures
        ({
            let op = fetch(mem, pc, 0) as int;
            let d = decode_spec(mem, pc);
            (op / 64 == 1 && (op / 8) % 8 != 6 && op % 8 != 6) ==> (d.instr matches Instr::Ld8(Op8::Reg(dst), Op8::Reg(src))
                && z.r8_spec(src) == reg_field(z, op % 8) && reg_field(z.with_r8(dst, v), (op / 8) % 8) == v)
        }),
{
    reveal(decode_spec);
}

/// LD rr,nn (opcode 00pp0001) loads the pair its pair field numbers, by
/// the numbering of [`pair_field`], with the little-endian word after the
/// opcode; under a DD or FD prefix, pair 2 is IX or IY.
pub proof fn pair_fields_name_the_pairs(mem: Seq<u8>, pc: u16, z: Zx, w: u16)
    ensures
        ({
            let b0 = fetch(mem, pc, 0) as int;
            let b1 = fetch(mem, pc, 1) as int;
            let d = decode_spec(mem, pc);
            &&& (b0 < 0x40 && b0 % 16 == 1) ==> (d.instr matches Instr::Ld16(r, nn)
                && pair_field(z.with_r16(r, w), b0 / 16) == w && nn == (b1 + 256 * fetch(mem, pc, 2)) as u16)
            &&& (b0 == 0xDD && b1 == 0x21) ==> (d.instr matches Instr::Ld16(r, _) && z.with_r16(r, w).ix == w)
            &&& (b0 == 0xFD && b1 == 0x21) ==> (d.instr matches Instr::Ld16(r, _) && z.with_r16(r, w).iy == w)
        }),
{
    reveal(decode_spec);
}

/// RST (opcode 11yyy111) calls the address eight times its y field.
pub proof fn restarts_go_to_eight_times_their_field(mem: Seq<u8>, pc: u16)
    ensures
        ({
            let op = fetch(mem, pc, 0) as int;
            (op >= 0xC0 && op % 8 == 7) ==> decode_spec(mem, pc).instr == Instr::Rst((op - 0xC7) as u8)
        }),
{
    reveal(decode_spec);
}

/// A jump, call or DJNZ prints its target last, as `$` and four
/// lower-case hex digits that spell the target back.
pub proof fn jump_text_ends_with_the_target(i: Instr)
    requires
        branch_target(i) is Some,
    ensures
        ({
            let t = instr_text(i);
            let digits = t.subrange(t.len() - 4, t.len() as int);
            &&& t.len() >= 5
            &&& t[t.len() - 5] == '$'
            &&& all_hex(digits)
            &&& hex_number(digits) == branch_target(i)->0
        }),
{
    let a = branch_target(i)->0;
    hex_reads_back(a as int);
    reveal_strlit("$");
    reveal_strlit("djnz $");
    let h = hex4(a as int);
    let head = instr_text(i).subrange(0, instr_text(i).len() - 4);
    assert(instr_text(i) =~= head + h);
    assert(instr_text(i).subrange(instr_text(i).len() - 4, instr_text(i).len() as int) =~= h);
}

} // verus!
