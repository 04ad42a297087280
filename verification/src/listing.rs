//! Annotated disassembly listing, for reverse engineering.
//!
//! Code found by recursive descent is disassembled with labels; everything
//! else is dumped as data. Instructions the trace actually executed are
//! marked `*`, so code only found statically (possibly data misread as
//! code) stands out.

use vstd::prelude::*;
use vstd::string::StringExecFns;
use crate::analysis::Analysis;
use crate::decode::{decode, decode_spec, flow_spec, Addr, Flow, Instr, Op8};
use crate::disasm::instr_text;
use crate::text::{hex2, hex4, push_char, push_hex2, push_hex4};
use crate::trace::Trace;

verus! {

/// The address an operand names as data, if it names one.
pub open spec fn op_ref(o: Op8) -> Seq<u16> {
    match o {
        Op8::Mem(Addr::Abs(a)) => seq![a],
        _ => seq![],
    }
}

/// Addresses an instruction refers to as data (for cross references):
/// those it loads from or stores to, and 16-bit constants above the ROM.
pub open spec fn data_refs_spec(i: Instr) -> Seq<u16> {
    match i {
        Instr::Ld8(d, s) => op_ref(d) + op_ref(s),
        Instr::Ld16(_, nn) => if nn >= 0x4000 { seq![nn] } else { seq![] },
        Instr::Ld16Load(_, a) => seq![a],
        Instr::Ld16Store(a, _) => seq![a],
        _ => seq![],
    }
}

/// What an instruction refers to: where it jumps or calls, or else the
/// data it names.
pub open spec fn targets_spec(i: Instr) -> Seq<u16> {
    match flow_spec(i) {
        Flow::Jump(t) => seq![t],
        Flow::Branch(t) => seq![t],
        Flow::Call { target, .. } => seq![target],
        _ => data_refs_spec(i),
    }
}

/// `x`, once for each of `ts` that is `t`.
pub open spec fn refs_here(ts: Seq<u16>, t: u16, x: u16) -> Seq<u16>
    decreases ts.len(),
{
    if ts.len() == 0 {
        seq![]
    } else {
        refs_here(ts.drop_last(), t, x) + if ts.last() == t { seq![x] } else { seq![] }
    }
}

/// The instructions among the first `n` addresses that refer to `t`, in
/// order of address, each as often as it does.
pub open spec fn refs_upto(a: Analysis, n: int, t: u16) -> Seq<u16>
    decreases n,
{
    if n <= 0 {
        seq![]
    } else {
        refs_upto(a, n - 1, t) + if a.code_starts@[n - 1] {
            refs_here(targets_spec(decode_spec(a.image@, (n - 1) as u16).instr), t, (n - 1) as u16)
        } else {
            seq![]
        }
    }
}

/// The instructions that refer to `t`.
#[verifier::opaque]
pub open spec fn refs_to(a: Analysis, t: u16) -> Seq<u16> {
    refs_upto(a, 65536, t)
}

/// What an instruction refers to, as [`targets_spec`] has it.
fn targets(i: Instr) -> (v: Vec<u16>)
    ensures
        v@ == targets_spec(i),
{
    let mut v: Vec<u16> = Vec::new();
    match i.flow() {
        Flow::Jump(t) | Flow::Branch(t) => {
            v.push(t);
        },
        Flow::Call { target, .. } => {
            v.push(target);
        },
        _ => {
            match i {
                Instr::Ld8(d, s) => {
                    match d {
                        Op8::Mem(Addr::Abs(a)) => v.push(a),
                        _ => {},
                    }
                    match s {
                        Op8::Mem(Addr::Abs(a)) => v.push(a),
                        _ => {},
                    }
                },
                Instr::Ld16(_, nn) => {
                    if nn >= 0x4000 {
                        v.push(nn);
                    }
                },
                Instr::Ld16Load(_, a) => v.push(a),
                Instr::Ld16Store(a, _) => v.push(a),
                _ => {},
            }
        },
    }
    assert(v@ =~= targets_spec(i));
    v
}

/// The analysis and trace a listing reads: a flag or a byte for every
/// address.
pub open spec fn covers_memory(a: Analysis, tr: Trace) -> bool {
    &&& a.image@.len() == 65536
    &&& a.code_starts@.len() == 65536
    &&& a.call_targets@.len() == 65536
    &&& a.entries@.len() == 65536
    &&& tr.executed@.len() == 65536
    &&& tr.self_modified@.len() == 65536
    &&& tr.written_code@.len() == 65536
}

/// Cross references: for each address, the instructions that jump or call
/// to it or use it as data.
fn cross_refs(a: &Analysis) -> (x: Vec<Vec<u16>>)
    requires
        a.image@.len() == 65536,
        a.code_starts@.len() == 65536,
    ensures
        x@.len() == 65536,
        forall|t: int| 0 <= t < 65536 ==> (#[trigger] x@[t])@ == refs_to(*a, t as u16),
{
    reveal(refs_to);
    let mut x: Vec<Vec<u16>> = Vec::new();
    while x.len() < 65536
        invariant
            x@.len() <= 65536,
            forall|t: int| 0 <= t < x@.len() ==> (#[trigger] x@[t])@ == Seq::<u16>::empty(),
        decreases 65536 - x@.len(),
    {
        x.push(Vec::new());
    }
    let mut n: usize = 0;
    while n < 65536
        invariant
            n <= 65536,
            a.image@.len() == 65536,
            a.code_starts@.len() == 65536,
            x@.len() == 65536,
            forall|t: int| 0 <= t < 65536 ==> (#[trigger] x@[t])@ == refs_upto(*a, n as int, t as u16),
        decreases 65536 - n,
    {
        if a.code_starts[n] {
            let d = decode(a.image.as_slice(), n as u16);
            let ts = targets(d.instr);
            let ghost before = x@;
            let mut k: usize = 0;
            while k < ts.len()
                invariant
                    k <= ts@.len(),
                    n < 65536,
                    x@.len() == 65536,
                    forall|t: int| 0 <= t < 65536 ==> (#[trigger] x@[t])@ == before[t]@ + refs_here(
                        ts@.take(k as int),
                        t as u16,
                        n as u16,
                    ),
                decreases ts@.len() - k,
            {
                let t = ts[k] as usize;
                let mut v = x[t].clone();
                v.push(n as u16);
                x.set(t, v);
                proof {
                    assert forall|u: int| 0 <= u < 65536 implies (#[trigger] x@[u])@ == before[u]@ + refs_here(
                        ts@.take(k + 1),
                        u as u16,
                        n as u16,
                    ) by {
                        assert(ts@.take(k + 1).drop_last() =~= ts@.take(k as int));
                        assert(ts@.take(k + 1).last() == ts@[k as int]);
                        if u == t {
                            assert((u as u16) == ts@[k as int]);
                        }
                    }
                }
                k = k + 1;
            }
            proof {
                assert(ts@.take(k as int) =~= ts@);
                assert forall|t: int| 0 <= t < 65536 implies (#[trigger] x@[t])@ == refs_upto(*a, n + 1, t as u16) by {
                    assert(decode_spec(a.image@, n as u16) == d);
                }
            }
        } else {
            proof {
                assert forall|t: int| 0 <= t < 65536 implies (#[trigger] x@[t])@ == refs_upto(*a, n + 1, t as u16) by {
                    assert(refs_upto(*a, n + 1, t as u16) =~= refs_upto(*a, n as int, t as u16));
                }
            }
        }
        n = n + 1;
    }
    x
}

/// `s` padded with spaces to `w` characters.
pub open spec fn padded(s: Seq<char>, w: int) -> Seq<char> {
    if s.len() < w {
        s + Seq::new((w - s.len()) as nat, |i: int| ' ')
    } else {
        s
    }
}

/// Addresses in hex, with a space between each two.
pub open spec fn hex4_list(v: Seq<u16>) -> Seq<char>
    decreases v.len(),
{
    if v.len() == 0 {
        seq![]
    } else if v.len() == 1 {
        hex4(v[0] as int)
    } else {
        hex4_list(v.drop_last()) + seq![' '] + hex4(v.last() as int)
    }
}

/// The `n` bytes of `image` from `pc`, round the end of memory, in hex
/// with a space between each two.
pub open spec fn byte_list(image: Seq<u8>, pc: int, n: int) -> Seq<char>
    decreases n,
{
    if n <= 0 {
        seq![]
    } else if n == 1 {
        hex2(image[pc % 65536] as int)
    } else {
        byte_list(image, pc, n - 1) + seq![' '] + hex2(image[(pc + n - 1) % 65536] as int)
    }
}

/// A byte as the listing shows data: printable ASCII as itself, anything
/// else as a dot.
pub open spec fn shown_char(b: u8) -> char {
    if 0x20 <= b < 0x7F {
        b as char
    } else {
        '.'
    }
}

/// The first `n` bytes of `image` from `pc`, as characters.
pub open spec fn ascii_run(image: Seq<u8>, pc: int, n: int) -> Seq<char> {
    Seq::new(n as nat, |i: int| shown_char(image[pc + i]))
}

/// A label: `sub_` for a call target, `l_` for anything else.
pub open spec fn label_spec(a: Analysis, pc: int) -> Seq<char> {
    if a.call_targets@[pc] {
        seq!['s', 'u', 'b', '_'] + hex4(pc)
    } else {
        seq!['l', '_'] + hex4(pc)
    }
}

/// Who refers to an address, as a code label shows them: the first eight,
/// and `...` when there are more.
pub open spec fn from_text(r: Seq<u16>) -> Seq<char> {
    if r.len() == 0 {
        seq![]
    } else {
        "  ; from "@ + hex4_list(r.take(if r.len() > 8 { 8 } else { r.len() as int })) + if r.len() > 8 {
            " ..."@
        } else {
            seq![]
        }
    }
}

/// The lines of an instruction at `pc`: its label when something enters
/// or refers to it, then its address, whether the trace ran it, its bytes
/// and its text, and whether it changed while traced.
pub open spec fn code_chunk(a: Analysis, tr: Trace, pc: int) -> Seq<char> {
    let d = decode_spec(a.image@, pc as u16);
    code_head(a, pc) + hex4(pc) + seq![' ', if tr.executed@[pc] is Some { '*' } else { ' ' }, ' '] + padded(
        byte_list(a.image@, pc, d.len as int),
        12,
    ) + seq![' '] + instr_text(d.instr) + (if tr.self_modified@[pc] {
        "  ; SELF-MODIFIED"@
    } else {
        seq![]
    }) + seq!['\n']
}

/// How many bytes from `pc` a data line takes: up to sixteen, stopping at
/// `to`, at code, or at an address something refers to.
pub open spec fn data_run(a: Analysis, pc: int, to: int, n: int) -> int
    decreases 16 - n,
{
    if n < 16 && pc + n <= to && !a.code_starts@[pc + n] && (n == 0 || refs_to(a, (pc + n) as u16).len() == 0) {
        data_run(a, pc, to, n + 1)
    } else {
        n
    }
}

/// Whether code among `n` bytes from `pc` was written after it ran.
pub open spec fn written_in(tr: Trace, pc: int, n: int) -> bool {
    exists|j: int| pc <= j < pc + n && #[trigger] tr.written_code@[j]
}

/// The lines of `n` data bytes at `pc`: a label when something refers to
/// them, then the bytes in hex and as characters, and whether they were
/// code written after it ran.
pub open spec fn data_chunk(a: Analysis, tr: Trace, pc: int, n: int) -> Seq<char> {
    data_head(a, pc) + hex4(pc) + "   db "@ + padded(byte_list(a.image@, pc, n), 47) + " ; "@ + ascii_run(a.image@, pc, n) + (
    if written_in(tr, pc, n) {
        " (written)"@
    } else {
        seq![]
    }) + seq!['\n']
}

/// The listing from `pc` to `to`: an instruction at a time where code
/// starts, and data lines between.
pub open spec fn listing_from(a: Analysis, tr: Trace, pc: int, to: int) -> Seq<char>
    decreases to + 1 - pc,
{
    if pc > to || pc < 0 {
        seq![]
    } else if a.code_starts@[pc] {
        let len = decode_spec(a.image@, pc as u16).len as int;
        code_chunk(a, tr, pc) + if len >= 1 && pc + len <= to {
            listing_from(a, tr, pc + len, to)
        } else {
            seq![]
        }
    } else {
        let n = data_run(a, pc, to, 0);
        data_chunk(a, tr, pc, n) + if n >= 1 && pc + n <= to {
            listing_from(a, tr, pc + n, to)
        } else {
            seq![]
        }
    }
}

/// Pushes `k` spaces.
fn push_spaces(s: &mut String, k: usize)
    ensures
        final(s)@ == old(s)@ + Seq::new(k as nat, |i: int| ' '),
{
    let mut i: usize = 0;
    while i < k
        invariant
            i <= k,
            s@ == old(s)@ + Seq::new(i as nat, |j: int| ' '),
        decreases k - i,
    {
        push_char(s, ' ');
        i = i + 1;
        assert(s@ =~= old(s)@ + Seq::new(i as nat, |j: int| ' '));
    }
}

fn push_hex4_list(s: &mut String, v: &Vec<u16>, n: usize)
    requires
        n <= v@.len(),
    ensures
        final(s)@ == old(s)@ + hex4_list(v@.take(n as int)),
{
    let mut i: usize = 0;
    while i < n
        invariant
            i <= n <= v@.len(),
            s@ == old(s)@ + hex4_list(v@.take(i as int)),
        decreases n - i,
    {
        if i > 0 {
            push_char(s, ' ');
        }
        push_hex4(s, v[i]);
        assert(v@.take(i + 1).drop_last() =~= v@.take(i as int));
        assert(v@.take(i + 1).last() == v@[i as int]);
        if i == 0 {
            assert(v@.take(1)[0] == v@[0]);
        }
        i = i + 1;
        assert(s@ =~= old(s)@ + hex4_list(v@.take(i as int)));
    }
}

proof fn byte_list_len(image: Seq<u8>, pc: int, n: int)
    requires
        n >= 1,
    ensures
        byte_list(image, pc, n).len() == 3 * n - 1,
    decreases n,
{
    if n > 1 {
        byte_list_len(image, pc, n - 1);
    }
}

fn push_byte_list(s: &mut String, image: &Vec<u8>, pc: u16, n: u32)
    requires
        image@.len() == 65536,
        1 <= n <= 16,
    ensures
        final(s)@ == old(s)@ + byte_list(image@, pc as int, n as int),
{
    let mut i: u32 = 0;
    while i < n
        invariant
            i <= n <= 16,
            image@.len() == 65536,
            s@ == old(s)@ + byte_list(image@, pc as int, i as int),
        decreases n - i,
    {
        if i > 0 {
            push_char(s, ' ');
        }
        let at = ((pc as u32 + i) % 65536) as usize;
        push_hex2(s, image[at]);
        i = i + 1;
        assert(s@ =~= old(s)@ + byte_list(image@, pc as int, i as int));
    }
}

/// Pushes the bytes and pads them to `w` characters.
fn push_padded_bytes(s: &mut String, image: &Vec<u8>, pc: u16, n: u32, w: usize)
    requires
        image@.len() == 65536,
        1 <= n <= 16,
        3 * n - 1 <= w <= 64,
    ensures
        final(s)@ == old(s)@ + padded(byte_list(image@, pc as int, n as int), w as int),
{
    proof {
        byte_list_len(image@, pc as int, n as int);
    }
    push_byte_list(s, image, pc, n);
    let k = w - (3 * n - 1) as usize;
    push_spaces(s, k);
    assert(final(s)@ =~= old(s)@ + padded(byte_list(image@, pc as int, n as int), w as int));
}

/// The head of an instruction's lines, when something enters or refers
/// to it.
pub open spec fn code_head(a: Analysis, pc: int) -> Seq<char> {
    let r = refs_to(a, pc as u16);
    if a.entries@[pc] || r.len() > 0 {
        seq!['\n'] + label_spec(a, pc) + seq![':'] + from_text(r) + seq!['\n']
    } else {
        seq![]
    }
}

#[verifier::rlimit(80)]
fn push_code_head(out: &mut String, a: &Analysis, r: &Vec<u16>, pc: u16)
    requires
        a.entries@.len() == 65536,
        a.call_targets@.len() == 65536,
        r@ == refs_to(*a, pc),
    ensures
        final(out)@ == old(out)@ + code_head(*a, pc as int),
{
    if a.entries[pc as usize] || r.len() > 0 {
        push_char(out, '\n');
        if a.call_targets[pc as usize] {
            out.append("sub_");
        } else {
            out.append("l_");
        }
        push_hex4(out, pc);
        push_char(out, ':');
        let ghost mid = out@;
        if r.len() > 0 {
            out.append("  ; from ");
            let shown = if r.len() > 8 { 8 } else { r.len() };
            push_hex4_list(out, r, shown);
            if r.len() > 8 {
                out.append(" ...");
            }
        }
        assert(out@ =~= mid + from_text(r@));
        push_char(out, '\n');
        proof {
            reveal_strlit("sub_");
            reveal_strlit("l_");
        }
        assert(out@ =~= old(out)@ + code_head(*a, pc as int));
    }
}

/// The head of data lines, when something refers to them.
pub open spec fn data_head(a: Analysis, pc: int) -> Seq<char> {
    let r = refs_to(a, pc as u16);
    if r.len() > 0 {
        seq!['\n', 'd', '_'] + hex4(pc) + ":  ; used by "@ + hex4_list(r.take(if r.len() > 8 { 8 } else { r.len() as int }))
            + seq!['\n']
    } else {
        seq![]
    }
}

fn push_data_head(out: &mut String, a: &Analysis, r: &Vec<u16>, pc: u32)
    requires
        pc < 65536,
        r@ == refs_to(*a, pc as u16),
    ensures
        final(out)@ == old(out)@ + data_head(*a, pc as int),
{
    if r.len() > 0 {
        push_char(out, '\n');
        push_char(out, 'd');
        push_char(out, '_');
        push_hex4(out, pc as u16);
        out.append(":  ; used by ");
        let shown = if r.len() > 8 { 8 } else { r.len() };
        push_hex4_list(out, r, shown);
        push_char(out, '\n');
        assert(out@ =~= old(out)@ + data_head(*a, pc as int));
    }
}

fn push_ascii_run(out: &mut String, image: &Vec<u8>, pc: u32, n: u32)
    requires
        image@.len() == 65536,
        n <= 16,
        pc + n <= 65536,
    ensures
        final(out)@ == old(out)@ + ascii_run(image@, pc as int, n as int),
{
    let mut i: u32 = 0;
    while i < n
        invariant
            i <= n <= 16,
            pc + n <= 65536,
            image@.len() == 65536,
            out@ == old(out)@ + ascii_run(image@, pc as int, i as int),
        decreases n - i,
    {
        let b = image[(pc + i) as usize];
        let c = if 0x20 <= b && b < 0x7F { crate::text::ascii_char(b) } else { '.' };
        push_char(out, c);
        i = i + 1;
        assert(out@ =~= old(out)@ + ascii_run(image@, pc as int, i as int));
    }
}

fn any_written(tr: &Trace, pc: u32, n: u32) -> (w: bool)
    requires
        tr.written_code@.len() == 65536,
        n <= 16,
        pc + n <= 65536,
    ensures
        w == written_in(*tr, pc as int, n as int),
{
    let mut written = false;
    let mut k: u32 = 0;
    while k < n
        invariant
            k <= n <= 16,
            pc + n <= 65536,
            tr.written_code@.len() == 65536,
            written == exists|j: int| pc <= j < pc + k && #[trigger] tr.written_code@[j],
        decreases n - k,
    {
        if tr.written_code[(pc + k) as usize] {
            written = true;
        }
        k = k + 1;
    }
    written
}

/// The lines of the instruction at `pc`, as [`code_chunk`] has them.
#[verifier::rlimit(80)]
fn push_code(out: &mut String, a: &Analysis, tr: &Trace, xrefs: &Vec<Vec<u16>>, pc: u16) -> (len: u8)
    requires
        covers_memory(*a, *tr),
        xrefs@.len() == 65536,
        forall|t: int| 0 <= t < 65536 ==> (#[trigger] xrefs@[t])@ == refs_to(*a, t as u16),
    ensures
        final(out)@ == old(out)@ + code_chunk(*a, *tr, pc as int),
        len == decode_spec(a.image@, pc).len,
        1 <= len <= 4,
{
    let d = decode(a.image.as_slice(), pc);
    let r = &xrefs[pc as usize];
    assert(r@ == refs_to(*a, pc));
    push_code_head(out, a, r, pc);
    push_hex4(out, pc);
    push_char(out, ' ');
    push_char(out, if tr.executed[pc as usize].is_some() { '*' } else { ' ' });
    push_char(out, ' ');
    push_padded_bytes(out, &a.image, pc, d.len as u32, 12);
    push_char(out, ' ');
    let text = d.instr.text();
    out.append(text.as_str());
    if tr.self_modified[pc as usize] {
        out.append("  ; SELF-MODIFIED");
    }
    push_char(out, '\n');
    assert(out@ =~= old(out)@ + code_chunk(*a, *tr, pc as int));
    d.len
}

/// How many bytes from `pc` a data line takes, as [`data_run`] has it.
fn data_len(a: &Analysis, xrefs: &Vec<Vec<u16>>, pc: u32, to: u16) -> (n: u32)
    requires
        a.code_starts@.len() == 65536,
        xrefs@.len() == 65536,
        forall|t: int| 0 <= t < 65536 ==> (#[trigger] xrefs@[t])@ == refs_to(*a, t as u16),
        pc <= to,
    ensures
        n == data_run(*a, pc as int, to as int, 0),
        n <= 16,
        pc + n <= to + 1,
        n >= 1 || a.code_starts@[pc as int],
{
    let mut n: u32 = 0;
    while n < 16 && pc + n <= to as u32 && !a.code_starts[(pc + n) as usize] && (n == 0 || xrefs[(pc + n) as usize].len()
        == 0)
        invariant
            n <= 16,
            pc <= to,
            a.code_starts@.len() == 65536,
            xrefs@.len() == 65536,
            forall|t: int| 0 <= t < 65536 ==> (#[trigger] xrefs@[t])@ == refs_to(*a, t as u16),
            data_run(*a, pc as int, to as int, 0) == data_run(*a, pc as int, to as int, n as int),
            pc + n <= to + 1,
        decreases 16 - n,
    {
        proof {
            assert(xrefs@[(pc + n) as int]@ == refs_to(*a, (pc + n) as u16));
        }
        n = n + 1;
    }
    proof {
        if n < 16 && pc + n <= to {
            assert(xrefs@[(pc + n) as int]@ == refs_to(*a, (pc + n) as u16));
        }
    }
    n
}

/// The lines of `n` data bytes at `pc`, as [`data_chunk`] has them.
fn push_data(out: &mut String, a: &Analysis, tr: &Trace, xrefs: &Vec<Vec<u16>>, pc: u32, n: u32)
    requires
        covers_memory(*a, *tr),
        xrefs@.len() == 65536,
        forall|t: int| 0 <= t < 65536 ==> (#[trigger] xrefs@[t])@ == refs_to(*a, t as u16),
        1 <= n <= 16,
        pc + n <= 65536,
    ensures
        final(out)@ == old(out)@ + data_chunk(*a, *tr, pc as int, n as int),
{
    let r = &xrefs[pc as usize];
    assert(r@ == refs_to(*a, pc as u16));
    push_data_head(out, a, r, pc);
    push_hex4(out, pc as u16);
    out.append("   db ");
    push_padded_bytes(out, &a.image, pc as u16, n, 47);
    out.append(" ; ");
    push_ascii_run(out, &a.image, pc, n);
    if any_written(tr, pc, n) {
        out.append(" (written)");
    }
    push_char(out, '\n');
    assert(out@ =~= old(out)@ + data_chunk(*a, *tr, pc as int, n as int));
}

/// The listing of addresses `from` to `to`: each instruction where code
/// starts, with a label where something enters or refers to it, and the
/// bytes between as data, sixteen to a line at most.
pub fn listing(analysis: &Analysis, trace: &Trace, from: u16, to: u16) -> (out: String)
    requires
        covers_memory(*analysis, *trace),
    ensures
        out@ == listing_from(*analysis, *trace, from as int, to as int),
{
    let xrefs = cross_refs(analysis);
    let mut out = String::new();
    let mut a: u32 = from as u32;
    while a <= to as u32
        invariant
            covers_memory(*analysis, *trace),
            xrefs@.len() == 65536,
            forall|t: int| 0 <= t < 65536 ==> (#[trigger] xrefs@[t])@ == refs_to(*analysis, t as u16),
            from <= a,
            a <= to as int + 16 || a == from,
            out@ + listing_from(*analysis, *trace, a as int, to as int) == listing_from(
                *analysis,
                *trace,
                from as int,
                to as int,
            ),
        decreases to as int + 17 - a,
    {
        let pc = a as u16;
        if analysis.code_starts[pc as usize] {
            let len = push_code(&mut out, analysis, trace, &xrefs, pc);
            a = a + len as u32;
        } else {
            let n = data_len(analysis, &xrefs, a, to);
            push_data(&mut out, analysis, trace, &xrefs, a, n);
            a = a + n;
        }
    }
    assert(out@ =~= listing_from(*analysis, *trace, from as int, to as int));
    out
}

} // verus!
