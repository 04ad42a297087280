//! What the recompiler reports of a build, and the miss log it reads back:
//! the addresses the runtime found no compiled block for, which the next
//! build takes as entry points.

use vstd::prelude::*;
use vstd::string::StringExecFns;
use crate::analysis::Analysis;
use crate::lines::{chars_of, lines, lines_of, sans_plus, views, words, words_of};
use crate::text::{dec, hex4, push_char, push_dec, push_hex4};

verus! {

/// A report line: its label, a number in decimal, and a newline.
pub open spec fn stat_line(label: Seq<char>, n: nat) -> Seq<char> {
    label + dec(n) + seq!['\n']
}

/// The report's lines for the self-modifying instructions, each address in
/// four hex digits.
pub open spec fn address_lines(addrs: Seq<u16>) -> Seq<char>
    decreases addrs.len(),
{
    if addrs.len() == 0 {
        seq![]
    } else {
        address_lines(addrs.drop_last()) + seq![' ', ' '] + hex4(addrs.last() as int) + seq!['\n']
    }
}

/// The report of an analysis: what was traced and compiled, and each
/// self-modifying instruction.
pub open spec fn report_spec(a: Analysis) -> Seq<char> {
    let s = a.stats;
    stat_line("traced instructions:   "@, s.traced_instrs as nat) + stat_line("traced entry points:   "@, s.traced_entries as nat)
        + stat_line("blocks generated:      "@, s.entries as nat) + stat_line("instructions compiled: "@, s.instrs as nat)
        + stat_line("self-modifying instrs: "@, s.self_modifying@.len()) + address_lines(s.self_modifying@)
}

fn push_stat(r: &mut String, label: &str, n: usize)
    ensures
        final(r)@ == old(r)@ + stat_line(label@, n as nat),
{
    r.append(label);
    push_dec(r, n as u64);
    push_char(r, '\n');
    assert(final(r)@ =~= old(r)@ + stat_line(label@, n as nat));
}

/// The report of a build: what was traced and compiled.
pub fn report(a: &Analysis) -> (r: String)
    ensures
        r@ == report_spec(*a),
{
    let s = &a.stats;
    let mut r = String::new();
    push_stat(&mut r, "traced instructions:   ", s.traced_instrs);
    push_stat(&mut r, "traced entry points:   ", s.traced_entries);
    push_stat(&mut r, "blocks generated:      ", s.entries);
    push_stat(&mut r, "instructions compiled: ", s.instrs);
    push_stat(&mut r, "self-modifying instrs: ", s.self_modifying.len());
    let ghost head = r@;
    let mut i: usize = 0;
    while i < s.self_modifying.len()
        invariant
            i <= s.self_modifying@.len(),
            r@ == head + address_lines(s.self_modifying@.take(i as int)),
        decreases s.self_modifying@.len() - i,
    {
        let at = s.self_modifying[i];
        push_char(&mut r, ' ');
        push_char(&mut r, ' ');
        push_hex4(&mut r, at);
        push_char(&mut r, '\n');
        assert(s.self_modifying@.take(i + 1).drop_last() =~= s.self_modifying@.take(i as int));
        i = i + 1;
        assert(r@ =~= head + address_lines(s.self_modifying@.take(i as int)));
    }
    assert(s.self_modifying@.take(i as int) =~= s.self_modifying@);
    assert(r@ =~= report_spec(*a));
    r
}

/// A word without the `0x` prefixes it starts with, as
/// `str::trim_start_matches("0x")` leaves it.
pub open spec fn sans_0x(w: Seq<char>) -> Seq<char>
    decreases w.len(),
{
    if w.len() >= 2 && w[0] == '0' && w[1] == 'x' {
        sans_0x(w.skip(2))
    } else {
        w
    }
}

/// The value of a hex digit, or -1.
pub open spec fn hex_value(c: char) -> int {
    if '0' <= c <= '9' {
        c as int - '0' as int
    } else if 'a' <= c <= 'f' {
        c as int - 'a' as int + 10
    } else if 'A' <= c <= 'F' {
        c as int - 'A' as int + 10
    } else {
        -1
    }
}

/// The value of hex digits.
pub open spec fn hex_digits_value(d: Seq<char>) -> int
    decreases d.len(),
{
    if d.len() == 0 {
        0
    } else {
        hex_digits_value(d.drop_last()) * 16 + hex_value(d.last())
    }
}

/// A 16-bit number in hex as `u16::from_str_radix(.., 16)` reads one: an
/// optional `+`, then one or more hex digits, of a value that fits.
pub open spec fn hex_u16(w: Seq<char>) -> Option<u16> {
    hex_word(sans_plus(w))
}

/// One or more hex digits, of a value that fits in 16 bits.
pub open spec fn hex_word(d: Seq<char>) -> Option<u16> {
    if d.len() > 0 && (forall|i: int| 0 <= i < d.len() ==> hex_value(#[trigger] d[i]) >= 0) && hex_digits_value(d)
        <= 0xFFFF {
        Some(hex_digits_value(d) as u16)
    } else {
        None
    }
}

/// The address a line of the miss log holds: its first word, in hex.
pub open spec fn miss_of_line(line: Seq<char>) -> Option<u16> {
    let w = words(line);
    if w.len() == 0 {
        None
    } else {
        hex_u16(sans_0x(w[0]))
    }
}

/// The addresses the lines hold, in order; a line that holds none is
/// left out.
pub open spec fn misses_of_lines(ls: Seq<Seq<char>>) -> Seq<u16>
    decreases ls.len(),
{
    if ls.len() == 0 {
        seq![]
    } else {
        misses_of_lines(ls.drop_last()) + match miss_of_line(ls.last()) {
            Some(a) => seq![a],
            None => seq![],
        }
    }
}

fn hex_digit_of(c: char) -> (v: i32)
    ensures
        v == hex_value(c),
{
    if '0' <= c && c <= '9' {
        (c as u32 - '0' as u32) as i32
    } else if 'a' <= c && c <= 'f' {
        (c as u32 - 'a' as u32 + 10) as i32
    } else if 'A' <= c && c <= 'F' {
        (c as u32 - 'A' as u32 + 10) as i32
    } else {
        -1
    }
}

proof fn hex_grows(d: Seq<char>, n: int)
    requires
        0 <= n <= d.len(),
        forall|i: int| 0 <= i < d.len() ==> hex_value(#[trigger] d[i]) >= 0,
    ensures
        0 <= hex_digits_value(d.take(n)) <= hex_digits_value(d),
    decreases d.len() - n,
{
    if n < d.len() {
        hex_grows(d, n + 1);
        assert(d.take(n + 1).drop_last() =~= d.take(n));
        assert(hex_value(d[n]) >= 0);
    } else {
        assert(d.take(n) =~= d);
        hex_nonneg(d);
    }
}

proof fn hex_nonneg(d: Seq<char>)
    requires
        forall|i: int| 0 <= i < d.len() ==> hex_value(#[trigger] d[i]) >= 0,
    ensures
        hex_digits_value(d) >= 0,
    decreases d.len(),
{
    if d.len() > 0 {
        hex_nonneg(d.drop_last());
        assert(hex_value(d[d.len() - 1]) >= 0);
    }
}

proof fn hex_u16_none(w: Seq<char>, d: Seq<char>)
    requires
        d == sans_plus(w),
        !(d.len() > 0 && (forall|i: int| 0 <= i < d.len() ==> hex_value(#[trigger] d[i]) >= 0) && hex_digits_value(d)
            <= 0xFFFF),
    ensures
        hex_u16(w) is None,
{
}

/// Reads [`hex_u16`] of `w`.
fn parse_hex_u16(w: &[char]) -> (r: Option<u16>)
    ensures
        r == hex_u16(w@),
{
    let start: usize = if w.len() > 0 && w[0] == '+' { 1 } else { 0 };
    let ghost d = sans_plus(w@);
    assert(d =~= w@.skip(start as int));
    if start >= w.len() {
        return None;
    }
    let mut v: u32 = 0;
    let mut i = start;
    while i < w.len()
        invariant
            start <= i <= w@.len(),
            d == w@.skip(start as int),
            d == sans_plus(w@),
            forall|k: int| start <= k < i ==> hex_value(#[trigger] w@[k]) >= 0,
            v == hex_digits_value(d.take(i - start)),
            v <= 0xFFFF,
        decreases w@.len() - i,
    {
        let h = hex_digit_of(w[i]);
        if h < 0 {
            proof {
                assert(d[i - start] == w@[i as int]);
                assert(hex_value(d[i - start]) < 0);
                assert(!(forall|k: int| 0 <= k < d.len() ==> hex_value(#[trigger] d[k]) >= 0));
                hex_u16_none(w@, d);
            }
            return None;
        }
        let next = v * 16 + h as u32;
        assert(d.take(i - start + 1).drop_last() =~= d.take(i - start));
        assert(d.take(i - start + 1).last() == w@[i as int]);
        if next > 0xFFFF {
            proof {
                assert(hex_digits_value(d.take(i - start + 1)) == next);
                if forall|k: int| 0 <= k < d.len() ==> hex_value(#[trigger] d[k]) >= 0 {
                    hex_grows(d, i - start + 1);
                }
                hex_u16_none(w@, d);
            }
            return None;
        }
        v = next;
        i = i + 1;
    }
    assert(d.take(i - start) =~= d);
    assert forall|k: int| 0 <= k < d.len() implies hex_value(#[trigger] d[k]) >= 0 by {
        assert(d[k] == w@[start + k]);
    }
    Some(v as u16)
}

/// Strips the `0x` prefixes a word starts with.
fn strip_0x(w: &[char]) -> (v: Vec<char>)
    ensures
        v@ == sans_0x(w@),
{
    let mut i: usize = 0;
    assert(w@.skip(0) =~= w@);
    while w.len() >= 2 && i <= w.len() - 2 && w[i] == '0' && w[i + 1] == 'x'
        invariant
            i <= w@.len(),
            sans_0x(w@.skip(i as int)) == sans_0x(w@),
        decreases w@.len() - i,
    {
        assert(w@.skip(i as int).skip(2) =~= w@.skip(i + 2));
        i = i + 2;
    }
    crate::lines::copy_range(w, i, w.len())
}

/// The addresses in a miss log written by the runtime: one hex address per
/// line, the first word of it, with or without `0x`. Lines that hold none
/// are left out.
pub fn misses_of(text: &str) -> (v: Vec<u16>)
    ensures
        v@ == misses_of_lines(lines(text@)),
{
    let chars = chars_of(text);
    let ls = lines_of(chars.as_slice());
    let mut out: Vec<u16> = Vec::new();
    let mut i: usize = 0;
    while i < ls.len()
        invariant
            i <= ls@.len(),
            views(ls@) == lines(chars@),
            chars@ == text@,
            out@ == misses_of_lines(views(ls@).take(i as int)),
        decreases ls@.len() - i,
    {
        let ws = words_of(ls[i].as_slice());
        let found = if ws.len() == 0 {
            None
        } else {
            let w = strip_0x(ws[0].as_slice());
            assert(views(ws@)[0] == ws@[0]@);
            parse_hex_u16(w.as_slice())
        };
        assert(views(ls@).take(i + 1).drop_last() =~= views(ls@).take(i as int));
        assert(views(ls@).take(i + 1).last() == ls@[i as int]@);
        match found {
            Some(a) => out.push(a),
            None => {},
        }
        i = i + 1;
        assert(out@ =~= misses_of_lines(views(ls@).take(i as int)));
    }
    assert(views(ls@).take(i as int) =~= views(ls@));
    out
}

} // verus!
