//! Building text: hex and decimal numbers, one character at a time.

use vstd::prelude::*;

verus! {

/// `String::push`: appends one character.
#[verifier::external_body]
pub(crate) fn push_char(s: &mut String, c: char)
    ensures
        final(s)@ == old(s)@.push(c),
{
    s.push(c)
}

/// The digit for `d`, 0 to 15, in lower case.
pub open spec fn hex_digit(d: int) -> char {
    if d == 0 { '0' } else if d == 1 { '1' } else if d == 2 { '2' } else if d == 3 { '3' }
    else if d == 4 { '4' } else if d == 5 { '5' } else if d == 6 { '6' } else if d == 7 { '7' }
    else if d == 8 { '8' } else if d == 9 { '9' } else if d == 10 { 'a' } else if d == 11 { 'b' }
    else if d == 12 { 'c' } else if d == 13 { 'd' } else if d == 14 { 'e' } else { 'f' }
}

/// Two lower-case hex digits.
pub open spec fn hex2(n: int) -> Seq<char> {
    seq![hex_digit((n / 16) % 16), hex_digit(n % 16)]
}

/// Four lower-case hex digits.
pub open spec fn hex4(n: int) -> Seq<char> {
    hex2((n / 256) % 256) + hex2(n % 256)
}

/// A number in lower-case hex with no leading zeros.
pub open spec fn hex_min(n: nat) -> Seq<char>
    decreases n,
{
    if n < 16 {
        seq![hex_digit(n as int)]
    } else {
        hex_min(n / 16).push(hex_digit((n % 16) as int))
    }
}

/// A number in decimal with no leading zeros.
pub open spec fn dec(n: nat) -> Seq<char>
    decreases n,
{
    if n < 10 {
        seq![hex_digit(n as int)]
    } else {
        dec(n / 10).push(hex_digit((n % 10) as int))
    }
}

pub(crate) fn digit(d: u8) -> (c: char)
    requires
        d < 16,
    ensures
        c == hex_digit(d as int),
{
    match d {
        0 => '0',
        1 => '1',
        2 => '2',
        3 => '3',
        4 => '4',
        5 => '5',
        6 => '6',
        7 => '7',
        8 => '8',
        9 => '9',
        10 => 'a',
        11 => 'b',
        12 => 'c',
        13 => 'd',
        14 => 'e',
        _ => 'f',
    }
}

pub(crate) fn push_hex2(s: &mut String, n: u8)
    ensures
        final(s)@ == old(s)@ + hex2(n as int),
{
    push_char(s, digit(n / 16));
    push_char(s, digit(n % 16));
    assert(final(s)@ =~= old(s)@ + hex2(n as int));
}

pub(crate) fn push_hex4(s: &mut String, n: u16)
    ensures
        final(s)@ == old(s)@ + hex4(n as int),
{
    push_hex2(s, (n / 256) as u8);
    push_hex2(s, (n % 256) as u8);
    assert(final(s)@ =~= old(s)@ + hex4(n as int));
}

pub(crate) fn push_hex_min(s: &mut String, n: u64)
    ensures
        final(s)@ == old(s)@ + hex_min(n as nat),
    decreases n,
{
    if n >= 16 {
        push_hex_min(s, n / 16);
    }
    push_char(s, digit((n % 16) as u8));
    assert(final(s)@ =~= old(s)@ + hex_min(n as nat));
}

pub(crate) fn push_dec(s: &mut String, n: u64)
    ensures
        final(s)@ == old(s)@ + dec(n as nat),
    decreases n,
{
    if n >= 10 {
        push_dec(s, n / 10);
    }
    push_char(s, digit((n % 10) as u8));
    assert(final(s)@ =~= old(s)@ + dec(n as nat));
}

/// The characters of ASCII bytes.
pub open spec fn ascii_chars(b: Seq<u8>) -> Seq<char> {
    b.map_values(|x: u8| x as char)
}

/// Bytes all below 0x80.
pub open spec fn all_ascii(b: Seq<u8>) -> bool {
    forall|i: int| 0 <= i < b.len() ==> #[trigger] b[i] < 0x80
}

/// What `String::from_utf8_lossy` makes of some bytes: the text they
/// encode, with each piece that is not UTF-8 replaced by U+FFFD.
pub uninterp spec fn utf8_lossy(bytes: Seq<u8>) -> Seq<char>;

/// The text of some bytes as `String::from_utf8_lossy` reads them: ASCII
/// bytes are the characters they are; of other bytes, what [`utf8_lossy`]
/// names.
pub open spec fn lossy_chars(b: Seq<u8>) -> Seq<char> {
    if all_ascii(b) {
        ascii_chars(b)
    } else {
        utf8_lossy(b)
    }
}

/// `String::from_utf8_lossy`, as an owned string. Its result is named
/// [`utf8_lossy`]; of it this says only what the documentation plainly
/// gives: bytes that are all ASCII, which are UTF-8, come back as the
/// characters they are. What it makes of other bytes is left to the name.
#[verifier::external_body]
pub(crate) fn lossy(bytes: &[u8]) -> (s: String)
    ensures
        s@ == utf8_lossy(bytes@),
        all_ascii(bytes@) ==> s@ == ascii_chars(bytes@),
{
    String::from_utf8_lossy(bytes).into_owned()
}

/// Appends bytes below 0x80 as the characters they are.
pub(crate) fn push_ascii(s: &mut String, b: &[u8])
    requires
        forall|i: int| 0 <= i < b@.len() ==> b@[i] < 0x80,
    ensures
        final(s)@ == old(s)@ + ascii_chars(b@),
{
    let mut i: usize = 0;
    while i < b.len()
        invariant
            i <= b@.len(),
            forall|k: int| 0 <= k < b@.len() ==> b@[k] < 0x80,
            s@ == old(s)@ + ascii_chars(b@.take(i as int)),
        decreases b@.len() - i,
    {
        let c = ascii_char(b[i]);
        push_char(s, c);
        i = i + 1;
        assert(ascii_chars(b@.take(i as int)) =~= ascii_chars(b@.take(i - 1)).push(b@[i - 1] as char));
        assert(s@ =~= old(s)@ + ascii_chars(b@.take(i as int)));
    }
    assert(b@.take(b@.len() as int) =~= b@);
}

/// `char::from(u8)`: the character with the byte's code.
#[verifier::external_body]
pub(crate) fn ascii_char(b: u8) -> (c: char)
    ensures
        c == b as char,
{
    char::from(b)
}

/// The value of a lower-case hex digit; -1 for any other character.
pub open spec fn hex_value(c: char) -> int {
    if '0' <= c && c <= '9' {
        c as int - '0' as int
    } else if 'a' <= c && c <= 'f' {
        c as int - 'a' as int + 10
    } else {
        -1
    }
}

/// The number a run of lower-case hex digits spells, most significant
/// first.
pub open spec fn hex_number(s: Seq<char>) -> int
    decreases s.len(),
{
    if s.len() == 0 {
        0
    } else {
        hex_number(s.drop_last()) * 16 + hex_value(s.last())
    }
}

/// Whether every character is a lower-case hex digit.
pub open spec fn all_hex(s: Seq<char>) -> bool {
    forall|i: int| 0 <= i < s.len() ==> 0 <= #[trigger] hex_value(s[i]) < 16
}

proof fn hex_digit_value(d: int)
    requires
        0 <= d < 16,
    ensures
        hex_value(hex_digit(d)) == d,
{
}

proof fn hex2_reads_back(n: int)
    requires
        0 <= n < 256,
    ensures
        hex2(n).len() == 2,
        all_hex(hex2(n)),
        hex_number(hex2(n)) == n,
{
    let s = hex2(n);
    hex_digit_value((n / 16) % 16);
    hex_digit_value(n % 16);
    assert(s.drop_last().drop_last() =~= Seq::<char>::empty());
    assert(hex_number(Seq::<char>::empty()) == 0);
    assert(hex_number(s.drop_last()) == hex_value(s[0]));
}

/// Two and four hex digits spell back the byte or word they were written
/// for, in lower case, most significant first.
pub proof fn hex_reads_back(n: int)
    requires
        0 <= n < 65536,
    ensures
        hex4(n).len() == 4,
        all_hex(hex4(n)),
        hex_number(hex4(n)) == n,
        n < 256 ==> hex2(n).len() == 2 && all_hex(hex2(n)) && hex_number(hex2(n)) == n,
{
    let hi = hex2((n / 256) % 256);
    let lo = hex2(n % 256);
    hex2_reads_back((n / 256) % 256);
    hex2_reads_back(n % 256);
    if n < 256 {
        hex2_reads_back(n);
    }
    let s = hi + lo;
    assert(s.drop_last().drop_last() =~= hi);
    assert(hex_number(s.drop_last()) == hex_number(hi) * 16 + hex_value(s[2]));
    assert(hex_number(s) == hex_number(hi) * 256 + hex_number(lo)) by {
        assert(hex_number(lo) == hex_value(lo[0]) * 16 + hex_value(lo[1])) by {
            assert(lo.drop_last().drop_last() =~= Seq::<char>::empty());
            assert(hex_number(Seq::<char>::empty()) == 0);
        }
    }
}

/// A number written by [`hex_min`] spells itself back in lower-case hex,
/// with no leading zero.
pub proof fn hex_min_reads_back(n: nat)
    ensures
        hex_min(n).len() > 0,
        all_hex(hex_min(n)),
        hex_number(hex_min(n)) == n,
        n > 0 ==> hex_min(n)[0] != '0',
    decreases n,
{
    if n < 16 {
        hex_digit_value(n as int);
        assert(hex_min(n).drop_last() =~= Seq::<char>::empty());
        assert(hex_number(Seq::<char>::empty()) == 0);
    } else {
        hex_min_reads_back(n / 16);
        hex_digit_value((n % 16) as int);
        assert(hex_min(n).drop_last() =~= hex_min(n / 16));
    }
}

} // verus!
