//! Keeping every teleport code a player has discovered, between games and
//! runs: each booth walked into, which shows its own code, and each code
//! typed right in a booth, which the game hands to the host as the booth
//! accepts it. A code names a teleport, and the fifteen are the same in
//! every game, so a code once found stays right. The program keeps them in
//! a file, `teleporter-codes.txt`, beside the kept tape, and level 1 lists
//! them from the start of every game with the ones seen in it.
//!
//! Reading and writing the file is the program's business; here is its
//! text, both ways.

use vstd::prelude::*;
use vstd::string::StringExecFns;
use crate::game::SeenTeleporter;
use crate::lines::{
    all_digits, chars_of, first_index, is_digit, lines, lines_of, parse_unsigned, sans_plus, trim, trim_range, unsigned,
    views,
};
use crate::text::{all_ascii, ascii_chars, dec, lossy, lossy_chars, push_char, push_dec};

verus! {

/// The file the codes are kept in.
pub const FILE: &'static str = "teleporter-codes.txt";

/// The codes kept, in the order they were first found.
#[derive(Clone, Debug, PartialEq, Eq)]
pub struct Kept {
    pub codes: Vec<SeenTeleporter>,
}

impl Default for Kept {
    fn default() -> (k: Kept)
        ensures
            k.codes@.len() == 0,
    {
        Kept { codes: Vec::new() }
    }
}

/// A code's line in the file: its five letters, a space, the room, and a
/// newline.
pub open spec fn code_line(t: SeenTeleporter) -> Seq<char> {
    lossy_chars(t.code@) + seq![' '] + dec(t.room as nat) + seq!['\n']
}

/// The file's text for `codes`.
pub open spec fn codes_text(codes: Seq<SeenTeleporter>) -> Seq<char>
    decreases codes.len(),
{
    if codes.len() == 0 {
        seq![]
    } else {
        codes_text(codes.drop_last()) + code_line(codes.last())
    }
}

/// A printable ASCII character other than a space.
pub open spec fn graphic(c: char) -> bool {
    '!' <= c <= '~'
}

/// The code a line holds, if it holds one: trimmed, five printable
/// characters, one space, and the room, trimmed again.
pub open spec fn code_of_line(line: Seq<char>) -> Option<SeenTeleporter> {
    let t = trim(line);
    let k = first_index(t, ' ');
    if k < 0 {
        None
    } else {
        let code = t.take(k);
        if code.len() == 5 && (forall|i: int| 0 <= i < 5 ==> graphic(#[trigger] code[i])) {
            match unsigned(trim(t.skip(k + 1)), 65535) {
                Some(room) => Some(
                    SeenTeleporter {
                        room: room as u16,
                        code: [code[0] as u8, code[1] as u8, code[2] as u8, code[3] as u8, code[4] as u8],
                    },
                ),
                None => None,
            }
        } else {
            None
        }
    }
}

/// The codes the lines hold, in order; a line that holds none is left out.
pub open spec fn codes_of_lines(ls: Seq<Seq<char>>) -> Seq<SeenTeleporter>
    decreases ls.len(),
{
    if ls.len() == 0 {
        seq![]
    } else {
        codes_of_lines(ls.drop_last()) + match code_of_line(ls.last()) {
            Some(t) => seq![t],
            None => seq![],
        }
    }
}

/// The kept codes not in the room of one of `seen`.
pub open spec fn not_seen(codes: Seq<SeenTeleporter>, seen: Seq<SeenTeleporter>) -> Seq<SeenTeleporter>
    decreases codes.len(),
{
    if codes.len() == 0 {
        seq![]
    } else {
        not_seen(codes.drop_last(), seen) + if exists|j: int| 0 <= j < seen.len() && #[trigger] seen[j].room
            == codes.last().room {
            seq![]
        } else {
            seq![codes.last()]
        }
    }
}

/// Whether one of `ts` is in `room`.
fn any_in_room(ts: &[SeenTeleporter], room: u16) -> (b: bool)
    ensures
        b == exists|j: int| 0 <= j < ts@.len() && #[trigger] ts@[j].room == room,
{
    let mut j: usize = 0;
    while j < ts.len()
        invariant
            j <= ts@.len(),
            forall|k: int| 0 <= k < j ==> #[trigger] ts@[k].room != room,
        decreases ts@.len() - j,
    {
        if ts[j].room == room {
            assert(ts@[j as int].room == room);
            return true;
        }
        j = j + 1;
    }
    false
}

/// The code a line holds, as [`code_of_line`] has it.
fn read_line(line: &[char]) -> (t: Option<SeenTeleporter>)
    ensures
        t == code_of_line(line@),
{
    let (a, b) = trim_range(line);
    let ghost t = trim(line@);
    let mut k = a;
    while k < b && line[k] != ' '
        invariant
            a <= k <= b <= line@.len(),
            t == line@.subrange(a as int, b as int),
            forall|j: int| a <= j < k ==> line@[j] != ' ',
        decreases b - k,
    {
        k = k + 1;
    }
    proof {
        if k < b {
            crate::lines::first_index_at(t, ' ', k - a);
        } else {
            crate::lines::first_index_none(t, ' ');
        }
    }
    if k == b {
        return None;
    }
    if k - a != 5 {
        return None;
    }
    let mut i: usize = 0;
    while i < 5
        invariant
            i <= 5,
            a + 5 == k <= b <= line@.len(),
            t == trim(line@),
            t == line@.subrange(a as int, b as int),
            first_index(t, ' ') == k - a,
            forall|j: int| 0 <= j < i ==> '!' <= #[trigger] line@[a + j] <= '~',
        decreases 5 - i,
    {
        let c = line[a + i];
        if !('!' <= c && c <= '~') {
            proof {
                let code = t.take(k - a);
                assert(code[i as int] == c);
                assert(!graphic(code[i as int]));
            }
            return None;
        }
        i = i + 1;
    }
    let ghost code = t.take(k - a);
    assert forall|j: int| 0 <= j < 5 implies graphic(#[trigger] code[j]) by {
        assert(code[j] == line@[a + j]);
    }
    assert(code[0] == line@[a as int] && code[1] == line@[a + 1] && code[2] == line@[a + 2] && code[3] == line@[a + 3]
        && code[4] == line@[a + 4]);
    let rest = crate::lines::copy_range(line, k + 1, b);
    assert(rest@ =~= t.skip(k - a + 1));
    let (ra, rb) = trim_range(rest.as_slice());
    let digits = crate::lines::copy_range(rest.as_slice(), ra, rb);
    assert(digits@ == trim(t.skip(k - a + 1)));
    match parse_unsigned(digits.as_slice(), 65535) {
        Some(room) => {
            let c0 = line[a] as u32;
            let c1 = line[a + 1] as u32;
            let c2 = line[a + 2] as u32;
            let c3 = line[a + 3] as u32;
            let c4 = line[a + 4] as u32;
            let found = SeenTeleporter { room: room as u16, code: [c0 as u8, c1 as u8, c2 as u8, c3 as u8, c4 as u8] };
            assert(c0 as u8 == code[0] as u8);
            assert(found.code =~= [code[0] as u8, code[1] as u8, code[2] as u8, code[3] as u8, code[4] as u8]);
            assert(unsigned(trim(t.skip(k - a + 1)), 65535) == Some(room as int));
            assert(found.room == room as u16);
            assert(t.take(k - a) == code);
            assert(Some(found) == code_of_line(line@));
            Some(found)
        },
        None => None,
    }
}

impl Kept {
    /// The file's text: a line a code, its five letters and the room of the
    /// teleport it names.
    pub fn text(&self) -> (s: String)
        ensures
            s@ == codes_text(self.codes@),
    {
        let mut s = String::new();
        let mut i: usize = 0;
        while i < self.codes.len()
            invariant
                i <= self.codes@.len(),
                s@ == codes_text(self.codes@.take(i as int)),
            decreases self.codes@.len() - i,
        {
            let t = self.codes[i];
            let code = lossy(&t.code);
            s.append(code.as_str());
            push_char(&mut s, ' ');
            push_dec(&mut s, t.room as u64);
            push_char(&mut s, '\n');
            assert(self.codes@.take(i + 1).drop_last() =~= self.codes@.take(i as int));
            assert(t.code@ == self.codes@.take(i + 1).last().code@);
            i = i + 1;
            assert(s@ =~= codes_text(self.codes@.take(i as int)));
        }
        assert(self.codes@.take(i as int) =~= self.codes@);
        s
    }

    /// The codes in the file's text. A line that is not one is left out,
    /// so a file edited by hand loses only what it broke.
    pub fn parse(text: &str) -> (k: Kept)
        ensures
            k.codes@ == codes_of_lines(lines(text@)),
    {
        let chars = chars_of(text);
        let ls = lines_of(chars.as_slice());
        let mut codes: Vec<SeenTeleporter> = Vec::new();
        let mut i: usize = 0;
        while i < ls.len()
            invariant
                i <= ls@.len(),
                views(ls@) == lines(chars@),
                chars@ == text@,
                codes@ == codes_of_lines(views(ls@).take(i as int)),
            decreases ls@.len() - i,
        {
            let t = read_line(ls[i].as_slice());
            assert(views(ls@).take(i + 1).drop_last() =~= views(ls@).take(i as int));
            assert(views(ls@).take(i + 1).last() == ls@[i as int]@);
            match t {
                Some(t) => codes.push(t),
                None => {},
            }
            i = i + 1;
            assert(codes@ =~= codes_of_lines(views(ls@).take(i as int)));
        }
        assert(views(ls@).take(i as int) =~= views(ls@));
        Kept { codes }
    }

    /// Adds a code found. Returns whether it is new, which is when the file
    /// needs writing.
    pub fn add(&mut self, room: u16, code: [u8; 5]) -> (new: bool)
        ensures
            new == !exists|j: int| 0 <= j < old(self).codes@.len() && #[trigger] old(self).codes@[j].room == room,
            final(self).codes@ == if new {
                old(self).codes@.push(SeenTeleporter { room, code })
            } else {
                old(self).codes@
            },
    {
        if any_in_room(self.codes.as_slice(), room) {
            return false;
        }
        self.codes.push(SeenTeleporter { room, code });
        true
    }

    /// The codes to list: those seen in this game, in their order, then the
    /// kept ones not among them.
    pub fn with_seen(&self, seen: &[SeenTeleporter]) -> (all: Vec<SeenTeleporter>)
        ensures
            all@ == seen@ + not_seen(self.codes@, seen@),
    {
        let mut all = vstd::slice::slice_to_vec(seen);
        let mut i: usize = 0;
        while i < self.codes.len()
            invariant
                i <= self.codes@.len(),
                all@ == seen@ + not_seen(self.codes@.take(i as int), seen@),
            decreases self.codes@.len() - i,
        {
            let k = self.codes[i];
            assert(self.codes@.take(i + 1).drop_last() =~= self.codes@.take(i as int));
            if !any_in_room(seen, k.room) {
                all.push(k);
            }
            i = i + 1;
            assert(all@ =~= seen@ + not_seen(self.codes@.take(i as int), seen@));
        }
        assert(self.codes@.take(i as int) =~= self.codes@);
        all
    }
}

/// A code as the booths show one: five printable letters, none a space.
pub open spec fn printable_code(t: SeenTeleporter) -> bool {
    forall|i: int| 0 <= i < 5 ==> 0x21 <= #[trigger] t.code@[i] <= 0x7E
}

/// A code's line in the file, without its newline.
pub open spec fn line_body(t: SeenTeleporter) -> Seq<char> {
    lossy_chars(t.code@) + seq![' '] + dec(t.room as nat)
}

proof fn codes_text_first(codes: Seq<SeenTeleporter>)
    requires
        codes.len() > 0,
    ensures
        codes_text(codes) == code_line(codes[0]) + codes_text(codes.drop_first()),
    decreases codes.len(),
{
    if codes.len() == 1 {
        assert(codes.drop_last() =~= Seq::<SeenTeleporter>::empty());
        assert(codes.drop_first() =~= Seq::<SeenTeleporter>::empty());
        assert(codes_text(codes.drop_last()) =~= Seq::<char>::empty());
        assert(codes_text(codes.drop_first()) =~= Seq::<char>::empty());
        assert(codes_text(codes) =~= code_line(codes[0]) + codes_text(codes.drop_first()));
    } else {
        codes_text_first(codes.drop_last());
        assert(codes.drop_last().drop_first() =~= codes.drop_first().drop_last());
        assert(codes.drop_last()[0] == codes[0]);
        assert(codes.drop_first().last() == codes.last());
        assert(codes_text(codes) =~= code_line(codes[0]) + codes_text(codes.drop_first()));
    }
}

/// The codes a line holds, as a list of none or one.
pub open spec fn found_in(line: Seq<char>) -> Seq<SeenTeleporter> {
    match code_of_line(line) {
        Some(t) => seq![t],
        None => seq![],
    }
}

proof fn codes_of_lines_first(ls: Seq<Seq<char>>)
    requires
        ls.len() > 0,
    ensures
        codes_of_lines(ls) == found_in(ls[0]) + codes_of_lines(ls.drop_first()),
    decreases ls.len(),
{
    if ls.len() == 1 {
        assert(ls.drop_last() =~= Seq::<Seq<char>>::empty());
        assert(ls.drop_first() =~= Seq::<Seq<char>>::empty());
        assert(codes_of_lines(ls.drop_last()) =~= Seq::<SeenTeleporter>::empty());
        assert(codes_of_lines(ls.drop_first()) =~= Seq::<SeenTeleporter>::empty());
        assert(codes_of_lines(ls) =~= found_in(ls[0]) + codes_of_lines(ls.drop_first()));
    } else {
        codes_of_lines_first(ls.drop_last());
        assert(ls.drop_last().drop_first() =~= ls.drop_first().drop_last());
        assert(ls.drop_last()[0] == ls[0]);
        assert(ls.drop_first().last() == ls.last());
        assert(codes_of_lines(ls) =~= found_in(ls[0]) + codes_of_lines(ls.drop_first()));
    }
}

/// The line of a printable code is read back as that code, and is a
/// line: no newline in it, and no carriage return at its end.
proof fn line_reads_back(t: SeenTeleporter)
    requires
        printable_code(t),
    ensures
        code_of_line(line_body(t)) == Some(t),
        forall|i: int| 0 <= i < line_body(t).len() ==> #[trigger] line_body(t)[i] != '\n',
        line_body(t).last() != '\r',
{
    let b = t.code@;
    assert(all_ascii(b)) by {
        assert forall|i: int| 0 <= i < b.len() implies #[trigger] b[i] < 0x80 by {
            assert(0x21 <= t.code@[i] <= 0x7E);
        }
    }
    let letters = ascii_chars(b);
    let room = dec(t.room as nat);
    crate::lines::dec_reads_back(t.room as nat);
    let body = line_body(t);
    assert(body =~= letters + seq![' '] + room);
    assert(body.len() == 6 + room.len());
    assert forall|i: int| 0 <= i < 5 implies graphic(#[trigger] body[i]) && body[i] == b[i] as char by {
        assert(0x21 <= t.code@[i] <= 0x7E);
    }
    assert forall|i: int| 0 <= i < body.len() implies #[trigger] body[i] != '\n' by {
        if i < 5 {
            assert(graphic(body[i]));
        } else if i > 5 {
            assert(body[i] == room[i - 6]);
            assert(is_digit(room[i - 6]));
        }
    }
    assert(body.last() == room.last());
    assert(is_digit(room[room.len() - 1]));
    assert(graphic(body[0]));
    crate::lines::trim_of_unwhite_ends(body);
    assert(trim(body) == body);
    assert(body[5] == ' ');
    crate::lines::first_index_at(body, ' ', 5);
    assert(body.skip(6) =~= room);
    crate::lines::trim_digits(room);
    assert(sans_plus(room) == room);
    assert(unsigned(trim(body.skip(6int)), 65535) == Some(t.room as int));
    let code = body.take(5);
    assert forall|i: int| 0 <= i < 5 implies graphic(#[trigger] code[i]) by {
        assert(code[i] == body[i]);
    }
    let arr = [code[0] as u8, code[1] as u8, code[2] as u8, code[3] as u8, code[4] as u8];
    assert forall|i: int| 0 <= i < 5 implies #[trigger] arr@[i] == t.code@[i] by {
        assert(code[i] == body[i]);
        assert(body[i] == b[i] as char);
    }
    assert(arr =~= t.code);
    assert(code_of_line(body) == Some(SeenTeleporter { room: t.room as int as u16, code: arr }));
}

/// Reading back the file's text gives the codes it was written from, when
/// each is five printable letters other than a space, as the booths'
/// codes are.
pub proof fn text_reads_back(codes: Seq<SeenTeleporter>)
    requires
        forall|j: int| 0 <= j < codes.len() ==> printable_code(#[trigger] codes[j]),
    ensures
        codes_of_lines(lines(codes_text(codes))) == codes,
    decreases codes.len(),
{
    if codes.len() == 0 {
        assert(codes_of_lines(lines(codes_text(codes))) =~= codes);
    } else {
        let t = codes[0];
        let rest = codes.drop_first();
        assert(printable_code(t));
        codes_text_first(codes);
        line_reads_back(t);
        assert(code_line(t) =~= line_body(t) + seq!['\n']);
        crate::lines::lines_of_first(line_body(t), codes_text(rest));
        assert(codes_text(codes) =~= line_body(t) + seq!['\n'] + codes_text(rest));
        let ls = lines(codes_text(codes));
        assert(ls == seq![line_body(t)] + lines(codes_text(rest)));
        assert forall|j: int| 0 <= j < rest.len() implies printable_code(#[trigger] rest[j]) by {
            assert(rest[j] == codes[j + 1]);
        }
        text_reads_back(rest);
        codes_of_lines_first(ls);
        assert(ls.drop_first() =~= lines(codes_text(rest)));
        assert(found_in(ls[0]) == seq![t]);
        assert(codes_of_lines(ls) =~= codes);
    }
}

} // verus!
