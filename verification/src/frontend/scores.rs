//! Keeping the high-score table between runs, with the guidance each entry
//! was played with. The table is the game's own; the game hands it to the
//! host when the CORE OF HEROES screen is about to show it, and the program
//! keeps a copy in `high-scores.txt` beside the kept tape, which is put back
//! into the game when the program starts.
//!
//! Reading and writing the file is the program's business; here is its
//! text, both ways, and what happens to the table around a game over.

use vstd::prelude::*;
use vstd::string::StringExecFns;
use crate::frontend::guidance::{Record, TOP_LEVEL};
use crate::lines::{
    chars_of, copy_range, lines, lines_of, parse_unsigned, sans_plus, trim, trim_range, unsigned, views, white, words,
    words_of,
};
use crate::text::{all_ascii, ascii_chars, dec, lossy, lossy_chars, push_char, push_dec};

verus! {

/// The file the table is kept in.
pub const FILE: &'static str = "high-scores.txt";

/// Entries in the table, and bytes an entry: three initials, six score
/// digits and the percentage, as the game keeps them.
pub const HEROES: usize = 8;
pub const ENTRY: usize = 10;

/// The table and, for each entry, the highest guidance level its game had:
/// `None` for an entry the tape came with.
#[derive(Clone, Debug, PartialEq, Eq)]
pub struct Kept {
    pub table: Vec<u8>,
    pub levels: [Option<u8>; 8],
}

/// An entry's line in the file: initials, score, percentage and guidance
/// level, or `-` for the tape's own.
pub open spec fn entry_line(e: Seq<u8>, level: Option<u8>) -> Seq<char> {
    lossy_chars(e.subrange(0, 3)) + seq![' '] + lossy_chars(e.subrange(3, 9)) + seq![' '] + dec(e[9] as nat)
        + seq![' '] + match level {
        Some(l) => dec(l as nat),
        None => seq!['-'],
    } + seq!['\n']
}

/// The file's text for the first `n` entries.
pub open spec fn table_text(table: Seq<u8>, levels: [Option<u8>; 8], n: int) -> Seq<char>
    decreases n,
{
    if n <= 0 {
        seq![]
    } else {
        table_text(table, levels, n - 1) + entry_line(table.subrange((n - 1) * 10, n * 10), levels[n - 1])
    }
}

/// The lines of a text that hold more than white space.
pub open spec fn filled(ls: Seq<Seq<char>>) -> Seq<Seq<char>>
    decreases ls.len(),
{
    if ls.len() == 0 {
        seq![]
    } else {
        filled(ls.drop_last()) + if trim(ls.last()).len() == 0 { seq![] } else { seq![ls.last()] }
    }
}

/// A character that may stand in the initials: ASCII from the space to `~`.
pub open spec fn initial_char(c: char) -> bool {
    ' ' <= c <= '~'
}

/// An entry read from a line: its ten bytes and its level, if the line is
/// one. Three initials first, then, in words separated by white space, six
/// score digits, the percentage, and a level or `-`, and nothing more.
pub open spec fn entry_of_line(line: Seq<char>) -> Option<(Seq<u8>, Option<u8>)> {
    if line.len() >= 3 && initial_char(line[0]) && initial_char(line[1]) && initial_char(line[2]) {
        let w = words(line.skip(3));
        if w.len() == 3 && w[0].len() == 6 && (forall|i: int| 0 <= i < 6 ==> crate::lines::is_digit(#[trigger] w[0][i])) {
            match unsigned(w[1], 255) {
                Some(percent) => {
                    let level: Option<Option<u8>> = if w[2] == seq!['-'] {
                        Some(None)
                    } else {
                        match unsigned(w[2], 255) {
                            Some(l) => if l <= TOP_LEVEL { Some(Some(l as u8)) } else { None },
                            None => None,
                        }
                    };
                    match level {
                        Some(level) => Some(
                            (
                                seq![line[0] as u8, line[1] as u8, line[2] as u8] + w[0].map_values(|c: char| c as u8)
                                    + seq![percent as u8],
                                level,
                            ),
                        ),
                        None => None,
                    }
                },
                None => None,
            }
        } else {
            None
        }
    } else {
        None
    }
}

/// The entries of the first `n` lines, while each line holds one.
pub open spec fn entries_ok(ls: Seq<Seq<char>>) -> bool {
    forall|i: int| 0 <= i < ls.len() ==> #[trigger] entry_of_line(ls[i]) is Some
}

/// The table a text is: eight lines that are not blank, each an entry.
pub open spec fn parse_spec(text: Seq<char>) -> Option<(Seq<u8>, Seq<Option<u8>>)> {
    let ls = filled(lines(text));
    if ls.len() == HEROES && entries_ok(ls) {
        Some(
            (
                Seq::new(80, |k: int| (entry_of_line(ls[k / 10])->0).0[k % 10]),
                Seq::new(8, |i: int| (entry_of_line(ls[i])->0).1),
            ),
        )
    } else {
        None
    }
}

impl Kept {
    /// The table as the tape has it, none of it played here.
    pub fn from_tape(table: &[u8]) -> (k: Kept)
        ensures
            k.table@ == table@,
            forall|i: int| 0 <= i < 8 ==> #[trigger] k.levels[i] is None,
    {
        Kept { table: vstd::slice::slice_to_vec(table), levels: [None; 8] }
    }

    /// An entry's three initials.
    pub fn name(&self, i: usize) -> (n: [u8; 3])
        requires
            i < HEROES,
            self.table@.len() >= ENTRY * HEROES,
        ensures
            n@ == self.table@.subrange(i * 10, i * 10 + 3),
    {
        let n = [self.table[i * ENTRY], self.table[i * ENTRY + 1], self.table[i * ENTRY + 2]];
        assert(n@ =~= self.table@.subrange(i * 10, i * 10 + 3));
        n
    }

    /// The file's text: a line an entry, best first, of its initials, score,
    /// percentage and guidance level, or `-` for the tape's own.
    pub fn text(&self) -> (s: String)
        requires
            self.table@.len() >= ENTRY * HEROES,
        ensures
            s@ == table_text(self.table@, self.levels, 8),
    {
        let mut s = String::new();
        let mut i: usize = 0;
        while i < HEROES
            invariant
                i <= HEROES,
                self.table@.len() >= ENTRY * HEROES,
                s@ == table_text(self.table@, self.levels, i as int),
            decreases HEROES - i,
        {
            let e = vstd::slice::slice_subrange(self.table.as_slice(), i * ENTRY, (i + 1) * ENTRY);
            let name = lossy(vstd::slice::slice_subrange(e, 0, 3));
            let score = lossy(vstd::slice::slice_subrange(e, 3, 9));
            s.append(name.as_str());
            push_char(&mut s, ' ');
            s.append(score.as_str());
            push_char(&mut s, ' ');
            push_dec(&mut s, e[9] as u64);
            push_char(&mut s, ' ');
            match self.levels[i] {
                Some(l) => push_dec(&mut s, l as u64),
                None => push_char(&mut s, '-'),
            }
            push_char(&mut s, '\n');
            proof {
                assert(e@.subrange(0, 3) =~= self.table@.subrange(i * 10, (i + 1) * 10).subrange(0, 3));
                assert(e@.subrange(3, 9) =~= self.table@.subrange(i * 10, (i + 1) * 10).subrange(3, 9));
            }
            i = i + 1;
            assert(s@ =~= table_text(self.table@, self.levels, i as int));
        }
        s
    }

    /// A table from the file's text; `None` when it is not one.
    pub fn parse(text: &str) -> (k: Option<Kept>)
        ensures
            match parse_spec(text@) {
                Some((table, levels)) => k is Some && k->0.table@ == table && k->0.levels@ == levels,
                None => k is None,
            },
    {
        let chars = chars_of(text);
        let all = lines_of(chars.as_slice());
        let mut ls: Vec<Vec<char>> = Vec::new();
        let mut i: usize = 0;
        while i < all.len()
            invariant
                i <= all@.len(),
                views(all@) == lines(text@),
                chars@ == text@,
                views(ls@) == filled(views(all@).take(i as int)),
            decreases all@.len() - i,
        {
            let (a, b) = trim_range(all[i].as_slice());
            assert(views(all@).take(i + 1).drop_last() =~= views(all@).take(i as int));
            assert(views(all@).take(i + 1).last() == all@[i as int]@);
            if a < b {
                let ghost before = ls@;
                let line = copy_range(all[i].as_slice(), 0, all[i].len());
                assert(line@ =~= all@[i as int]@);
                ls.push(line);
                assert(views(ls@) =~= views(before).push(line@));
            }
            i = i + 1;
            assert(views(ls@) =~= filled(views(all@).take(i as int)));
        }
        assert(views(all@).take(i as int) =~= views(all@));
        if ls.len() != HEROES {
            return None;
        }
        let mut table: Vec<u8> = Vec::new();
        let mut levels: [Option<u8>; 8] = [None; 8];
        let mut i: usize = 0;
        while i < HEROES
            invariant
                i <= HEROES,
                ls@.len() == HEROES,
                views(ls@) == filled(lines(text@)),
                table@.len() == 10 * i,
                forall|j: int| 0 <= j < i ==> #[trigger] entry_of_line(ls@[j]@) is Some,
                forall|k: int| 0 <= k < 10 * i ==> #[trigger] table@[k] == (entry_of_line(ls@[k / 10]@)->0).0[k % 10],
                forall|j: int| 0 <= j < i ==> #[trigger] levels[j] == (entry_of_line(ls@[j]@)->0).1,
            decreases HEROES - i,
        {
            assert(views(ls@)[i as int] == ls@[i as int]@);
            match read_entry(ls[i].as_slice()) {
                Some((e, level)) => {
                    let ghost before = table@;
                    let mut k: usize = 0;
                    while k < 10
                        invariant
                            k <= 10,
                            e@.len() == 10,
                            table@ == before + e@.take(k as int),
                        decreases 10 - k,
                    {
                        table.push(e[k]);
                        k = k + 1;
                        assert(table@ =~= before + e@.take(k as int));
                    }
                    assert(e@.take(10) =~= e@);
                    levels[i] = Some(level).unwrap();
                    proof {
                        assert forall|q: int| 0 <= q < 10 * (i + 1) implies #[trigger] table@[q] == (entry_of_line(
                            ls@[q / 10]@,
                        )->0).0[q % 10] by {
                            if q >= 10 * i {
                                assert(q / 10 == i);
                                assert(table@[q] == e@[q - 10 * i]);
                            } else {
                                assert(table@[q] == before[q]);
                            }
                        }
                    }
                },
                None => {
                    proof {
                        assert(!entries_ok(views(ls@)));
                    }
                    return None;
                },
            }
            i = i + 1;
        }
        proof {
            assert(entries_ok(views(ls@)));
            let (t, l) = parse_spec(text@)->0;
            assert(table@ =~= t);
            assert(levels@ =~= l);
        }
        Some(Kept { table, levels })
    }
}

/// The bytes of a score: six decimal digits.
fn six_digits(score: &[char]) -> (r: Option<Vec<u8>>)
    ensures
        match r {
            Some(d) => score@.len() == 6 && (forall|i: int| 0 <= i < 6 ==> crate::lines::is_digit(#[trigger] score@[i]))
                && d@ == score@.map_values(|c: char| c as u8),
            None => !(score@.len() == 6 && (forall|i: int| 0 <= i < 6 ==> crate::lines::is_digit(#[trigger] score@[i]))),
        },
{
    if score.len() != 6 {
        return None;
    }
    let mut digits: Vec<u8> = Vec::new();
    let mut i: usize = 0;
    while i < 6
        invariant
            i <= 6,
            score@.len() == 6,
            digits@ == score@.take(i as int).map_values(|c: char| c as u8),
            forall|j: int| 0 <= j < i ==> crate::lines::is_digit(#[trigger] score@[j]),
        decreases 6 - i,
    {
        let c = score[i];
        if !('0' <= c && c <= '9') {
            assert(!crate::lines::is_digit(score@[i as int]));
            return None;
        }
        digits.push(c as u32 as u8);
        i = i + 1;
        assert(digits@ =~= score@.take(i as int).map_values(|c: char| c as u8));
    }
    assert(score@.take(6) =~= score@);
    Some(digits)
}

/// The entry a line holds, as [`entry_of_line`] has it.
fn read_entry(line: &[char]) -> (r: Option<(Vec<u8>, Option<u8>)>)
    ensures
        match entry_of_line(line@) {
            Some((e, level)) => r is Some && (r->0).0@ == e && (r->0).1 == level,
            None => r is None,
        },
{
    if line.len() < 3 {
        return None;
    }
    let (c0, c1, c2) = (line[0], line[1], line[2]);
    if !(' ' <= c0 && c0 <= '~' && ' ' <= c1 && c1 <= '~' && ' ' <= c2 && c2 <= '~') {
        return None;
    }
    let rest = copy_range(line, 3, line.len());
    assert(rest@ =~= line@.skip(3));
    let w = words_of(rest.as_slice());
    assert(views(w@) == words(line@.skip(3)));
    if w.len() != 3 {
        return None;
    }
    assert(views(w@)[0] == w@[0]@ && views(w@)[1] == w@[1]@ && views(w@)[2] == w@[2]@);
    let digits = match six_digits(w[0].as_slice()) {
        Some(d) => d,
        None => {
            return None;
        },
    };
    let percent = match parse_unsigned(w[1].as_slice(), 255) {
        Some(p) => p as u8,
        None => {
            return None;
        },
    };
    let ghost w2 = w@[2]@;
    let level: Option<u8> = if w[2].len() == 1 && w[2][0] == '-' {
        assert(w2 =~= seq!['-']);
        None
    } else {
        assert(w2 != seq!['-']);
        match parse_unsigned(w[2].as_slice(), 255) {
            Some(l) => if l <= TOP_LEVEL as u32 {
                Some(l as u8)
            } else {
                return None;
            },
            None => {
                return None;
            },
        }
    };
    let mut e: Vec<u8> = Vec::new();
    e.push(c0 as u32 as u8);
    e.push(c1 as u32 as u8);
    e.push(c2 as u32 as u8);
    let mut k: usize = 0;
    while k < 6
        invariant
            k <= 6,
            digits@.len() == 6,
            e@ == seq![c0 as u8, c1 as u8, c2 as u8] + digits@.take(k as int),
        decreases 6 - k,
    {
        e.push(digits[k]);
        k = k + 1;
        assert(e@ =~= seq![c0 as u8, c1 as u8, c2 as u8] + digits@.take(k as int));
    }
    e.push(percent);
    assert(digits@.take(6) =~= digits@);
    assert(e@ =~= seq![line@[0] as u8, line@[1] as u8, line@[2] as u8] + w@[0]@.map_values(|c: char| c as u8)
        + seq![percent]);
    Some((e, level))
}

/// What happens to the table around a game over.
#[derive(Debug)]
pub struct Keeper {
    pub kept: Kept,
    /// Which entry the last game put in, for the panel to mark.
    pub this_game: Option<usize>,
    /// Whether the file may be written: not when one is there that could
    /// not be read, which is left alone.
    writable: bool,
    /// The table to put back once the screen is done, after a game with
    /// training mode.
    restore: Option<Vec<u8>>,
}

/// The levels after an entry is put in at `i`: those from `i` on move down
/// one, the last falls off, and `i` takes `level`.
pub open spec fn levels_with(levels: [Option<u8>; 8], i: int, level: u8) -> Seq<Option<u8>> {
    Seq::new(8, |j: int| if j < i { levels[j] } else if j == i { Some(level) } else { levels[j - 1] })
}

impl Keeper {
    /// The table kept.
    pub closed spec fn kept_now(&self) -> Kept {
        self.kept
    }

    /// Which entry the last game put in.
    pub closed spec fn entry(&self) -> Option<usize> {
        self.this_game
    }

    /// Whether the file may be written.
    pub closed spec fn may_write(&self) -> bool {
        self.writable
    }

    /// The table to put back after the screen, if there is one.
    pub closed spec fn to_restore(&self) -> Option<Seq<u8>> {
        match self.restore {
            Some(t) => Some(t@),
            None => None,
        }
    }

    /// Starts from the file's text, if there is a file, or from the tape's
    /// own table `shipped`.
    pub fn new(file: Option<&str>, shipped: &[u8]) -> (k: Keeper)
        ensures
            match file {
                Some(text) => match parse_spec(text@) {
                    Some((table, levels)) => k.kept_now().table@ == table && k.kept_now().levels@ == levels && k.may_write(),
                    None => k.kept_now().table@ == shipped@ && (forall|i: int| 0 <= i < 8 ==> #[trigger] k.kept_now().levels[i] is None)
                        && !k.may_write(),
                },
                None => k.kept_now().table@ == shipped@ && (forall|i: int| 0 <= i < 8 ==> #[trigger] k.kept_now().levels[i] is None)
                    && k.may_write(),
            },
            k.entry() is None,
            k.to_restore() is None,
    {
        let (kept, writable) = match file {
            Some(text) => match Kept::parse(text) {
                Some(kept) => (kept, true),
                None => (Kept::from_tape(shipped), false),
            },
            None => (Kept::from_tape(shipped), true),
        };
        Keeper { kept, this_game: None, writable, restore: None }
    }

    /// At the CORE OF HEROES screen, showing `table` after a game with
    /// `record` that put in entry `new`: the table to save when it changed,
    /// `None` otherwise. A game with training mode is not
    /// kept: its table is shown, then put back ([`Keeper::shown`]).
    pub fn heroes(&mut self, table: &[u8], new: Option<usize>, record: Record) -> (save: Option<&Kept>)
        requires
            new matches Some(i) ==> i < HEROES,
        ensures
            if record.training {
                &&& save is None
                &&& final(self).entry() is None
                &&& final(self).kept_now() == old(self).kept_now()
                &&& final(self).may_write() == old(self).may_write()
                &&& final(self).to_restore() == if new is Some {
                    Some(old(self).kept_now().table@)
                } else {
                    old(self).to_restore()
                }
            } else {
                &&& final(self).entry() == new
                &&& final(self).may_write() == old(self).may_write()
                &&& final(self).to_restore() == old(self).to_restore()
                &&& match new {
                    Some(i) => {
                        &&& final(self).kept_now().levels@ == levels_with(old(self).kept_now().levels, i as int, record.highest)
                        &&& final(self).kept_now().table@ == table@
                        &&& save is Some == old(self).may_write()
                        &&& save matches Some(k) ==> *k == final(self).kept_now()
                    },
                    None => final(self).kept_now() == old(self).kept_now() && save is None,
                }
            },
    {
        if record.training {
            self.this_game = None;
            if new.is_some() {
                self.restore = Some(vstd::slice::slice_to_vec(self.kept.table.as_slice()));
            }
            return None;
        }
        self.this_game = new;
        let i = match new {
            Some(i) => i,
            None => {
                return None;
            },
        };
        let old_levels = self.kept.levels;
        let mut levels = self.kept.levels;
        let mut j: usize = HEROES - 1;
        while j > i
            invariant
                i < HEROES,
                i <= j < HEROES,
                forall|q: int| 0 <= q <= j ==> #[trigger] levels[q] == old_levels[q],
                forall|q: int| j < q < HEROES ==> #[trigger] levels[q] == old_levels[q - 1],
            decreases j,
        {
            levels[j] = levels[j - 1];
            j = j - 1;
        }
        levels[i] = Some(record.highest);
        assert(levels@ =~= levels_with(old_levels, i as int, record.highest));
        self.kept.levels = levels;
        self.kept.table = vstd::slice::slice_to_vec(table);
        if self.writable {
            Some(&self.kept)
        } else {
            None
        }
    }

    /// The table has been shown: the one to put back, if the game was not
    /// to be kept.
    pub fn shown(&mut self) -> (back: Option<Vec<u8>>)
        ensures
            match back {
                Some(t) => old(self).to_restore() == Some(t@),
                None => old(self).to_restore() is None,
            },
            final(self).to_restore() is None,
            final(self).kept_now() == old(self).kept_now(),
            final(self).entry() == old(self).entry(),
            final(self).may_write() == old(self).may_write(),
    {
        let back = self.restore.take();
        back
    }
}

/// An entry as the game keeps one: three initials from the space to `~`,
/// six score digits, a percentage; and a level this program has, if any.
pub open spec fn entry_keepable(e: Seq<u8>, level: Option<u8>) -> bool {
    &&& e.len() == 10
    &&& forall|j: int| 0 <= j < 3 ==> 0x20 <= #[trigger] e[j] <= 0x7E
    &&& forall|j: int| 3 <= j < 9 ==> 0x30 <= #[trigger] e[j] <= 0x39
    &&& level matches Some(l) ==> l <= TOP_LEVEL
}

/// A table as the game keeps one, with levels this program has.
pub open spec fn keepable(table: Seq<u8>, levels: [Option<u8>; 8]) -> bool {
    &&& table.len() == 80
    &&& forall|i: int| 0 <= i < 8 ==> entry_keepable(#[trigger] table.subrange(10 * i, 10 * i + 10), levels[i])
}

/// An entry's line without its newline.
pub open spec fn entry_body(e: Seq<u8>, level: Option<u8>) -> Seq<char> {
    lossy_chars(e.subrange(0, 3)) + seq![' '] + lossy_chars(e.subrange(3, 9)) + seq![' '] + dec(e[9] as nat)
        + seq![' '] + level_word(level)
}

/// How a level is written: its number, or `-` for none.
pub open spec fn level_word(level: Option<u8>) -> Seq<char> {
    match level {
        Some(l) => dec(l as nat),
        None => seq!['-'],
    }
}

proof fn ascii_of(b: Seq<u8>, lo: u8, hi: u8)
    requires
        hi < 0x80,
        forall|j: int| 0 <= j < b.len() ==> lo <= #[trigger] b[j] <= hi,
    ensures
        lossy_chars(b) == ascii_chars(b),
        forall|j: int| 0 <= j < b.len() ==> lo as char <= #[trigger] ascii_chars(b)[j] <= hi as char
            && ascii_chars(b)[j] as u8 == b[j],
{
    assert(all_ascii(b)) by {
        assert forall|j: int| 0 <= j < b.len() implies #[trigger] b[j] < 0x80 by {
            assert(lo <= b[j] <= hi);
        }
    }
    assert forall|j: int| 0 <= j < b.len() implies lo as char <= #[trigger] ascii_chars(b)[j] <= hi as char
        && ascii_chars(b)[j] as u8 == b[j] by {
        assert(lo <= b[j] <= hi);
    }
}

/// A kept entry's line is read back as that entry, and is a line that is
/// not blank.
proof fn entry_reads_back(e: Seq<u8>, level: Option<u8>)
    requires
        entry_keepable(e, level),
    ensures
        entry_of_line(entry_body(e, level)) == Some((e, level)),
        forall|i: int| 0 <= i < entry_body(e, level).len() ==> #[trigger] entry_body(e, level)[i] != '\n',
        entry_body(e, level).last() != '\r',
        trim(entry_body(e, level)).len() > 0,
        entry_line(e, level) == entry_body(e, level) + seq!['\n'],
{
    let names = e.subrange(0, 3);
    let digits = e.subrange(3, 9);
    ascii_of(names, 0x20, 0x7E);
    ascii_of(digits, 0x30, 0x39);
    let initials = ascii_chars(names);
    let score = ascii_chars(digits);
    let pct = dec(e[9] as nat);
    let lv = level_word(level);
    crate::lines::dec_reads_back(e[9] as nat);
    match level {
        Some(l) => crate::lines::dec_reads_back(l as nat),
        None => {},
    }
    assert(lv.len() > 0 && !white(lv[0]) && !white(lv.last()) && lv[0] != '\n' && lv.last() != '\n');
    assert forall|i: int| 0 <= i < lv.len() implies !white(#[trigger] lv[i]) && lv[i] != '\n' by {
        if level is Some {
            assert(crate::lines::is_digit(lv[i]));
        }
    }
    assert forall|i: int| 0 <= i < pct.len() implies !white(#[trigger] pct[i]) && pct[i] != '\n' by {
        assert(crate::lines::is_digit(pct[i]));
    }
    assert forall|i: int| 0 <= i < 6 implies !white(#[trigger] score[i]) && crate::lines::is_digit(score[i]) by {
        assert(digits[i] == e[3 + i]);
    }
    let body = entry_body(e, level);
    let r2 = seq![' '] + lv;
    let r1 = seq![' '] + pct + r2;
    assert(body =~= initials + (seq![' '] + score + r1));
    assert(entry_line(e, level) =~= body + seq!['\n']);
    assert(body.skip(3) =~= seq![' '] + score + r1);
    crate::lines::words_of_spaced(lv, seq![]);
    assert(seq![' '] + lv + Seq::<char>::empty() =~= r2);
    assert(words(Seq::<char>::empty()) =~= Seq::<Seq<char>>::empty());
    crate::lines::words_of_spaced(pct, r2);
    crate::lines::words_of_spaced(score, r1);
    let w = words(body.skip(3));
    assert(w =~= seq![score, pct, lv]);
    assert(sans_plus(pct) == pct);
    assert(unsigned(w[1], 255) == Some(e[9] as int));
    let lvl: Option<Option<u8>> = if w[2] == seq!['-'] {
        Some(None)
    } else {
        match unsigned(w[2], 255) {
            Some(l) => if l <= TOP_LEVEL { Some(Some(l as u8)) } else { None },
            None => None,
        }
    };
    match level {
        Some(l) => {
            assert(crate::lines::is_digit(lv[0]));
            assert(lv != seq!['-']);
            assert(sans_plus(lv) == lv);
            assert(unsigned(w[2], 255) == Some(l as int));
            assert(lvl == Some(level));
        },
        None => {
            assert(lvl == Some(level));
        },
    }
    assert forall|j: int| 0 <= j < 3 implies initial_char(#[trigger] body[j]) && body[j] as u8 == e[j] by {
        assert(body[j] == initials[j]);
        assert(names[j] == e[j]);
    }
    let back = seq![body[0] as u8, body[1] as u8, body[2] as u8] + w[0].map_values(|c: char| c as u8) + seq![
        e[9] as int as u8,
    ];
    assert forall|j: int| 0 <= j < 10 implies #[trigger] back[j] == e[j] by {
        if 3 <= j < 9 {
            assert(back[j] == score[j - 3] as u8);
            assert(digits[j - 3] == e[j]);
        }
    }
    assert(back =~= e);
    assert(entry_of_line(body) == Some((e, level)));
    assert forall|i: int| 0 <= i < body.len() implies #[trigger] body[i] != '\n' by {
        if i < 3 {
            assert(body[i] == initials[i]);
        } else if 4 <= i < 10 {
            assert(body[i] == score[i - 4]);
        } else if 11 <= i < 11 + pct.len() {
            assert(body[i] == pct[i - 11]);
        } else if 12 + pct.len() <= i {
            assert(body[i] == lv[i - 12 - pct.len()]);
        }
    }
    assert(body.last() == lv.last());
    assert(body[4] == score[0]);
    crate::lines::not_blank(body, 4);
}

/// The lines of the text of the first `n` entries.
proof fn table_lines(table: Seq<u8>, levels: [Option<u8>; 8], n: int)
    requires
        keepable(table, levels),
        0 <= n <= 8,
    ensures
        lines(table_text(table, levels, n)) == Seq::new(
            n as nat,
            |i: int| entry_body(table.subrange(10 * i, 10 * i + 10), levels[i]),
        ),
        n == 0 || table_text(table, levels, n).last() == '\n',
    decreases n,
{
    if n == 0 {
        assert(lines(table_text(table, levels, n)) =~= Seq::<Seq<char>>::empty());
    } else {
        table_lines(table, levels, n - 1);
        let e = table.subrange(10 * (n - 1), 10 * (n - 1) + 10);
        assert(entry_keepable(e, levels[n - 1]));
        entry_reads_back(e, levels[n - 1]);
        let before = table_text(table, levels, n - 1);
        let body = entry_body(e, levels[n - 1]);
        crate::lines::lines_append(before, body + seq!['\n']);
        crate::lines::lines_of_first(body, seq![]);
        assert(body + seq!['\n'] + Seq::<char>::empty() =~= body + seq!['\n']);
        assert(lines(Seq::<char>::empty()) =~= Seq::<Seq<char>>::empty());
        assert(table.subrange(10 * (n - 1), n * 10) == e);
        assert(lines(table_text(table, levels, n)) =~= Seq::new(
            n as nat,
            |i: int| entry_body(table.subrange(10 * i, 10 * i + 10), levels[i]),
        ));
    }
}

proof fn filled_when_none_blank(ls: Seq<Seq<char>>)
    requires
        forall|i: int| 0 <= i < ls.len() ==> trim(#[trigger] ls[i]).len() > 0,
    ensures
        filled(ls) == ls,
    decreases ls.len(),
{
    if ls.len() > 0 {
        filled_when_none_blank(ls.drop_last());
        assert(trim(ls[ls.len() - 1]).len() > 0);
        assert(filled(ls) =~= ls);
    }
}

/// Reading back the file's text gives the table and the levels it was
/// written from, when the table is one the game keeps (initials from the
/// space to `~`, six score digits) and each level is one this program has.
pub proof fn table_reads_back(table: Seq<u8>, levels: [Option<u8>; 8])
    requires
        keepable(table, levels),
    ensures
        parse_spec(table_text(table, levels, 8)) == Some((table, levels@)),
{
    table_lines(table, levels, 8);
    let ls = lines(table_text(table, levels, 8));
    assert forall|i: int| 0 <= i < 8 implies trim(#[trigger] ls[i]).len() > 0
        && entry_of_line(ls[i]) == Some((table.subrange(10 * i, 10 * i + 10), levels[i])) by {
        assert(entry_keepable(table.subrange(10 * i, 10 * i + 10), levels[i]));
        entry_reads_back(table.subrange(10 * i, 10 * i + 10), levels[i]);
    }
    filled_when_none_blank(ls);
    assert(entries_ok(ls));
    let t = Seq::new(80, |k: int| (entry_of_line(ls[k / 10])->0).0[k % 10]);
    assert forall|k: int| 0 <= k < 80 implies #[trigger] t[k] == table[k] by {
        let i = k / 10;
        assert(0 <= i < 8);
        assert(entry_of_line(ls[i]) == Some((table.subrange(10 * i, 10 * i + 10), levels[i])));
        assert(10 * i + k % 10 == k);
    }
    assert(t =~= table);
    let l = Seq::new(8, |i: int| (entry_of_line(ls[i])->0).1);
    assert(l =~= levels@);
}

} // verus!
