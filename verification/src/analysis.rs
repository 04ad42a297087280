//! Code discovery and block formation.
//!
//! Entry points come from the trace, the config, the runtime's miss log and
//! the snapshot's PC. From those, recursive descent follows every statically
//! known branch, call and return address. Each entry point then becomes a
//! block: a straight run of instructions ending at an unconditional control
//! transfer or where another entry point begins.
//!
//! A set of addresses is kept as a table of 65536 flags, one per address;
//! walking it from the bottom visits the set in ascending order.

use vstd::prelude::*;
use crate::config::{Analysis as Hints, Config};
use crate::decode::{decode, decode_spec, flow_spec, Decoded, Flow};
use crate::machine::add16w;
use crate::trace::Trace;

verus! {

pub struct BlockInstr {
    pub addr: u16,
    pub d: Decoded,
    /// Executed by the interpreter at run time (self-modifying code).
    pub interpret: bool,
}

#[derive(Clone, Copy, Debug, PartialEq, Eq, Structural)]
pub enum Exit {
    /// The last instruction always leaves the block.
    Terminated,
    /// Execution runs on into the block at this address.
    FallInto(u16),
}

pub struct Block {
    pub start: u16,
    pub instrs: Vec<BlockInstr>,
    pub exit: Exit,
}

pub struct Analysis {
    /// Memory image code was compiled from: the snapshot with the ROM, with
    /// code bytes as they were when the trace executed them.
    pub image: Vec<u8>,
    pub rom_loaded: bool,
    pub blocks: Vec<Block>,
    pub stats: Stats,
    /// Instruction start addresses found by recursive descent.
    pub code_starts: Vec<bool>,
    /// Targets of CALL and RST instructions, a flag per address.
    pub call_targets: Vec<bool>,
    /// Block entry points, a flag per address.
    pub entries: Vec<bool>,
}

#[derive(Debug)]
pub struct Stats {
    pub traced_entries: usize,
    pub traced_instrs: usize,
    pub self_modifying: Vec<u16>,
    pub entries: usize,
    pub instrs: usize,
}

/// What [`analyze`] works from: the image, which instructions changed
/// while traced, the hints, and whether the ROM is there.
pub struct Ctx<'a> {
    pub hints: &'a Hints,
    pub image: &'a [u8],
    pub self_modified: &'a [bool],
    pub rom_loaded: bool,
}

/// The code being analysed, as values: the image, which instructions
/// changed while traced, the hints, and whether the ROM is there.
pub struct Code {
    pub image: Seq<u8>,
    pub self_modified: Seq<bool>,
    pub noreturn: Seq<u16>,
    pub inline_strings: Seq<u16>,
    pub interpret: Seq<[u16; 2]>,
    pub rom_loaded: bool,
}

/// Whether code at `pc` can be compiled at all: not the ROM's unless it
/// was loaded.
pub open spec fn compilable(rom_loaded: bool, pc: u16) -> bool {
    pc >= 0x4000 || rom_loaded
}

/// Whether `pc` is in one of the inclusive ranges.
pub open spec fn in_ranges(ranges: Seq<[u16; 2]>, pc: u16) -> bool {
    exists|i: int| 0 <= i < ranges.len() && #[trigger] ranges[i][0] <= pc && pc <= ranges[i][1]
}

/// Whether the instruction at `pc` must be left to the interpreter: it
/// changed while traced, or the hints say so.
pub open spec fn interpreted(c: Code, pc: u16) -> bool {
    c.self_modified[pc as int] || in_ranges(c.interpret, pc)
}

/// Whether a block ends after an instruction that flows `f`.
pub open spec fn terminates(c: Code, f: Flow) -> bool {
    match f {
        Flow::Jump(_) | Flow::Indirect | Flow::Halt => true,
        Flow::Return { conditional } => !conditional,
        Flow::Call { conditional, target } => !conditional || c.noreturn.contains(target)
            || c.inline_strings.contains(target),
        Flow::Next | Flow::Branch(_) => false,
    }
}

/// An instruction of a block, as values.
pub open spec fn block_instr(c: Code, pc: u16) -> (u16, Decoded, bool) {
    (pc, decode_spec(c.image, pc), interpreted(c, pc))
}

/// The block from `start`, having got to `pc` with `done` so far: its
/// instructions and how it ends.
pub open spec fn form_from(c: Code, entries: Seq<bool>, max: nat, start: u16, pc: u16, done: Seq<(u16, Decoded, bool)>) -> (
    Seq<(u16, Decoded, bool)>,
    Exit,
)
    decreases 0x10000 - pc,
{
    if (pc != start && entries[pc as int]) || done.len() >= max || !compilable(c.rom_loaded, pc) {
        (done, Exit::FallInto(pc))
    } else {
        let d = decode_spec(c.image, pc);
        let more = done.push(block_instr(c, pc));
        let next = add16w(pc, d.len as int);
        if terminates(c, flow_spec(d.instr)) {
            (more, Exit::Terminated)
        } else if next <= pc {
            (more, Exit::FallInto(next))
        } else {
            form_from(c, entries, max, start, next, more)
        }
    }
}

/// The block that starts at `start`.
pub open spec fn form_spec(c: Code, entries: Seq<bool>, max: nat, start: u16) -> (Seq<(u16, Decoded, bool)>, Exit) {
    form_from(c, entries, max, start, start, seq![])
}

/// A block's instructions as values.
pub open spec fn instrs_view(v: Seq<BlockInstr>) -> Seq<(u16, Decoded, bool)> {
    v.map_values(|b: BlockInstr| (b.addr, b.d, b.interpret))
}

/// Whether `v` is in `s`.
pub fn contains(s: &[u16], v: u16) -> (b: bool)
    ensures
        b == s@.contains(v),
{
    let mut i: usize = 0;
    while i < s.len()
        invariant
            i <= s@.len(),
            forall|k: int| 0 <= k < i ==> s@[k] != v,
        decreases s@.len() - i,
    {
        if s[i] == v {
            assert(s@[i as int] == v);
            return true;
        }
        i = i + 1;
    }
    false
}

impl<'a> Ctx<'a> {
    pub open spec fn code(self) -> Code {
        Code {
            image: self.image@,
            self_modified: self.self_modified@,
            noreturn: self.hints.noreturn@,
            inline_strings: self.hints.inline_strings@,
            interpret: self.hints.interpret@,
            rom_loaded: self.rom_loaded,
        }
    }

    pub open spec fn wf(self) -> bool {
        self.image@.len() == 0x10000 && self.self_modified@.len() == 0x10000
    }

    fn decode(&self, pc: u16) -> (d: Decoded)
        requires
            self.wf(),
        ensures
            d == decode_spec(self.image@, pc),
            1 <= d.len <= 4,
    {
        decode(self.image, pc)
    }

    /// Whether the instruction at `pc` must be left to the interpreter.
    fn interpret(&self, pc: u16) -> (b: bool)
        requires
            self.wf(),
        ensures
            b == interpreted(self.code(), pc),
    {
        if self.self_modified[pc as usize] {
            return true;
        }
        let ranges = &self.hints.interpret;
        let mut i: usize = 0;
        while i < ranges.len()
            invariant
                i <= ranges@.len(),
                ranges@ == self.hints.interpret@,
                forall|k: int| 0 <= k < i ==> !(#[trigger] ranges@[k][0] <= pc && pc <= ranges@[k][1]),
            decreases ranges@.len() - i,
        {
            let r = ranges[i];
            if r[0] <= pc && pc <= r[1] {
                assert(ranges@[i as int][0] <= pc && pc <= ranges@[i as int][1]);
                return true;
            }
            i = i + 1;
        }
        false
    }

    /// Whether code at `pc` can be compiled at all.
    fn compilable(&self, pc: u16) -> (b: bool)
        ensures
            b == compilable(self.rom_loaded, pc),
    {
        pc >= 0x4000 || self.rom_loaded
    }

    /// Whether a block ends after an instruction that flows `f`.
    fn terminates(&self, f: Flow) -> (b: bool)
        ensures
            b == terminates(self.code(), f),
    {
        match f {
            Flow::Jump(_) | Flow::Indirect | Flow::Halt => true,
            Flow::Return { conditional } => !conditional,
            Flow::Call { conditional, target } => {
                !conditional || contains(self.hints.noreturn.as_slice(), target) || contains(
                    self.hints.inline_strings.as_slice(),
                    target,
                )
            },
            Flow::Next | Flow::Branch(_) => false,
        }
    }
}


/// Where the `0xFF`-terminated string from `e` ends: at its terminator, or
/// at the top of memory.
pub open spec fn string_end(image: Seq<u8>, e: u16) -> u16
    decreases 0xFFFF - e,
{
    if image[e as int] != 0xFF && e != 0xFFFF {
        string_end(image, (e + 1) as u16)
    } else {
        e
    }
}

/// Whether a walk of the code goes on past the instruction at `p` to the
/// next: it may fall through, and it does not stop to skip inline data or
/// for a call that never returns.
pub open spec fn falls(c: Code, p: u16) -> bool {
    match flow_spec(decode_spec(c.image, p).instr) {
        Flow::Next | Flow::Branch(_) => true,
        Flow::Call { target, .. } => !c.inline_strings.contains(target) && !c.noreturn.contains(
            target,
        ),
        Flow::Return { conditional } => conditional,
        _ => false,
    }
}

/// The address after the instruction at `p`.
pub open spec fn next_of(c: Code, p: u16) -> u16 {
    add16w(p, decode_spec(c.image, p).len as int)
}

/// An address a block may start at, if it can be compiled, is one.
pub open spec fn entered(c: Code, entries: Seq<bool>, a: u16) -> bool {
    compilable(c.rom_loaded, a) ==> entries[a as int]
}

/// Every place control can go from the instruction at `p` other than
/// falling through is an entry point, and a call's target is known as one.
pub open spec fn targets_ok(c: Code, entries: Seq<bool>, calls: Seq<bool>, p: u16) -> bool {
    let next = next_of(c, p);
    match flow_spec(decode_spec(c.image, p).instr) {
        Flow::Jump(a) | Flow::Branch(a) => entered(c, entries, a),
        Flow::Call { target, .. } => calls[target as int] && entered(c, entries, target) && if c.inline_strings.contains(
            target,
        ) {
            entered(c, entries, add16w(string_end(c.image, next), 1))
        } else if c.noreturn.contains(target) {
            true
        } else {
            entered(c, entries, next)
        },
        Flow::Halt => entered(c, entries, next),
        _ => true,
    }
}

/// The instruction at `p` has been followed: where it goes is known, and
/// where it falls through to has been walked.
pub open spec fn explored(c: Code, entries: Seq<bool>, visited: Seq<bool>, calls: Seq<bool>, p: u16) -> bool {
    &&& targets_ok(c, entries, calls, p)
    &&& falls(c, p) && compilable(c.rom_loaded, next_of(c, p)) ==> visited[next_of(c, p) as int]
}

/// Whether flowing `f` calls `a`.
pub open spec fn calls_to(f: Flow, a: u16) -> bool {
    match f {
        Flow::Call { target, .. } => target == a,
        _ => false,
    }
}

/// Some walked instruction calls `a`.
pub open spec fn called(c: Code, visited: Seq<bool>, a: u16) -> bool {
    exists|q: u16| #[trigger] visited[q as int] && calls_to(flow_spec(decode_spec(c.image, q).instr), a)
}

/// Adds `a` to the entry points if it can be compiled, and to the work
/// list if it is new.
fn target(ctx: &Ctx, a: u16, entries: &mut Vec<bool>, work: &mut Vec<u16>, Ghost(visited): Ghost<Seq<bool>>)
    requires
        old(entries)@.len() == 0x10000,
    ensures
        worked(old(entries)@, visited, old(work)@) ==> worked(final(entries)@, visited, final(work)@),
        (forall|b: u16| #[trigger] old(entries)@[b as int] ==> compilable(ctx.rom_loaded, b)) ==> (forall|b: u16|
            #[trigger] final(entries)@[b as int] ==> compilable(ctx.rom_loaded, b)),
        count_set(final(entries)@) - count_set(old(entries)@) == final(work)@.len() - old(work)@.len(),
        final(entries)@ == if compilable(ctx.rom_loaded, a) { old(entries)@.update(a as int, true) } else { old(entries)@ },
        final(work)@ == if compilable(ctx.rom_loaded, a) && !old(entries)@[a as int] {
            old(work)@.push(a)
        } else {
            old(work)@
        },
{
    if ctx.compilable(a) && !entries[a as usize] {
        proof {
            count_set_update(entries@, a as int);
        }
        entries.set(a as usize, true);
        work.push(a);
        proof {
            if worked(old(entries)@, visited, old(work)@) {
                assert forall|b: u16| #[trigger] entries@[b as int] implies visited[b as int] || work@.contains(b) by {
                    if b == a {
                        assert(work@[work@.len() - 1] == a);
                    } else {
                        assert(old(entries)@[b as int]);
                        if old(work)@.contains(b) {
                            let i = choose|i: int| 0 <= i < old(work)@.len() && old(work)@[i] == b;
                            assert(work@[i] == b);
                        }
                    }
                }
            }
        }
    } else if ctx.compilable(a) {
        assert(old(entries)@.update(a as int, true) =~= old(entries)@);
    }
}

/// Where the string from `e` ends.
fn find_string_end(image: &[u8], e: u16) -> (end: u16)
    requires
        image@.len() == 0x10000,
    ensures
        end == string_end(image@, e),
{
    let mut end = e;
    while image[end as usize] != 0xFF && end != 0xFFFF
        invariant
            image@.len() == 0x10000,
            e <= end,
            string_end(image@, end) == string_end(image@, e),
        decreases 0xFFFF - end,
    {
        end = end + 1;
    }
    end
}

/// The work list and the entry points agree: everything on the list is an
/// entry point, and an entry point is on it until it has been walked.
pub open spec fn worked(entries: Seq<bool>, visited: Seq<bool>, work: Seq<u16>) -> bool {
    &&& forall|i: int| 0 <= i < work.len() ==> entries[#[trigger] work[i] as int]
    &&& forall|a: u16| #[trigger] entries[a as int] ==> visited[a as int] || work.contains(a)
}

/// Everything a walk keeps true of what it has found so far.
pub open spec fn walk_inv(c: Code, entries: Seq<bool>, visited: Seq<bool>, calls: Seq<bool>) -> bool {
    &&& entries.len() == 0x10000 && visited.len() == 0x10000 && calls.len() == 0x10000
    &&& forall|a: u16| #[trigger] entries[a as int] ==> compilable(c.rom_loaded, a)
    &&& forall|a: u16| #[trigger] visited[a as int] ==> compilable(c.rom_loaded, a)
    &&& forall|a: u16| #[trigger] calls[a as int] ==> called(c, visited, a)
}

/// Follows what the instruction at `pc` does for the walk: its targets
/// become entry points, and says whether the walk goes on to the next.
fn follow(ctx: &Ctx, pc: u16, entries: &mut Vec<bool>, work: &mut Vec<u16>, calls: &mut Vec<bool>, visited: &Vec<bool>) -> (on: bool)
    requires
        ctx.wf(),
        walk_inv(ctx.code(), old(entries)@, visited@, old(calls)@),
        worked(old(entries)@, visited@, old(work)@),
        visited@[pc as int],
    ensures
        on == falls(ctx.code(), pc),
        walk_inv(ctx.code(), final(entries)@, visited@, final(calls)@),
        worked(final(entries)@, visited@, final(work)@),
        targets_ok(ctx.code(), final(entries)@, final(calls)@, pc),
        forall|a: u16| old(entries)@[a as int] ==> #[trigger] final(entries)@[a as int],
        forall|a: u16| old(calls)@[a as int] ==> #[trigger] final(calls)@[a as int],
        count_set(final(entries)@) - count_set(old(entries)@) == final(work)@.len() - old(work)@.len(),
        final(work)@.len() >= old(work)@.len(),
{
    let d = ctx.decode(pc);
    let next = ((pc as u32 + d.len as u32) % 65536) as u16;
    let ghost e0 = entries@;
    let ghost w0 = work@;
    match d.instr.flow() {
        Flow::Next => true,
        Flow::Jump(a) => {
            target(ctx, a, entries, work, Ghost(visited@));
            false
        },
        Flow::Branch(a) => {
            target(ctx, a, entries, work, Ghost(visited@));
            true
        },
        Flow::Call { target: a, .. } => {
            calls.set(a as usize, true);
            target(ctx, a, entries, work, Ghost(visited@));
            if contains(ctx.hints.inline_strings.as_slice(), a) {
                // Resume after the string's terminator.
                let end = find_string_end(ctx.image, next);
                target(ctx, ((end as u32 + 1) % 65536) as u16, entries, work, Ghost(visited@));
                return false;
            }
            if contains(ctx.hints.noreturn.as_slice(), a) {
                return false;
            }
            // The return lands here: a block boundary.
            target(ctx, next, entries, work, Ghost(visited@));
            true
        },
        Flow::Return { conditional } => conditional,
        Flow::Indirect => false,
        Flow::Halt => {
            target(ctx, next, entries, work, Ghost(visited@));
            false
        },
    }
}


/// How many flags are set.
pub open spec fn count_set(s: Seq<bool>) -> nat
    decreases s.len(),
{
    if s.len() == 0 {
        0
    } else {
        count_set(s.drop_last()) + if s.last() { 1nat } else { 0 }
    }
}

proof fn count_set_bounded(s: Seq<bool>)
    ensures
        count_set(s) <= s.len(),
    decreases s.len(),
{
    if s.len() > 0 {
        count_set(s.drop_last());
        count_set_bounded(s.drop_last());
    }
}

proof fn count_set_update(s: Seq<bool>, i: int)
    requires
        0 <= i < s.len(),
        !s[i],
    ensures
        count_set(s.update(i, true)) == count_set(s) + 1,
    decreases s.len(),
{
    let t = s.update(i, true);
    if i == s.len() - 1 {
        assert(t.drop_last() =~= s.drop_last());
    } else {
        count_set_update(s.drop_last(), i);
        assert(t.drop_last() =~= s.drop_last().update(i, true));
    }
}

/// Walks the code from `start`, an entry point, instruction by
/// instruction until it has been walked before, cannot be compiled, or
/// control does not go on to the next.
fn walk(ctx: &Ctx, start: u16, entries: &mut Vec<bool>, work: &mut Vec<u16>, calls: &mut Vec<bool>, visited: &mut Vec<bool>)
    requires
        ctx.wf(),
        walk_inv(ctx.code(), old(entries)@, old(visited)@, old(calls)@),
        old(entries)@[start as int],
        worked(old(entries)@, old(visited)@, old(work)@.push(start)),
        forall|p: u16| #[trigger] old(visited)@[p as int] ==> explored(ctx.code(), old(entries)@, old(visited)@, old(calls)@, p),
    ensures
        walk_inv(ctx.code(), final(entries)@, final(visited)@, final(calls)@),
        worked(final(entries)@, final(visited)@, final(work)@),
        final(visited)@[start as int],
        forall|p: u16| #[trigger] final(visited)@[p as int] ==> explored(ctx.code(), final(entries)@, final(visited)@, final(calls)@, p),
        forall|a: u16| old(entries)@[a as int] ==> #[trigger] final(entries)@[a as int],
        count_set(final(entries)@) - count_set(old(entries)@) == final(work)@.len() - old(work)@.len(),
        final(work)@.len() >= old(work)@.len(),
{
    let mut pc = start;
    let ghost mut prev: Option<u16> = None;
    proof {
        if visited@[start as int] {
            assert forall|a: u16| #[trigger] entries@[a as int] implies visited@[a as int] || work@.contains(a) by {
                if a != start && !visited@[a as int] {
                    assert(work@.push(start).contains(a));
                    let i = choose|i: int| 0 <= i < work@.push(start).len() && work@.push(start)[i] == a;
                    assert(work@[i] == a);
                }
            }
            assert forall|i: int| 0 <= i < work@.len() implies entries@[#[trigger] work@[i] as int] by {
                assert(work@.push(start)[i] == work@[i]);
            }
        }
    }
    loop
        invariant
            ctx.wf(),
            walk_inv(ctx.code(), entries@, visited@, calls@),
            entries@[start as int],
            worked(entries@, visited@, work@.push(start)) || visited@[start as int],
            worked(entries@, visited@, work@) || !visited@[start as int],
            pc == start || visited@[start as int],
            prev is None ==> pc == start,
            prev is Some ==> visited@[start as int],
            prev matches Some(q) ==> visited@[q as int] && targets_ok(ctx.code(), entries@, calls@, q) && falls(ctx.code(), q) && next_of(ctx.code(), q) == pc,
            prev is None ==> visited@ == old(visited)@,
            forall|p: u16| #[trigger] visited@[p as int] && Some(p) != prev ==> explored(ctx.code(), entries@, visited@, calls@, p),
            forall|a: u16| old(entries)@[a as int] ==> #[trigger] entries@[a as int],
            count_set(entries@) - count_set(old(entries)@) == work@.len() - old(work)@.len(),
            work@.len() >= old(work)@.len(),
        decreases 0x10000 - count_set(visited@),
    {
        if visited[pc as usize] || !ctx.compilable(pc) {
            proof {
                if prev is None && !visited@[start as int] {
                    assert(worked(entries@, visited@, work@)) by {
                        assert forall|a: u16| #[trigger] entries@[a as int] implies visited@[a as int] || work@.contains(a) by {
                            if a != start && !visited@[a as int] {
                                assert(work@.push(start).contains(a));
                                let i = choose|i: int| 0 <= i < work@.push(start).len() && work@.push(start)[i] == a;
                                assert(work@[i] == a);
                            }
                        }
                        assert forall|i: int| 0 <= i < work@.len() implies entries@[#[trigger] work@[i] as int] by {
                            assert(work@.push(start)[i] == work@[i]);
                        }
                    }
                }
            }
            return;
        }
        let ghost before = visited@;
        proof {
            count_set_update(visited@, pc as int);
            count_set_bounded(visited@.update(pc as int, true));
        }
        visited.set(pc as usize, true);
        proof {
            if prev is None {
                assert forall|a: u16| #[trigger] entries@[a as int] implies visited@[a as int] || work@.contains(a) by {
                    if a != start && !visited@[a as int] {
                        assert(work@.push(start).contains(a));
                        let i = choose|i: int| 0 <= i < work@.push(start).len() && work@.push(start)[i] == a;
                        assert(work@[i] == a);
                    }
                }
                assert forall|i: int| 0 <= i < work@.len() implies entries@[#[trigger] work@[i] as int] by {
                    assert(work@.push(start)[i] == work@[i]);
                }
            }
            assert forall|a: u16| #[trigger] calls@[a as int] implies called(ctx.code(), visited@, a) by {
                let q = choose|q: u16| #[trigger] before[q as int] && calls_to(flow_spec(decode_spec(ctx.image@, q).instr), a);
                assert(visited@[q as int]);
            }
        }
        let on = follow(ctx, pc, entries, work, calls, visited);
        let d = ctx.decode(pc);
        let next = ((pc as u32 + d.len as u32) % 65536) as u16;
        if !on {
            return;
        }
        proof {
            prev = Some(pc);
        }
        pc = next;
    }
}


/// The addresses whose flags are set among the first `n`, in ascending
/// order.
pub open spec fn set_addrs(s: Seq<bool>, n: int) -> Seq<u16>
    decreases n,
{
    if n <= 0 {
        seq![]
    } else {
        set_addrs(s, n - 1) + if s[n - 1] { seq![(n - 1) as u16] } else { seq![] }
    }
}

proof fn set_addrs_facts(s: Seq<bool>, n: int)
    requires
        0 <= n <= s.len(),
        s.len() <= 0x10000,
    ensures
        forall|i: int| 0 <= i < set_addrs(s, n).len() ==> #[trigger] s[set_addrs(s, n)[i] as int] && set_addrs(s, n)[i] < n,
        forall|a: u16| a < n && #[trigger] s[a as int] ==> set_addrs(s, n).contains(a),
        forall|i: int, j: int| 0 <= i < j < set_addrs(s, n).len() ==> set_addrs(s, n)[i] < set_addrs(s, n)[j],
        set_addrs(s, n).len() == count_set(s.take(n)),
    decreases n,
{
    if n > 0 {
        set_addrs_facts(s, n - 1);
        assert(s.take(n).drop_last() =~= s.take(n - 1));
        let prev = set_addrs(s, n - 1);
        let cur = set_addrs(s, n);
        assert forall|a: u16| a < n && #[trigger] s[a as int] implies cur.contains(a) by {
            if a < n - 1 {
                let i = choose|i: int| 0 <= i < prev.len() && prev[i] == a;
                assert(cur[i] == a);
            } else {
                assert(cur[cur.len() - 1] == a);
            }
        }
        assert forall|i: int| 0 <= i < cur.len() implies #[trigger] s[cur[i] as int] && cur[i] < n by {
            if i < prev.len() {
                assert(cur[i] == prev[i]);
                assert(s[prev[i] as int]);
            } else {
                assert(cur[i] == (n - 1) as u16);
            }
        }
        assert forall|i: int, j: int| 0 <= i < j < cur.len() implies cur[i] < cur[j] by {
            if j >= prev.len() {
                assert(cur[j] == (n - 1) as u16);
                assert(cur[i] == prev[i]);
                assert(s[prev[i] as int]);
                assert(prev[i] < n - 1);
            } else {
                assert(cur[i] == prev[i] && cur[j] == prev[j]);
            }
        }
    }
}

/// The set addresses, in ascending order.
fn addrs_of(s: &Vec<bool>) -> (v: Vec<u16>)
    requires
        s@.len() == 0x10000,
    ensures
        v@ == set_addrs(s@, 0x10000),
{
    let mut v: Vec<u16> = Vec::new();
    let mut a: usize = 0;
    while a < 0x10000
        invariant
            a <= 0x10000,
            s@.len() == 0x10000,
            v@ == set_addrs(s@, a as int),
        decreases 0x10000 - a,
    {
        if s[a] {
            v.push(a as u16);
        }
        a = a + 1;
    }
    v
}

/// Walks all the code reachable from the entry points, which it adds to
/// as it finds branch and call targets and the places calls return to.
/// Returns the instruction starts it walked and the call targets it found.
fn descend(ctx: &Ctx, entries: &mut Vec<bool>) -> (r: (Vec<bool>, Vec<bool>))
    requires
        ctx.wf(),
        old(entries)@.len() == 0x10000,
        forall|a: u16| #[trigger] old(entries)@[a as int] ==> compilable(ctx.rom_loaded, a),
    ensures
        walk_inv(ctx.code(), final(entries)@, r.0@, r.1@),
        forall|a: u16| old(entries)@[a as int] ==> #[trigger] final(entries)@[a as int],
        forall|a: u16| #[trigger] final(entries)@[a as int] ==> r.0@[a as int],
        forall|p: u16| #[trigger] r.0@[p as int] ==> explored(ctx.code(), final(entries)@, r.0@, r.1@, p),
{
    let mut visited = crate::trace::filled(false, 0x10000);
    let mut calls = crate::trace::filled(false, 0x10000);
    let mut work = addrs_of(entries);
    proof {
        set_addrs_facts(entries@, 0x10000);
        count_set_bounded(entries@);
        assert(entries@.take(0x10000) =~= entries@);
        assert forall|a: u16| #[trigger] calls@[a as int] implies called(ctx.code(), visited@, a) by {}
        assert forall|a: u16| #[trigger] entries@[a as int] implies visited@[a as int] || work@.contains(a) by {}
    }
    while work.len() > 0
        invariant
            ctx.wf(),
            walk_inv(ctx.code(), entries@, visited@, calls@),
            worked(entries@, visited@, work@),
            forall|a: u16| old(entries)@[a as int] ==> #[trigger] entries@[a as int],
            forall|p: u16| #[trigger] visited@[p as int] ==> explored(ctx.code(), entries@, visited@, calls@, p),
            count_set(entries@) <= 0x10000,
        decreases 0x10000 - count_set(entries@), work@.len(),
    {
        let ghost w0 = work@;
        let start = work.pop().unwrap();
        assert(w0 =~= work@.push(start));
        assert(entries@[start as int]) by {
            assert(w0[w0.len() - 1] == start);
        }
        walk(ctx, start, entries, &mut work, &mut calls, &mut visited);
        proof {
            count_set_bounded(entries@);
        }
    }
    proof {
        assert forall|a: u16| #[trigger] entries@[a as int] implies visited@[a as int] by {
            if !visited@[a as int] {
                assert(work@.contains(a));
            }
        }
    }
    (visited, calls)
}


/// `m` with the first `k` of `bytes` written from `pc` on, round the top
/// of memory.
pub open spec fn put_bytes(m: Seq<u8>, pc: int, bytes: [u8; 4], k: int) -> Seq<u8>
    decreases k,
{
    if k <= 0 {
        m
    } else {
        put_bytes(m, pc, bytes, k - 1).update((pc + k - 1) % 0x10000, bytes[k - 1])
    }
}

/// The memory with the code as the trace executed it, for the first `n`
/// addresses: each instruction's bytes as first executed written over it.
pub open spec fn traced_image(mem: Seq<u8>, executed: Seq<Option<(u8, [u8; 4])>>, n: int) -> Seq<u8>
    decreases n,
{
    if n <= 0 {
        mem
    } else {
        let m = traced_image(mem, executed, n - 1);
        match executed[n - 1] {
            Some((len, bytes)) => put_bytes(m, n - 1, bytes, if len < 4 { len as int } else { 4 }),
            None => m,
        }
    }
}

/// How many of the first `n` addresses had an instruction executed there.
pub open spec fn count_some(executed: Seq<Option<(u8, [u8; 4])>>, n: int) -> nat
    decreases n,
{
    if n <= 0 {
        0
    } else {
        count_some(executed, n - 1) + if executed[n - 1] is Some { 1nat } else { 0 }
    }
}

/// The entry points analysis starts from: the trace's, the snapshot's PC,
/// the interrupt routine if the ROM is there, the config's and the
/// runtime's misses, as far as they can be compiled.
pub open spec fn seeded(traced: Seq<bool>, pc: u16, rom: bool, hints: Seq<u16>, extra: Seq<u16>, a: u16) -> bool {
    (traced[a as int] || a == pc || (rom && a == 0x0038) || hints.contains(a) || extra.contains(a)) && compilable(
        rom,
        a,
    )
}

/// Where a block from an entry point runs on into code that is no entry
/// point: a block starts there too, if it can be compiled.
pub open spec fn split_at(c: Code, entries: Seq<bool>, max: nat, a: u16) -> bool {
    compilable(c.rom_loaded, a) && exists|e: u16| #[trigger] entries[e as int] && form_spec(c, entries, max, e).1 == Exit::FallInto(a)
}

/// The code an analysis of `image` sees.
pub open spec fn code_of(image: Seq<u8>, trace: Trace, hints: Hints, rom: bool) -> Code {
    Code {
        image,
        self_modified: trace.self_modified@,
        noreturn: hints.noreturn@,
        inline_strings: hints.inline_strings@,
        interpret: hints.interpret@,
        rom_loaded: rom,
    }
}

/// The longest block the hints allow: at least one instruction.
pub open spec fn max_block(hints: Hints) -> nat {
    if hints.max_block_instrs >= 1 { hints.max_block_instrs as nat } else { 1 }
}

/// The total of the blocks' instruction counts.
pub open spec fn total_instrs(blocks: Seq<Block>) -> int
    decreases blocks.len(),
{
    if blocks.len() == 0 {
        0
    } else {
        total_instrs(blocks.drop_last()) + blocks.last().instrs@.len()
    }
}

/// The memory with the code bytes as the trace executed them, and how many
/// instructions it executed.
fn image_from_trace(snapshot_memory: &[u8], trace: &Trace) -> (r: (Vec<u8>, usize))
    requires
        snapshot_memory@.len() == 0x10000,
        trace.wf(),
    ensures
        r.0@ == traced_image(snapshot_memory@, trace.executed@, 0x10000),
        r.0@.len() == 0x10000,
        r.1 == count_some(trace.executed@, 0x10000),
{
    let mut image = vstd::slice::slice_to_vec(snapshot_memory);
    let mut count: usize = 0;
    let mut pc: usize = 0;
    while pc < 0x10000
        invariant
            pc <= 0x10000,
            trace.wf(),
            image@ == traced_image(snapshot_memory@, trace.executed@, pc as int),
            image@.len() == 0x10000,
            count == count_some(trace.executed@, pc as int),
            count <= pc,
        decreases 0x10000 - pc,
    {
        match trace.executed[pc] {
            Some((len, bytes)) => {
                count = count + 1;
                let n: usize = if len < 4 { len as usize } else { 4 };
                let ghost m = image@;
                let mut i: usize = 0;
                while i < n
                    invariant
                        i <= n <= 4,
                        pc < 0x10000,
                        image@ == put_bytes(m, pc as int, bytes, i as int),
                        image@.len() == 0x10000,
                    decreases n - i,
                {
                    image.set((pc + i) % 0x10000, bytes[i]);
                    i = i + 1;
                }
            },
            None => {},
        }
        pc = pc + 1;
    }
    (image, count)
}

/// The entry points the analysis starts from.
fn seeds(ctx: &Ctx, trace: &Trace, snapshot_pc: u16, extra_entries: &[u16]) -> (entries: Vec<bool>)
    requires
        trace.wf(),
    ensures
        entries@.len() == 0x10000,
        forall|a: u16| #[trigger] entries@[a as int] == seeded(
            trace.entries@,
            snapshot_pc,
            ctx.rom_loaded,
            ctx.hints.entry_points@,
            extra_entries@,
            a,
        ),
{
    let mut entries: Vec<bool> = Vec::new();
    let mut a: usize = 0;
    while a < 0x10000
        invariant
            a <= 0x10000,
            trace.wf(),
            entries@.len() == a,
            forall|b: u16| b < a ==> #[trigger] entries@[b as int] == seeded(
                trace.entries@,
                snapshot_pc,
                ctx.rom_loaded,
                ctx.hints.entry_points@,
                extra_entries@,
                b,
            ),
        decreases 0x10000 - a,
    {
        let b = a as u16;
        let seed = (trace.entries[a] || b == snapshot_pc || (ctx.rom_loaded && b == 0x0038) || contains(
            ctx.hints.entry_points.as_slice(),
            b,
        ) || contains(extra_entries, b)) && ctx.compilable(b);
        entries.push(seed);
        a = a + 1;
    }
    entries
}

/// The block that starts at `start`: instructions from there until one
/// always leaves, another entry point begins, the block is `max` long, the
/// code cannot be compiled, or the addresses wrap past the top.
pub fn form_block(ctx: &Ctx, start: u16, entries: &[bool], max: usize) -> (b: Block)
    requires
        ctx.wf(),
        entries@.len() == 0x10000,
    ensures
        b.start == start,
        (instrs_view(b.instrs@), b.exit) == form_spec(ctx.code(), entries@, max as nat, start),
{
    let mut pc = start;
    let mut instrs: Vec<BlockInstr> = Vec::new();
    assert(instrs_view(instrs@) =~= Seq::<(u16, Decoded, bool)>::empty());
    loop
        invariant
            ctx.wf(),
            entries@.len() == 0x10000,
            form_from(ctx.code(), entries@, max as nat, start, pc, instrs_view(instrs@)) == form_spec(
                ctx.code(),
                entries@,
                max as nat,
                start,
            ),
        decreases 0x10000 - pc,
    {
        let reached_other = pc != start && entries[pc as usize];
        if reached_other || instrs.len() >= max || !ctx.compilable(pc) {
            return Block { start, instrs, exit: Exit::FallInto(pc) };
        }
        let d = ctx.decode(pc);
        let interpret = ctx.interpret(pc);
        let ghost before = instrs@;
        instrs.push(BlockInstr { addr: pc, d, interpret });
        assert(instrs_view(instrs@) =~= instrs_view(before).push(block_instr(ctx.code(), pc)));
        let terminates = ctx.terminates(d.instr.flow());
        let next = ((pc as u32 + d.len as u32) % 65536) as u16;
        if terminates {
            return Block { start, instrs, exit: Exit::Terminated };
        }
        if next < pc {
            // Wrapped past 0xFFFF; let the dispatcher take it from there.
            return Block { start, instrs, exit: Exit::FallInto(next) };
        }
        pc = next;
    }
}


proof fn form_from_len(c: Code, entries: Seq<bool>, max: nat, start: u16, pc: u16, done: Seq<(u16, Decoded, bool)>)
    ensures
        form_from(c, entries, max, start, pc, done).0.len() <= done.len() + 0x10000 - pc,
    decreases 0x10000 - pc,
{
    if (pc != start && entries[pc as int]) || done.len() >= max || !compilable(c.rom_loaded, pc) {
    } else {
        let d = decode_spec(c.image, pc);
        let more = done.push(block_instr(c, pc));
        let next = add16w(pc, d.len as int);
        if terminates(c, flow_spec(d.instr)) {
        } else if next <= pc {
        } else {
            form_from_len(c, entries, max, start, next, more);
        }
    }
}

/// The entry points with a block starting wherever a block runs on into
/// code that is no entry point.
fn with_splits(ctx: &Ctx, entries: &Vec<bool>, max: usize) -> (all: Vec<bool>)
    requires
        ctx.wf(),
        entries@.len() == 0x10000,
    ensures
        all@.len() == 0x10000,
        forall|a: u16| #[trigger] all@[a as int] == (entries@[a as int] || split_at(ctx.code(), entries@, max as nat, a)),
{
    let addrs = addrs_of(entries);
    proof {
        set_addrs_facts(entries@, 0x10000);
    }
    let mut splits: Vec<u16> = Vec::new();
    let mut k: usize = 0;
    while k < addrs.len()
        invariant
            k <= addrs@.len(),
            ctx.wf(),
            entries@.len() == 0x10000,
            addrs@ == set_addrs(entries@, 0x10000),
            forall|i: int| 0 <= i < addrs@.len() ==> #[trigger] entries@[addrs@[i] as int],
            forall|a: u16| #![trigger splits@.contains(a)] splits@.contains(a) <==> !entries@[a as int] && exists|j: int|
                0 <= j < k && #[trigger] form_spec(ctx.code(), entries@, max as nat, addrs@[j]).1 == Exit::FallInto(a),
        decreases addrs@.len() - k,
    {
        let b = form_block(ctx, addrs[k], entries.as_slice(), max);
        let ghost before = splits@;
        match b.exit {
            Exit::FallInto(a) => {
                if !entries[a as usize] {
                    splits.push(a);
                }
            },
            Exit::Terminated => {},
        }
        proof {
            assert forall|a: u16| #![trigger splits@.contains(a)] splits@.contains(a) <==> !entries@[a as int] && exists|j: int|
                0 <= j < k + 1 && #[trigger] form_spec(ctx.code(), entries@, max as nat, addrs@[j]).1 == Exit::FallInto(a) by {
                if splits@.contains(a) {
                    if !before.contains(a) {
                        assert(b.exit == Exit::FallInto(a));
                        assert(form_spec(ctx.code(), entries@, max as nat, addrs@[k as int]).1 == Exit::FallInto(a));
                    } else {
                        let j = choose|j: int| 0 <= j < k && #[trigger] form_spec(ctx.code(), entries@, max as nat, addrs@[j]).1 == Exit::FallInto(a);
                        assert(0 <= j < k + 1);
                    }
                } else {
                    assert(!before.contains(a)) by {
                        if before.contains(a) {
                            let i = choose|i: int| 0 <= i < before.len() && before[i] == a;
                            assert(splits@[i] == a);
                        }
                    }
                    if !entries@[a as int] && exists|j: int| 0 <= j < k + 1 && #[trigger] form_spec(ctx.code(), entries@, max as nat, addrs@[j]).1 == Exit::FallInto(a) {
                        let j = choose|j: int| 0 <= j < k + 1 && #[trigger] form_spec(ctx.code(), entries@, max as nat, addrs@[j]).1 == Exit::FallInto(a);
                        if j == k {
                            assert(splits@[splits@.len() - 1] == a);
                        }
                    }
                }
            }
        }
        k = k + 1;
    }
    let mut all = vstd::slice::slice_to_vec(entries.as_slice());
    let mut i: usize = 0;
    while i < splits.len()
        invariant
            i <= splits@.len(),
            all@.len() == 0x10000,
            forall|a: u16| #[trigger] all@[a as int] == (entries@[a as int] || (compilable(ctx.rom_loaded, a) && splits@.take(i as int).contains(a))),
        decreases splits@.len() - i,
    {
        let a = splits[i];
        if ctx.compilable(a) {
            all.set(a as usize, true);
        }
        proof {
            let t0 = splits@.take(i as int);
            let t1 = splits@.take(i + 1);
            assert forall|b: u16| #[trigger] all@[b as int] == (entries@[b as int] || (compilable(ctx.rom_loaded, b) && t1.contains(b))) by {
                if t0.contains(b) {
                    let q = choose|q: int| 0 <= q < t0.len() && t0[q] == b;
                    assert(t1[q] == b);
                }
                if t1.contains(b) && b != a {
                    let q = choose|q: int| 0 <= q < t1.len() && t1[q] == b;
                    assert(t0[q] == b);
                }
                if b == a {
                    assert(t1[i as int] == a);
                }
            }
        }
        i = i + 1;
    }
    assert(splits@.take(i as int) =~= splits@);
    proof {
        assert forall|a: u16| #[trigger] all@[a as int] == (entries@[a as int] || split_at(ctx.code(), entries@, max as nat, a)) by {
            if split_at(ctx.code(), entries@, max as nat, a) && !entries@[a as int] {
                let e = choose|e: u16| #[trigger] entries@[e as int] && form_spec(ctx.code(), entries@, max as nat, e).1 == Exit::FallInto(a);
                assert(addrs@.contains(e));
                let j = choose|j: int| 0 <= j < addrs@.len() && addrs@[j] == e;
                assert(form_spec(ctx.code(), entries@, max as nat, addrs@[j]).1 == Exit::FallInto(a));
                assert(splits@.contains(a));
            }
            if splits@.contains(a) && compilable(ctx.rom_loaded, a) {
                let j = choose|j: int| 0 <= j < addrs@.len() && #[trigger] form_spec(ctx.code(), entries@, max as nat, addrs@[j]).1 == Exit::FallInto(a);
                assert(entries@[addrs@[j] as int]);
            }
        }
    }
    all
}

/// One block per entry point, in ascending order of address.
fn form_blocks(ctx: &Ctx, entries: &Vec<bool>, max: usize) -> (blocks: Vec<Block>)
    requires
        ctx.wf(),
        entries@.len() == 0x10000,
    ensures
        blocks@.len() == set_addrs(entries@, 0x10000).len(),
        forall|k: int| 0 <= k < blocks@.len() ==> #[trigger] blocks@[k].start == set_addrs(entries@, 0x10000)[k],
        forall|k: int|
            0 <= k < blocks@.len() ==> (instrs_view(#[trigger] blocks@[k].instrs@), blocks@[k].exit) == form_spec(
                ctx.code(),
                entries@,
                max as nat,
                blocks@[k].start,
            ),
{
    let addrs = addrs_of(entries);
    let mut blocks: Vec<Block> = Vec::new();
    let mut k: usize = 0;
    while k < addrs.len()
        invariant
            k <= addrs@.len(),
            ctx.wf(),
            entries@.len() == 0x10000,
            addrs@ == set_addrs(entries@, 0x10000),
            blocks@.len() == k,
            forall|j: int| 0 <= j < k ==> #[trigger] blocks@[j].start == addrs@[j],
            forall|j: int|
                0 <= j < k ==> (instrs_view(#[trigger] blocks@[j].instrs@), blocks@[j].exit) == form_spec(
                    ctx.code(),
                    entries@,
                    max as nat,
                    blocks@[j].start,
                ),
        decreases addrs@.len() - k,
    {
        let b = form_block(ctx, addrs[k], entries.as_slice(), max);
        blocks.push(b);
        k = k + 1;
    }
    blocks
}

/// The sum of the blocks' instruction counts.
fn count_instrs(ctx: &Ctx, blocks: &Vec<Block>, entries: &Vec<bool>, max: usize) -> (n: u64)
    requires
        blocks@.len() <= 0x10000,
        forall|k: int|
            0 <= k < blocks@.len() ==> (instrs_view(#[trigger] blocks@[k].instrs@), blocks@[k].exit) == form_spec(
                ctx.code(),
                entries@,
                max as nat,
                blocks@[k].start,
            ),
    ensures
        n == total_instrs(blocks@),
{
    let mut n: u64 = 0;
    let mut k: usize = 0;
    while k < blocks.len()
        invariant
            k <= blocks@.len() <= 0x10000,
            n == total_instrs(blocks@.take(k as int)),
            n <= k * 0x10000,
            forall|j: int|
                0 <= j < blocks@.len() ==> (instrs_view(#[trigger] blocks@[j].instrs@), blocks@[j].exit) == form_spec(
                    ctx.code(),
                    entries@,
                    max as nat,
                    blocks@[j].start,
                ),
        decreases blocks@.len() - k,
    {
        proof {
            let b = blocks@[k as int];
            form_from_len(ctx.code(), entries@, max as nat, b.start, b.start, seq![]);
            assert(instrs_view(b.instrs@).len() == b.instrs@.len());
            assert(blocks@.take(k + 1).drop_last() =~= blocks@.take(k as int));
        }
        n = n + blocks[k].instrs.len() as u64;
        k = k + 1;
    }
    assert(blocks@.take(k as int) =~= blocks@);
    n
}

/// What the walk of an analysis found: `walked` are the entry points it
/// ended with, which hold every seed; it walked each, and followed every
/// instruction it walked; the entry points the analysis gives are those,
/// and wherever a block from one of them runs on into code that is none.
pub open spec fn walked_from(
    walked: Seq<bool>,
    a: Analysis,
    cfg: &Config,
    trace: &Trace,
    snapshot_pc: u16,
    rom_loaded: bool,
    extra: Seq<u16>,
) -> bool {
    let c = code_of(a.image@, *trace, cfg.analysis, rom_loaded);
    &&& walk_inv(c, walked, a.code_starts@, a.call_targets@)
    &&& forall|x: u16|
        #[trigger] seeded(trace.entries@, snapshot_pc, rom_loaded, cfg.analysis.entry_points@, extra, x) ==> walked[x as int]
    &&& forall|x: u16| #[trigger] walked[x as int] ==> a.code_starts@[x as int]
    &&& forall|p: u16| #[trigger] a.code_starts@[p as int] ==> explored(c, walked, a.code_starts@, a.call_targets@, p)
    &&& forall|x: u16| #[trigger] a.entries@[x as int] == (walked[x as int] || split_at(c, walked, max_block(cfg.analysis), x))
}

/// Finds the code and forms the blocks: the image the code is compiled
/// from, with code bytes as the trace executed them; recursive descent from
/// every known entry point; and a block from each entry point, with more
/// entry points wherever a block ran on into code that was none.
pub fn analyze(
    cfg: &Config,
    snapshot_memory: &[u8],
    snapshot_pc: u16,
    rom_loaded: bool,
    trace: &Trace,
    extra_entries: &[u16],
) -> (a: Analysis)
    requires
        snapshot_memory@.len() == 0x10000,
        trace.wf(),
    ensures
        a.image@ == traced_image(snapshot_memory@, trace.executed@, 0x10000),
        a.rom_loaded == rom_loaded,
        a.stats.traced_instrs == count_some(trace.executed@, 0x10000),
        a.stats.traced_entries == count_set(trace.entries@),
        a.stats.self_modifying@ == set_addrs(trace.self_modified@, 0x10000),
        a.code_starts@.len() == 0x10000 && a.call_targets@.len() == 0x10000 && a.entries@.len() == 0x10000,
        exists|walked: Seq<bool>| #[trigger] walked_from(walked, a, cfg, trace, snapshot_pc, rom_loaded, extra_entries@),
        a.blocks@.len() == set_addrs(a.entries@, 0x10000).len(),
        forall|k: int| 0 <= k < a.blocks@.len() ==> #[trigger] a.blocks@[k].start == set_addrs(a.entries@, 0x10000)[k],
        forall|k: int|
            0 <= k < a.blocks@.len() ==> (instrs_view(#[trigger] a.blocks@[k].instrs@), a.blocks@[k].exit) == form_spec(
                code_of(a.image@, *trace, cfg.analysis, rom_loaded),
                a.entries@,
                max_block(cfg.analysis),
                a.blocks@[k].start,
            ),
        a.stats.entries == a.blocks@.len(),
        a.stats.instrs == total_instrs(a.blocks@) as usize,
{
    let (image, traced_instrs) = image_from_trace(snapshot_memory, trace);
    let self_modifying = addrs_of(&trace.self_modified);
    let traced_entries = count_flags(&trace.entries);
    let max: usize = if cfg.analysis.max_block_instrs >= 1 { cfg.analysis.max_block_instrs } else { 1 };
    let ctx = Ctx { hints: &cfg.analysis, image: image.as_slice(), self_modified: trace.self_modified.as_slice(), rom_loaded };
    let mut walked = seeds(&ctx, trace, snapshot_pc, extra_entries);
    let ghost seeded_entries = walked@;
    let (visited, calls) = descend(&ctx, &mut walked);
    let entries = with_splits(&ctx, &walked, max);
    let blocks = form_blocks(&ctx, &entries, max);
    proof {
        set_addrs_facts(entries@, 0x10000);
        count_set_bounded(entries@);
        assert(entries@.take(0x10000) =~= entries@);
    }
    let instrs = count_instrs(&ctx, &blocks, &entries, max);
    let n = blocks.len();
    proof {
        assert(ctx.code() == code_of(image@, *trace, cfg.analysis, rom_loaded));
        assert(max as nat == max_block(cfg.analysis));
        let c = ctx.code();
        assert forall|x: u16|
            #[trigger] seeded(trace.entries@, snapshot_pc, rom_loaded, cfg.analysis.entry_points@, extra_entries@, x)
                implies walked@[x as int] by {
            assert(seeded_entries[x as int]);
        }
        let w = walked@;
        assert({
            &&& walk_inv(c, w, visited@, calls@)
            &&& forall|x: u16|
                #[trigger] seeded(trace.entries@, snapshot_pc, rom_loaded, cfg.analysis.entry_points@, extra_entries@, x)
                    ==> w[x as int]
            &&& forall|x: u16| #[trigger] w[x as int] ==> visited@[x as int]
            &&& forall|p: u16| #[trigger] visited@[p as int] ==> explored(c, w, visited@, calls@, p)
            &&& forall|x: u16| #[trigger] entries@[x as int] == (w[x as int] || split_at(c, w, max as nat, x))
        });
    }
    let a = Analysis {
        image,
        rom_loaded,
        blocks,
        stats: Stats {
            traced_entries,
            traced_instrs,
            self_modifying,
            entries: n,
            instrs: instrs as usize,
        },
        code_starts: visited,
        call_targets: calls,
        entries,
    };
    assert(walked_from(walked@, a, cfg, trace, snapshot_pc, rom_loaded, extra_entries@));
    a
}

/// How many flags are set.
fn count_flags(s: &Vec<bool>) -> (n: usize)
    requires
        s@.len() == 0x10000,
    ensures
        n == count_set(s@),
{
    let mut n: usize = 0;
    let mut i: usize = 0;
    while i < s.len()
        invariant
            i <= s@.len() == 0x10000,
            n == count_set(s@.take(i as int)),
            n <= i,
        decreases s@.len() - i,
    {
        assert(s@.take(i + 1).drop_last() =~= s@.take(i as int));
        if s[i] {
            n = n + 1;
        }
        i = i + 1;
    }
    assert(s@.take(i as int) =~= s@);
    n
}

} // verus!
