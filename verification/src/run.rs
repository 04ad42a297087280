//! Running the machine: a 50 Hz frame with compiled blocks and the
//! interpreter between them, running until an address is reached, and
//! calling a subroutine of the original on its own.

use vstd::prelude::*;
use std::collections::BTreeMap;
use crate::interp::{step, STEP_T_MAX};
use crate::machine::{Zx, INT_LEN};
use crate::block::accepted;
use crate::interp::stepped;
use crate::trace::Trace;
use crate::timing::FRAME_T;

verus! {

/// The most T-states one compiled block may run for.
pub const BLOCK_T_MAX: u32 = 65536;

/// Compiled code: runs the block at `z.pc`, if there is one, and says
/// whether it did. A block that runs moves the clock on, and by no more
/// than [`BLOCK_T_MAX`]; one that does not run leaves the machine alone.
pub trait BlockCode {
    fn run(&self, z: &mut Zx) -> (ran: bool)
        requires
            old(z).wf(),
            old(z).t as int + BLOCK_T_MAX <= u32::MAX,
        ensures
            final(z).wf(),
            final(z).frame == old(z).frame,
            ran ==> old(z).t < final(z).t <= old(z).t + BLOCK_T_MAX,
            !ran ==> *final(z) == *old(z);
}

/// No compiled code: everything runs in the interpreter.
pub struct NoCode;

impl BlockCode for NoCode {
    fn run(&self, z: &mut Zx) -> (ran: bool) {
        no_code(z)
    }
}

/// A block function with no compiled code: it never runs anything.
pub fn no_code(z: &mut Zx) -> (ran: bool)
    ensures
        !ran,
        *final(z) == *old(z),
{
    false
}

/// The counts with one more run at `pc`, stopping at the largest count.
pub open spec fn counted(c: Map<u16, u64>, pc: u16) -> Map<u16, u64> {
    c.insert(
        pc,
        if c.contains_key(pc) {
            if c[pc] == u64::MAX { u64::MAX } else { (c[pc] + 1) as u64 }
        } else {
            1
        },
    )
}

/// The top of a turn from state `a`: a pending interrupt is accepted when
/// interrupts are on and no EI is just done, or dropped once its 32
/// T-states have gone by; then any EI delay is over. `m` is the state after.
pub open spec fn irq_phase(a: Zx, m: Zx) -> bool {
    if a.int_pending && a.iff1 && !a.ei_delay {
        exists|tr: Option<Trace>, x: Zx|
            #![trigger accepted(Zx { int_pending: false, trace: tr, ..a }, x)]
            accepted(Zx { int_pending: false, trace: tr, ..a }, x) && m == (Zx { ei_delay: false, ..x })
    } else if a.int_pending && a.t >= INT_LEN {
        m == (Zx { int_pending: false, ei_delay: false, ..a })
    } else {
        m == (Zx { ei_delay: false, ..a })
    }
}

/// How many NOPs a halted processor runs from `m`: to four T-states on if
/// an interrupt is pending, else to the frame's end.
pub open spec fn halt_nops(m: Zx) -> int {
    let until = if m.int_pending { m.t + 4 } else { FRAME_T as int };
    (until - m.t + 3) / 4
}

/// A halted processor after its NOPs: the clock four T-states a NOP on,
/// and R counting them.
pub open spec fn halted_to(m: Zx, b: Zx) -> bool {
    &&& b == (Zx { t: (m.t + halt_nops(m) * 4) as u32, r: b.r, ..m })
    &&& b.r & 0x80 == m.r & 0x80
    &&& (b.r & 0x7F) as int == (m.r + halt_nops(m)) % 128
}

/// A compiled block ran from `m`: all that compiled code promises.
pub open spec fn block_ran(m: Zx, b: Zx) -> bool {
    &&& b.wf()
    &&& b.frame == m.frame
    &&& m.t < b.t <= m.t + BLOCK_T_MAX
}

/// One turn of a frame from `a` to `b`: the interrupt phase, then a halted
/// processor's NOPs, a compiled block, or one interpreted instruction,
/// whose run is counted as a miss where it starts. `fa` and `fb` say
/// whether an interpreted run is under way, `ca` and `cb` are the counts.
pub open spec fn frame_turn(a: Zx, fa: bool, ca: Map<u16, u64>, b: Zx, fb: bool, cb: Map<u16, u64>) -> bool {
    exists|m: Zx|
        #[trigger] irq_phase(a, m) && if m.halted {
            halted_to(m, b) && fb == fa && cb == ca
        } else {
            ||| block_ran(m, b) && !fb && cb == ca
            ||| (exists|tr: Option<Trace>| #[trigger] stepped(m, b, tr)) && fb && cb == (if fa {
                ca
            } else {
                counted(ca, m.pc)
            })
        }
}

/// Turns of a frame, each taken while the clock is short of the frame's
/// end.
pub open spec fn frame_turns(s: Seq<(Zx, bool, Map<u16, u64>)>) -> bool {
    &&& s.len() >= 1
    &&& forall|i: int|
        #![trigger s[i]]
        0 <= i < s.len() - 1 ==> s[i].0.t < FRAME_T && frame_turn(s[i].0, s[i].1, s[i].2, s[i + 1].0, s[i + 1].1, s[i + 1].2)
}

/// The top of a turn of a run to an address: past the frame's end the
/// clock goes round, and the next frame's interrupt is pending.
pub open spec fn wrapped(a: Zx) -> Zx {
    if a.t >= FRAME_T {
        Zx { t: (a.t - FRAME_T) as u32, frame: (a.frame + 1) as u64, int_pending: true, ..a }
    } else {
        a
    }
}

/// Whether a run gives up at `a`, its `k` frames counted: a frame ends
/// with all `max` frames gone.
pub open spec fn out_of_frames(a: Zx, k: u32, max: u32) -> bool {
    a.t >= FRAME_T && k == max
}

/// One turn of a run to an address, from `a` to `b`: the clock goes round
/// at a frame's end, the interrupt phase, then a halted processor's NOPs
/// or, when not at a target after the first instruction, one interpreted
/// instruction. `fa` and `fb` say whether no instruction has run yet, `ka`
/// and `kb` count the frames begun.
pub open spec fn until_turn(a: Zx, fa: bool, ka: u32, b: Zx, fb: bool, kb: u32, targets: Seq<u16>, max: u32) -> bool {
    &&& !out_of_frames(a, ka, max)
    &&& kb == (if a.t >= FRAME_T { ka + 1 } else { ka as int })
    &&& exists|m: Zx|
        #[trigger] irq_phase(wrapped(a), m) && if m.halted {
            halted_to(m, b) && fb == fa
        } else {
            &&& fa || !targets.contains(m.pc)
            &&& !fb
            &&& exists|tr: Option<Trace>| #[trigger] stepped(m, b, tr)
        }
}

/// Turns of a run to an address.
pub open spec fn until_turns(s: Seq<(Zx, bool, u32)>, targets: Seq<u16>, max: u32) -> bool {
    &&& s.len() >= 1
    &&& forall|i: int|
        #![trigger s[i]]
        0 <= i < s.len() - 1 ==> until_turn(s[i].0, s[i].1, s[i].2, s[i + 1].0, s[i + 1].1, s[i + 1].2, targets, max)
}

/// A run to an address from `z0` by the turns `s`, ending in `z1`: at a
/// target after at least one instruction, when `reached`; else at the end
/// of its last frame.
pub open spec fn until_ran(s: Seq<(Zx, bool, u32)>, z0: Zx, z1: Zx, reached: bool, targets: Seq<u16>, max: u32) -> bool {
    let c = s.last();
    &&& until_turns(s, targets, max)
    &&& s[0] == (z0, true, 0u32)
    &&& reached ==> {
        &&& !out_of_frames(c.0, c.2, max)
        &&& irq_phase(wrapped(c.0), z1)
        &&& !z1.halted
        &&& !c.1
        &&& targets.contains(z1.pc)
    }
    &&& !reached ==> out_of_frames(c.0, c.2, max) && z1 == (Zx {
        t: (c.0.t - FRAME_T) as u32,
        frame: (c.0.frame + 1) as u64,
        ..c.0
    })
}

/// Whether a call of the routine at `addr` from `z0` starts at `s0`: the
/// halt state and the EI delay cleared, the return address 0 pushed, and
/// on to `addr`.
pub open spec fn call_start(z0: Zx, s0: Zx, addr: u16) -> bool {
    exists|p: Zx|
        #[trigger] crate::block::pushed(Zx { halted: false, ei_delay: false, ..z0 }, p, 0) && p.sp == crate::machine::add16w(
            z0.sp,
            -2,
        ) && s0 == (Zx { pc: addr, ..p })
}

/// Whether a call stops at `z`: returned to address 0 with the stack back
/// at `sp`, or at one of `stops`.
pub open spec fn at_stop(z: Zx, sp: u16, stops: Seq<u16>) -> bool {
    (z.pc == 0 && z.sp == sp) || stops.contains(z.pc)
}

/// `b` follows `a` by one interpreted instruction.
pub open spec fn step_to(a: Zx, b: Zx) -> bool {
    exists|tr: Option<Trace>| #[trigger] stepped(a, b, tr)
}

/// Each of the first `n` states of `s` goes to the next by one
/// interpreted instruction.
#[verifier::opaque]
pub open spec fn steps_ok(s: Seq<Zx>, n: int) -> bool {
    forall|i: int| #![trigger s[i]] 0 <= i < n ==> step_to(s[i], s[i + 1])
}

/// No state of `s` after the first and before the `n`th is a stop.
#[verifier::opaque]
pub open spec fn no_stop_before(s: Seq<Zx>, n: int, sp: u16, stops: Seq<u16>) -> bool {
    forall|j: int| #![trigger s[j]] 1 <= j < n ==> !at_stop(s[j], sp, stops)
}

proof fn path_grows(s: Seq<Zx>, z: Zx, n: int, sp: u16, stops: Seq<u16>)
    requires
        s.len() == n + 1,
        n >= 0,
        steps_ok(s, n),
        no_stop_before(s, n, sp, stops),
        step_to(s.last(), z),
        n > 0 ==> !at_stop(s.last(), sp, stops),
    ensures
        steps_ok(s.push(z), n + 1),
        no_stop_before(s.push(z), n + 1, sp, stops),
{
    reveal(steps_ok);
    reveal(no_stop_before);
    let p = s.push(z);
    assert forall|k: int| #![trigger p[k]] 0 <= k < n + 1 implies step_to(p[k], p[k + 1]) by {
        if k < n {
            assert(p[k] == s[k] && p[k + 1] == s[k + 1]);
        } else {
            assert(p[k] == s.last() && p[k + 1] == z);
        }
    }
    assert forall|j: int| #![trigger p[j]] 1 <= j < n + 1 implies !at_stop(p[j], sp, stops) by {
        assert(p[j] == s[j]);
        if j < n {
            assert(!at_stop(s[j], sp, stops));
        } else {
            assert(s[j] == s.last());
        }
    }
}

/// A call of the routine at `addr` from `z0`, ending in `z1` with result
/// `res`, went through the states `s`: one interpreted instruction from
/// each to the next, stopping at the first state that is a stop, or after
/// `max` instructions; the result says whether it stopped, and how many
/// T-states the instructions took; the clock, the halt state and the EI
/// delay are put back.
pub open spec fn call_ran(s: Seq<Zx>, z0: Zx, z1: Zx, addr: u16, stops: Seq<u16>, max: u64, res: (bool, u32)) -> bool {
    let k = s.len() - 1;
    &&& s.len() >= 1
    &&& k <= max
    &&& call_start(z0, s[0], addr)
    &&& steps_ok(s, k)
    &&& no_stop_before(s, k, z0.sp, stops)
    &&& res.0 == (k >= 1 && at_stop(s[k], z0.sp, stops))
    &&& !res.0 ==> k == max
    &&& res.1 == s[k].t - s[0].t
    &&& z1 == (Zx { t: z0.t, halted: z0.halted, ei_delay: z0.ei_delay, ..s[k] })
}

/// The stop addresses an optional stop gives.
pub open spec fn stops_of(stop: Option<u16>) -> Seq<u16> {
    match stop {
        Some(x) => seq![x],
        None => Seq::<u16>::empty(),
    }
}

/// A frame run from `z0` with miss counts `c0` ends in `z1` with counts
/// `c1`: the turns from the interrupt pending at its start until the
/// clock reaches the frame's end, then the clock goes round.
pub open spec fn frame_ran(z0: Zx, c0: Map<u16, u64>, z1: Zx, c1: Map<u16, u64>) -> bool {
    exists|s: Seq<(Zx, bool, Map<u16, u64>)>|
        {
            &&& #[trigger] frame_turns(s)
            &&& s[0] == (Zx { int_pending: true, ..z0 }, false, c0)
            &&& s.last().0.t >= FRAME_T
            &&& z1 == (Zx { t: (s.last().0.t - FRAME_T) as u32, frame: (z0.frame + 1) as u64, ..s.last().0 })
            &&& c1 == s.last().2
        }
}

/// Addresses the recompiled code could not handle, with hit counts. Fed
/// back to the recompiler as extra entry points.
#[derive(Default)]
pub struct Misses {
    pub counts: BTreeMap<u16, u64>,
}

impl Misses {
    /// One more run of interpreted code starting at `pc`.
    pub fn count(&mut self, pc: u16)
        ensures
            final(self).counts@ == counted(old(self).counts@, pc),
    {
        let n = match self.counts.get(&pc) {
            Some(n) => *n,
            None => 0,
        };
        self.counts.insert(pc, n.saturating_add(1));
    }
}

/// Whether `v` is one of `s`.
pub fn contains(s: &[u16], v: u16) -> (b: bool)
    ensures
        b == s@.contains(v),
{
    let mut i: usize = 0;
    while i < s.len()
        invariant
            i <= s@.len(),
            forall|k: int| 0 <= k < i ==> s@[k] != v,
        decreases s@.len() - i,
    {
        if s[i] == v {
            assert(s@[i as int] == v);
            return true;
        }
        i = i + 1;
    }
    false
}

/// R after `n` refresh cycles: bit 7 stays, the low seven bits count on.
fn refresh(r: u8, n: u32) -> (out: u8)
    ensures
        out & 0x80 == r & 0x80,
        (out & 0x7F) as int == (r as int + n as int) % 128,
{
    let x = ((r as u32 + n % 256) % 256) as u8;
    let out = (r & 0x80) | (x & 0x7F);
    assert(out & 0x80 == r & 0x80 && out & 0x7F == x & 0x7F && x & 0x7F == x % 128) by (bit_vector)
        requires
            out == (r & 0x80) | (x & 0x7F),
    ;
    assert((((r as int + n as int % 256) % 256) % 128) == (r as int + n as int) % 128) by (nonlinear_arith);
    out
}

impl Zx {
    /// A halted processor runs NOPs until the next interrupt: to four
    /// T-states on if one is pending, else to the frame's end.
    fn run_halt(&mut self)
        requires
            self.t < FRAME_T || self.int_pending,
            self.t as int + 8 <= u32::MAX,
        ensures
            old(self).t < final(self).t,
            final(self).t <= if old(self).int_pending { old(self).t + 7 } else { FRAME_T + 3 },
            halted_to(*old(self), *final(self)),
    {
        let until = if self.int_pending { self.t + 4 } else { FRAME_T };
        let nops = (until - self.t + 3) / 4;
        assert(nops == halt_nops(*self));
        self.r = refresh(self.r, nops);
        self.t = self.t + nops * 4;
    }

    /// The top of a turn: the interrupt accepted or dropped, and the EI
    /// delay over.
    fn irq(&mut self)
        requires
            old(self).wf(),
            old(self).t as int + 19 <= u32::MAX,
        ensures
            irq_phase(*old(self), *final(self)),
            final(self).wf(),
            final(self).frame == old(self).frame,
            old(self).t <= final(self).t <= old(self).t + 19,
    {
        if self.int_pending {
            if self.iff1 && !self.ei_delay {
                self.int_pending = false;
                match &mut self.trace {
                    Some(trace) => trace.on_interrupt(),
                    None => {},
                }
                let ghost pre = *self;
                self.accept_interrupt();
                self.ei_delay = false;
                assert(accepted(Zx { int_pending: false, trace: pre.trace, ..*old(self) }, Zx { ei_delay: old(self).ei_delay, ..*self }));
                return;
            } else if self.t >= INT_LEN {
                self.int_pending = false;
            }
        }
        self.ei_delay = false;
    }

    /// The top of a turn of a run to an address: as [`Zx::irq`], with the
    /// trace not told of the interrupt.
    fn irq_plain(&mut self)
        requires
            old(self).wf(),
            old(self).t as int + 19 <= u32::MAX,
        ensures
            irq_phase(*old(self), *final(self)),
            final(self).wf(),
            final(self).frame == old(self).frame,
            old(self).t <= final(self).t <= old(self).t + 19,
    {
        if self.int_pending {
            if self.iff1 && !self.ei_delay {
                self.int_pending = false;
                self.accept_interrupt();
                self.ei_delay = false;
                assert(accepted(Zx { int_pending: false, trace: old(self).trace, ..*old(self) }, Zx { ei_delay: old(self).ei_delay, ..*self }));
                return;
            } else if self.t >= INT_LEN {
                self.int_pending = false;
            }
        }
        self.ei_delay = false;
    }

    /// Runs one 50 Hz frame: the interrupt at its start, compiled blocks
    /// where there are any, the interpreter elsewhere, until the frame's
    /// T-states are spent; then the clock goes round. The machine goes
    /// through the frame's turns from the interrupt pending at its start,
    /// each miss counted where an interpreted run starts.
    pub fn run_frame<C: BlockCode>(&mut self, code: &C, misses: &mut Misses)
        requires
            old(self).wf(),
            old(self).t <= FRAME_T,
            old(self).frame < u64::MAX,
        ensures
            final(self).wf(),
            final(self).frame == old(self).frame + 1,
            final(self).t <= BLOCK_T_MAX + 19,
            frame_ran(*old(self), old(misses).counts@, *final(self), final(misses).counts@),
    {
        self.int_pending = true;
        let mut in_fallback = false;
        let ghost mut path: Seq<(Zx, bool, Map<u16, u64>)> = seq![(*self, false, misses.counts@)];
        while self.t < FRAME_T
            invariant
                self.wf(),
                self.frame == old(self).frame,
                self.t <= FRAME_T + BLOCK_T_MAX + 19,
                frame_turns(path),
                path[0] == (Zx { int_pending: true, ..*old(self) }, false, old(misses).counts@),
                path.last() == (*self, in_fallback, misses.counts@),
            decreases FRAME_T + BLOCK_T_MAX + 20 - self.t,
        {
            let ghost a = *self;
            let ghost fa = in_fallback;
            let ghost ca = misses.counts@;
            self.irq();
            let ghost m = *self;
            if self.halted {
                self.run_halt();
            } else if code.run(self) {
                in_fallback = false;
            } else {
                // Each run of interpreted code is counted once, at the
                // address it started.
                if !in_fallback {
                    misses.count(self.pc);
                    in_fallback = true;
                }
                step(self);
            }
            proof {
                assert(frame_turn(a, fa, ca, *self, in_fallback, misses.counts@));
                let old_path = path;
                path = path.push((*self, in_fallback, misses.counts@));
                assert forall|i: int| #![trigger path[i]] 0 <= i < path.len() - 1 implies path[i].0.t < FRAME_T
                    && frame_turn(path[i].0, path[i].1, path[i].2, path[i + 1].0, path[i + 1].1, path[i + 1].2) by {
                    if i < old_path.len() - 1 {
                        assert(path[i] == old_path[i] && path[i + 1] == old_path[i + 1]);
                    }
                }
            }
        }
        self.t = self.t - FRAME_T;
        self.frame = self.frame + 1;
    }

    /// Runs the interpreter with 50 Hz interrupts until execution reaches
    /// `target` (after at least one instruction). Returns `false` if that
    /// takes more than `max_frames` frames.
    pub fn run_until(&mut self, target: u16, max_frames: u32) -> (reached: bool)
        requires
            old(self).wf(),
            old(self).t <= FRAME_T,
            old(self).frame as int + max_frames + 1 <= u64::MAX,
        ensures
            final(self).wf(),
            reached ==> final(self).pc == target,
            reached ==> final(self).frame <= old(self).frame + max_frames,
            !reached ==> final(self).frame == old(self).frame + max_frames + 1,
            exists|s: Seq<(Zx, bool, u32)>| #[trigger] until_ran(s, *old(self), *final(self), reached, seq![target], max_frames),
    {
        let targets = [target];
        let r = self.run_until_any(targets.as_slice(), max_frames);
        assert(targets@ =~= seq![target]);
        r
    }

    /// Like [`Zx::run_until`] with several targets.
    pub fn run_until_any(&mut self, targets: &[u16], max_frames: u32) -> (reached: bool)
        requires
            old(self).wf(),
            old(self).t <= FRAME_T,
            old(self).frame as int + max_frames + 1 <= u64::MAX,
        ensures
            final(self).wf(),
            reached ==> targets@.contains(final(self).pc),
            reached ==> final(self).frame <= old(self).frame + max_frames,
            !reached ==> final(self).frame == old(self).frame + max_frames + 1,
            exists|s: Seq<(Zx, bool, u32)>| #[trigger] until_ran(s, *old(self), *final(self), reached, targets@, max_frames),
    {
        self.run_until_any_with(targets, max_frames, |z: &Zx| {})
    }

    /// Like [`Zx::run_until_any`], calling `watch` before each instruction.
    pub fn run_until_any_with<W: Fn(&Zx)>(&mut self, targets: &[u16], max_frames: u32, watch: W) -> (reached: bool)
        requires
            old(self).wf(),
            old(self).t <= FRAME_T,
            old(self).frame as int + max_frames + 1 <= u64::MAX,
            forall|z: &Zx| #[trigger] watch.requires((z,)),
        ensures
            final(self).wf(),
            reached ==> targets@.contains(final(self).pc),
            reached ==> final(self).frame <= old(self).frame + max_frames,
            !reached ==> final(self).frame == old(self).frame + max_frames + 1,
            exists|s: Seq<(Zx, bool, u32)>| #[trigger] until_ran(s, *old(self), *final(self), reached, targets@, max_frames),
    {
        let mut frames: u32 = 0;
        let mut first = true;
        let ghost mut path: Seq<(Zx, bool, u32)> = seq![(*self, true, 0u32)];
        loop
            invariant
                self.wf(),
                self.t <= FRAME_T + 64,
                frames <= max_frames,
                self.frame == old(self).frame + frames,
                old(self).frame as int + max_frames + 1 <= u64::MAX,
                forall|z: &Zx| #[trigger] watch.requires((z,)),
                until_turns(path, targets@, max_frames),
                path[0] == (*old(self), true, 0u32),
                path.last() == (*self, first, frames),
            decreases max_frames - frames, FRAME_T + 65 - self.t,
        {
            let ghost a = *self;
            let ghost fa = first;
            let ghost ka = frames;
            if self.t >= FRAME_T {
                self.t = self.t - FRAME_T;
                self.frame = self.frame + 1;
                if frames == max_frames {
                    assert(until_ran(path, *old(self), *self, false, targets@, max_frames));
                    return false;
                }
                frames = frames + 1;
                self.int_pending = true;
            }
            assert(*self == wrapped(a));
            self.irq_plain();
            if self.halted {
                self.run_halt();
            } else {
                if !first && contains(targets, self.pc) {
                    assert(until_ran(path, *old(self), *self, true, targets@, max_frames));
                    return true;
                }
                first = false;
                watch(self);
                step(self);
            }
            proof {
                assert(until_turn(a, fa, ka, *self, first, frames, targets@, max_frames));
                let old_path = path;
                path = path.push((*self, first, frames));
                assert forall|i: int| #![trigger path[i]] 0 <= i < path.len() - 1 implies until_turn(
                    path[i].0,
                    path[i].1,
                    path[i].2,
                    path[i + 1].0,
                    path[i + 1].1,
                    path[i + 1].2,
                    targets@,
                    max_frames,
                ) by {
                    if i < old_path.len() - 1 {
                        assert(path[i] == old_path[i] && path[i + 1] == old_path[i + 1]);
                    }
                }
            }
        }
    }

    /// Calls the subroutine at `addr` in the interpreter and runs it until
    /// it returns, with interrupts ignored. Returns `false` if it had not
    /// returned after `max_instrs` instructions.
    pub fn call(&mut self, addr: u16, max_instrs: u64) -> (returned: bool)
        requires
            old(self).wf(),
            old(self).t as int + 30 * max_instrs + STEP_T_MAX <= u32::MAX,
        ensures
            final(self).wf(),
            final(self).t == old(self).t,
            final(self).halted == old(self).halted,
            final(self).ei_delay == old(self).ei_delay,
            returned ==> final(self).pc == 0 && final(self).sp == old(self).sp,
            !returned && max_instrs > 0 ==> !(final(self).pc == 0 && final(self).sp == old(self).sp),
            exists|s: Seq<Zx>, e: u32| #[trigger] call_ran(s, *old(self), *final(self), addr, Seq::<u16>::empty(), max_instrs, (returned, e)),
    {
        let stops: [u16; 0] = [];
        let r = self.call_until_any(addr, stops.as_slice(), max_instrs);
        assert(stops@ =~= Seq::<u16>::empty());
        r
    }

    /// Like [`Zx::call`], but also stops (returning `true`) when execution
    /// reaches `stop`, for running just the first part of a routine.
    pub fn call_until(&mut self, addr: u16, stop: Option<u16>, max_instrs: u64) -> (reached: bool)
        requires
            old(self).wf(),
            old(self).t as int + 30 * max_instrs + STEP_T_MAX <= u32::MAX,
        ensures
            final(self).wf(),
            final(self).t == old(self).t,
            final(self).halted == old(self).halted,
            final(self).ei_delay == old(self).ei_delay,
            reached ==> (final(self).pc == 0 && final(self).sp == old(self).sp) || stop == Some(final(self).pc),
            !reached && max_instrs > 0 ==> !(final(self).pc == 0 && final(self).sp == old(self).sp) && stop != Some(
                final(self).pc,
            ),
            exists|s: Seq<Zx>, e: u32| #[trigger] call_ran(
                s,
                *old(self),
                *final(self),
                addr,
                stops_of(stop),
                max_instrs,
                (reached, e),
            ),
    {
        match stop {
            Some(s) => {
                let stops = [s];
                let r = self.call_until_any(addr, stops.as_slice(), max_instrs);
                assert(stops@ =~= stops_of(stop));
                r
            },
            None => {
                let stops: [u16; 0] = [];
                let r = self.call_until_any(addr, stops.as_slice(), max_instrs);
                assert(stops@ =~= stops_of(stop));
                r
            },
        }
    }

    /// Like [`Zx::call_until`] with several stop addresses.
    pub fn call_until_any(&mut self, addr: u16, stops: &[u16], max_instrs: u64) -> (reached: bool)
        requires
            old(self).wf(),
            old(self).t as int + 30 * max_instrs + STEP_T_MAX <= u32::MAX,
        ensures
            final(self).wf(),
            final(self).t == old(self).t,
            final(self).halted == old(self).halted,
            final(self).ei_delay == old(self).ei_delay,
            reached ==> (final(self).pc == 0 && final(self).sp == old(self).sp) || stops@.contains(final(self).pc),
            !reached && max_instrs > 0 ==> !((final(self).pc == 0 && final(self).sp == old(self).sp) || stops@.contains(
                final(self).pc,
            )),
            exists|s: Seq<Zx>, e: u32| #[trigger] call_ran(s, *old(self), *final(self), addr, stops@, max_instrs, (reached, e)),
    {
        self.call_until_any_with(addr, stops, max_instrs, |z: &Zx| {}).0
    }

    /// Like [`Zx::call_until_any`], and also how long the call took. The
    /// clock is put back afterwards, so this is the only way to find out.
    pub fn call_until_any_timed(&mut self, addr: u16, stops: &[u16], max_instrs: u64) -> (res: (bool, u32))
        requires
            old(self).wf(),
            old(self).t as int + 30 * max_instrs + STEP_T_MAX <= u32::MAX,
        ensures
            final(self).wf(),
            final(self).t == old(self).t,
            final(self).halted == old(self).halted,
            final(self).ei_delay == old(self).ei_delay,
            res.0 ==> (final(self).pc == 0 && final(self).sp == old(self).sp) || stops@.contains(final(self).pc),
            res.0 ==> 4 <= res.1,
            !res.0 ==> 4 * max_instrs <= res.1,
            !res.0 && max_instrs > 0 ==> !((final(self).pc == 0 && final(self).sp == old(self).sp) || stops@.contains(
                final(self).pc,
            )),
            res.1 <= 30 * max_instrs,
            exists|s: Seq<Zx>| #[trigger] call_ran(s, *old(self), *final(self), addr, stops@, max_instrs, res),
    {
        self.call_until_any_with(addr, stops, max_instrs, |z: &Zx| {})
    }

    /// Like [`Zx::call_until_any`], calling `watch` before each
    /// instruction, and reporting how long the call took. A call is not a
    /// frame: no interrupt arrives during one, a HALT falls through, and
    /// the clock, the halt state and the EI delay are put back afterwards.
    #[verifier::rlimit(100)]
    pub fn call_until_any_with<W: Fn(&Zx)>(&mut self, addr: u16, stops: &[u16], max_instrs: u64, watch: W) -> (res: (
        bool,
        u32,
    ))
        requires
            old(self).wf(),
            old(self).t as int + 30 * max_instrs + STEP_T_MAX <= u32::MAX,
            forall|z: &Zx| #[trigger] watch.requires((z,)),
        ensures
            final(self).wf(),
            final(self).t == old(self).t,
            final(self).halted == old(self).halted,
            final(self).ei_delay == old(self).ei_delay,
            res.0 ==> (final(self).pc == 0 && final(self).sp == old(self).sp) || stops@.contains(final(self).pc),
            res.0 ==> 4 <= res.1,
            !res.0 ==> 4 * max_instrs <= res.1,
            !res.0 && max_instrs > 0 ==> !((final(self).pc == 0 && final(self).sp == old(self).sp) || stops@.contains(
                final(self).pc,
            )),
            res.1 <= 30 * max_instrs,
            exists|s: Seq<Zx>| #[trigger] call_ran(s, *old(self), *final(self), addr, stops@, max_instrs, res),
    {
        let sentinel: u16 = 0x0000;
        let sp = self.sp;
        let t = self.t;
        let halted = self.halted;
        let ei_delay = self.ei_delay;
        self.halted = false;
        self.ei_delay = false;
        let ghost z0 = *old(self);
        self.push(sentinel);
        assert(crate::block::pushed(Zx { halted: false, ei_delay: false, ..z0 }, *self, 0));
        self.pc = addr;
        let ghost mut path: Seq<Zx> = seq![*self];
        proof {
            reveal(steps_ok);
            reveal(no_stop_before);
        }
        let mut reached = false;
        let mut i: u64 = 0;
        while i < max_instrs
            invariant_except_break
                !reached,
                i > 0 ==> !((self.pc == sentinel && self.sp == sp) || stops@.contains(self.pc)),
            invariant
                path.len() == i + 1,
                call_start(z0, path[0], addr),
                path.last() == *self,
                sp == z0.sp,
                steps_ok(path, i as int),
                no_stop_before(path, i as int, z0.sp, stops@),
                reached ==> at_stop(path.last(), z0.sp, stops@) && i >= 1,
                path[0].t == t,
                self.wf(),
                i <= max_instrs,
                t + 4 * i <= self.t <= t + 30 * i,
                t as int + 30 * max_instrs + STEP_T_MAX <= u32::MAX,
                sentinel == 0,
                forall|z: &Zx| #[trigger] watch.requires((z,)),
            ensures
                path.len() == i + 1,
                call_start(z0, path[0], addr),
                path.last() == *self,
                steps_ok(path, i as int),
                no_stop_before(path, i as int, z0.sp, stops@),
                reached ==> at_stop(path.last(), z0.sp, stops@) && i >= 1,
                !reached ==> i == max_instrs && (i == 0 || !at_stop(path.last(), z0.sp, stops@)),
                path[0].t == t,
                self.wf(),
                t <= self.t <= t + 30 * max_instrs,
                reached ==> (self.pc == 0 && self.sp == sp) || stops@.contains(self.pc),
                reached ==> t + 4 <= self.t,
                !reached ==> t + 4 * max_instrs <= self.t,
                !reached && max_instrs > 0 ==> !((self.pc == 0 && self.sp == sp) || stops@.contains(self.pc)),
            decreases max_instrs - i,
        {
            watch(self);
            let ghost before = *self;
            step(self);
            proof {
                path_grows(path, *self, i as int, z0.sp, stops@);
                path = path.push(*self);
            }
            i = i + 1;
            if (self.pc == sentinel && self.sp == sp) || contains(stops, self.pc) {
                reached = true;
                break;
            }
        }
        let elapsed = self.t - t;
        self.t = t;
        self.halted = halted;
        self.ei_delay = ei_delay;
        assert(call_ran(path, z0, *self, addr, stops@, max_instrs, (reached, elapsed)));
        (reached, elapsed)
    }
}

} // verus!
