//! Pacing loops that the original runs at their own speed over the frames
//! a host gives.

use vstd::prelude::*;
use crate::timing::FRAMES_PER_SECOND;

verus! {

/// Spreads a loop that the original paces by its own speed over the frames
/// the host gives us.
///
/// The original's menu loops are not driven by the interrupt: they go round
/// as fast as they can redraw themselves, about 13 times a second for the
/// title menu and about 344 for the define-keys loop, both measured from the
/// original. One is slower than the frame rate and one much faster, so the
/// same helper has to serve both.
///
/// The accumulator keeps the long-run rate exact and never grows; counting
/// frames and multiplying overflows after about eleven weeks on the menu.
pub struct Pacer {
    per_second: u32,
    acc: u32,
}

impl Pacer {
    /// The loop's rate, in turns a second.
    pub closed spec fn rate(&self) -> u32 {
        self.per_second
    }

    /// The turns owed but not yet given, in fiftieths of a turn.
    pub closed spec fn owed(&self) -> u32 {
        self.acc
    }

    pub fn new(per_second: u32) -> (p: Pacer)
        ensures
            p.rate() == per_second,
            p.owed() == 0,
    {
        Pacer { per_second, acc: 0 }
    }

    /// How many turns of the loop belong to one frame. Less than one most
    /// frames for a slow loop, several for a fast one.
    pub fn turns(&mut self) -> (turns: u32)
        requires
            old(self).owed() < FRAMES_PER_SECOND,
            old(self).owed() + old(self).rate() <= u32::MAX,
        ensures
            final(self).rate() == old(self).rate(),
            final(self).owed() < FRAMES_PER_SECOND,
            turns * FRAMES_PER_SECOND + final(self).owed() == old(self).owed() + old(self).rate(),
            turns == old(self).rate() / FRAMES_PER_SECOND || turns == old(self).rate() / FRAMES_PER_SECOND + 1,
    {
        let ghost owed = self.acc;
        self.acc = self.acc + self.per_second;
        let turns = self.acc / FRAMES_PER_SECOND;
        self.acc = self.acc % FRAMES_PER_SECOND;
        let ghost rate = self.per_second;
        assert(turns == rate / 50 || turns == rate / 50 + 1) by (nonlinear_arith)
            requires
                turns * 50 + self.acc == owed + rate,
                0 <= owed < 50,
                0 <= self.acc < 50,
                rate >= 0,
        ;
        turns
    }
}

/// The accumulator never grows past a frame's worth, so a pacer can be
/// asked for turns for ever: after any number of frames what it has given
/// out and what it still owes add up to the rate times the frames.
pub proof fn pacing_is_exact(owed0: int, rate: int, given: Seq<int>, owed: Seq<int>)
    requires
        0 <= owed0 < FRAMES_PER_SECOND,
        rate >= 0,
        given.len() == owed.len(),
        forall|k: int| 0 <= k < given.len() ==> 0 <= #[trigger] owed[k] < FRAMES_PER_SECOND,
        forall|k: int|
            0 <= k < given.len() ==> #[trigger] given[k] * FRAMES_PER_SECOND + owed[k] == (if k == 0 {
                owed0
            } else {
                owed[k - 1]
            }) + rate,
    ensures
        given.len() > 0 ==> total(given) * FRAMES_PER_SECOND + owed.last() == owed0 + rate * given.len(),
    decreases given.len(),
{
    if given.len() > 1 {
        let n = given.len() - 1;
        pacing_is_exact(owed0, rate, given.take(n), owed.take(n));
        assert(given.take(n).last() == given[n - 1]);
        assert(total(given) == total(given.take(n)) + given[n]) by {
            assert(given.drop_last() =~= given.take(n));
        }
        assert(rate * given.len() == rate * n + rate) by (nonlinear_arith)
            requires
                n == given.len() - 1,
        ;
    } else if given.len() == 1 {
        assert(total(given) == total(given.drop_last()) + given[0]);
        assert(given.drop_last() =~= Seq::<int>::empty());
    }
}

/// From a pacer that owes nothing, the turns given over any number of
/// frames are exactly the rate times the frames, in fiftieths, rounded
/// down.
pub proof fn pacing_from_rest(rate: int, given: Seq<int>, owed: Seq<int>)
    requires
        rate >= 0,
        given.len() == owed.len(),
        given.len() > 0,
        forall|k: int| 0 <= k < given.len() ==> 0 <= #[trigger] owed[k] < FRAMES_PER_SECOND,
        forall|k: int|
            0 <= k < given.len() ==> #[trigger] given[k] * FRAMES_PER_SECOND + owed[k] == (if k == 0 {
                0
            } else {
                owed[k - 1]
            }) + rate,
    ensures
        total(given) == rate * given.len() / (FRAMES_PER_SECOND as int),
{
    pacing_is_exact(0, rate, given, owed);
    let t = total(given);
    let o = owed.last();
    let k = given.len();
    assert(0 <= o < 50);
    assert(t == (rate * k) / 50) by (nonlinear_arith)
        requires
            t * 50 + o == rate * k,
            0 <= o < 50,
    ;
}

/// The sum of a sequence of turn counts.
pub open spec fn total(s: Seq<int>) -> int
    decreases s.len(),
{
    if s.len() == 0 {
        0
    } else {
        total(s.drop_last()) + s.last()
    }
}

} // verus!
