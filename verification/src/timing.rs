//! What a ZX Spectrum frame is made of, in T-states.

use vstd::prelude::*;

verus! {

/// The Z80's clock on a 48K Spectrum, in Hz.
pub const CPU_HZ: u32 = 3_500_000;

/// T-states in one frame: 224 per line, 312 lines.
pub const FRAME_T: u32 = 69888;

/// Frames in a second, near enough for pacing.
pub const FRAMES_PER_SECOND: u32 = 50;

/// How long a frame lasts, to the nanosecond: `FRAME_T * 10^9 / CPU_HZ`.
pub const FRAME_NANOS: u64 = 19_968_000;

/// The first T-state of a frame at which the ULA fetches screen memory.
pub const CONTENDED_FROM: u32 = 14335;

/// T-states in one line of the picture.
pub const LINE_T: u32 = 224;

/// How long the ULA holds the processor off at T-state `t` of the frame:
/// six T-states at the start of each group of eight in the 128 T-states of
/// every one of the 192 drawn lines, counting down to none.
pub open spec fn contention_spec(t: u32) -> u32 {
    if t < CONTENDED_FROM {
        0
    } else {
        let since = (t - CONTENDED_FROM) as u32;
        if since / LINE_T >= 192 || since % LINE_T >= 128 {
            0
        } else {
            let k = (since % LINE_T) % 8;
            if k < 6 { (6 - k) as u32 } else { 0 }
        }
    }
}

/// The delay the ULA adds to a contended access that starts at `t`.
pub fn contention(t: u32) -> (d: u32)
    ensures
        d == contention_spec(t),
        d <= 6,
{
    if t < CONTENDED_FROM {
        return 0;
    }
    let since = t - CONTENDED_FROM;
    if since / LINE_T >= 192 || since % LINE_T >= 128 {
        return 0;
    }
    let k = (since % LINE_T) % 8;
    if k < 6 { 6 - k } else { 0 }
}

/// The frame's length in nanoseconds is the one the clock implies.
pub proof fn frame_nanos_is_frame_over_clock()
    ensures
        FRAME_NANOS == FRAME_T as int * 1_000_000_000 / CPU_HZ as int,
{
}

/// A contended access waits exactly until the ULA lets go: never more than
/// six T-states, the T-state it is let through at is free, and every one it
/// waited through was held.
pub proof fn contention_waits_for_the_next_free_slot(t: u32)
    requires
        t + 6 <= u32::MAX,
    ensures
        contention_spec(t) <= 6,
        contention_spec((t + contention_spec(t)) as u32) == 0,
        forall|j: u32| j < contention_spec(t) ==> #[trigger] contention_spec((t + j) as u32) > 0,
{
    if t >= CONTENDED_FROM {
        let since = (t - CONTENDED_FROM) as int;
        let k = (since % 224) % 8;
        assert(since % 224 == 8 * ((since % 224) / 8) + k);
        assert forall|j: u32| j < contention_spec(t) implies #[trigger] contention_spec((t + j) as u32) > 0 by {
            let s2 = since + j;
            assert(s2 / 224 == since / 224 && s2 % 224 == since % 224 + j);
            assert((s2 % 224) % 8 == k + j);
        }
        let d = contention_spec(t);
        if d > 0 {
            let s2 = since + d;
            assert(s2 / 224 == since / 224 && s2 % 224 == since % 224 + d);
            assert((s2 % 224) % 8 == 6);
        }
    }
}

} // verus!
