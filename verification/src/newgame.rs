//! The end of a game's scoring.

use vstd::prelude::*;
use crate::assets::GRAPHICS32_AT;
use crate::game::Game;
use crate::hud::{added, clamp, digit_sum, inventory_spec, status_text, sums_fit, Status};
use crate::pickups::RoomSet;
use crate::printer::{print_spec, Pending};
use crate::rng::Rng;
use vstd::array::{spec_array_fill_for_copy_type, spec_array_update};

verus! {

/// How many of the first `n` rooms are not in `unvisited`.
pub open spec fn visited_count(unvisited: RoomSet, n: int) -> int
    decreases n,
{
    if n <= 0 {
        0
    } else {
        visited_count(unvisited, n - 1) + if unvisited.has((n - 1) as u16) { 0int } else { 1int }
    }
}

/// The generator after `n` steps.
pub open spec fn steps(r: Rng, n: nat) -> Rng
    decreases n,
{
    if n == 0 {
        r
    } else {
        steps(r, (n - 1) as nat).next()
    }
}

/// The generator the last digits are drawn from: seeded with the score's
/// first three digits and the adventure score, then run thirty steps.
pub open spec fn final_seed(score: [u8; 6], adventure: u8) -> Rng {
    steps(
        Rng {
            a: (score[0] + score[1] * 256) as u16,
            b: (score[2] + adventure * 256) as u16,
            c: (adventure + adventure * 256) as u16,
            b_countdown: 3,
            c_countdown: 3,
        },
        30,
    )
}

/// The final score: the first three digits kept, the next two drawn from
/// the generator, and the last 5 or 0 on a coin toss.
pub open spec fn final_digits(score: [u8; 6], r: Rng) -> [u8; 6] {
    let r1 = r.next();
    let r2 = r1.next();
    [
        score[0],
        score[1],
        score[2],
        ((r1.a % 256) % 10) as u8,
        ((r2.a % 256) % 10) as u8,
        if (r2.a / 256) % 2 == 1 { 5u8 } else { 0u8 },
    ]
}

/// The panel state with `score` and nothing pending.
pub open spec fn settled(s: Status, score: [u8; 6]) -> Status {
    Status {
        score,
        pending: spec_array_fill_for_copy_type::<u8, 6>(0u8),
        bars: [clamp(s.bars[0]), clamp(s.bars[1]), clamp(s.bars[2])],
        ..s
    }
}

impl Game {
    /// Rooms visited, as the "adventure score" shown at the end (visits × 50
    /// / 256). Like the original, leaves the room number at 512.
    pub fn adventure_score(&mut self) -> (score: u8)
        ensures
            score == visited_count(old(self).unvisited_rooms, 512) * 50 / 256,
            *final(self) == (Game { room: 512, ..*old(self) }),
    {
        let mut visited: u16 = 0;
        let mut r: u16 = 0;
        while r < 512
            invariant
                r <= 512,
                visited == visited_count(self.unvisited_rooms, r as int),
                visited <= r,
                *self == *old(self),
            decreases 512 - r,
        {
            if !self.unvisited_rooms.contains(r) {
                visited = visited + 1;
            }
            r = r + 1;
        }
        self.room = 512;
        (visited * 50 / 256) as u8
    }

    /// Reseeds the generator from the score and `adventure`, and draws the
    /// score's last three digits from it.
    fn draw_digits(&mut self, adventure: u8)
        ensures
            final(self).rng == final_seed(old(self).status.score, adventure).next().next(),
            final(self).status == (Status {
                score: final_digits(old(self).status.score, final_seed(old(self).status.score, adventure)),
                ..old(self).status
            }),
            *final(self) == (Game { rng: final(self).rng, status: final(self).status, ..*old(self) }),
    {
        let s = self.status.score;
        self.rng.a = s[0] as u16 + s[1] as u16 * 256;
        self.rng.b = s[2] as u16 + adventure as u16 * 256;
        self.rng.c = adventure as u16 + adventure as u16 * 256;
        self.rng.b_countdown = 3;
        self.rng.c_countdown = 3;
        let ghost r0 = self.rng;
        let mut k: usize = 0;
        while k < 30
            invariant
                k <= 30,
                self.rng == steps(r0, k as nat),
                *self == (Game { rng: self.rng, ..*old(self) }),
            decreases 30 - k,
        {
            self.rng.step();
            k = k + 1;
        }
        self.rng.step();
        self.status.score[3] = self.rng.lo() % 10;
        self.rng.step();
        self.status.score[4] = self.rng.lo() % 10;
        self.status.score[5] = if self.rng.hi() % 2 == 1 { 5 } else { 0 };
        assert(self.status.score =~= final_digits(old(self).status.score, final_seed(old(self).status.score, adventure)));
    }

    /// The scoring before the final panel: a thousand points added and
    /// drawn, the adventure score counted, and the last digits drawn.
    #[verifier::rlimit(100)]
    fn settle_score(&mut self)
        requires
            sums_fit(old(self).status.score, spec_array_update(old(self).status.pending, 2, 1u8)),
            old(self).printer.pending == Pending::Idle,
            old(self).assets.ram@.len() >= GRAPHICS32_AT + 256 * 32,
        ensures
            ({
                let s0 = Status { pending: spec_array_update(old(self).status.pending, 2, 1u8), ..old(self).status };
                let s1 = added(s0.score, s0.pending);
                let adventure = (visited_count(old(self).unvisited_rooms, 512) * 50 / 256) as u8;
                let r = final_seed(s1, adventure);
                let (p1, m1) = print_spec(
                    old(self).printer,
                    old(self).display.mem@,
                    old(self).assets.font,
                    old(self).assets.udg@,
                    status_text(s0),
                );
                &&& final(self).printer == p1
                &&& (final(self).display.mem@, final(self).restore_mem@, final(self).restore_ptr) == inventory_spec(
                    m1,
                    old(self).restore_mem@,
                    old(self).restore_ptr,
                    old(self).status.inventory,
                    old(self).assets.ram@,
                    4,
                )
                &&& final(self).rng == r.next().next()
                &&& final(self).status == settled(s0, final_digits(s1, r))
            }),
            final(self).printer.pending == Pending::Idle,
            final(self).display.border == old(self).display.border,
            *final(self) == (Game {
                printer: final(self).printer,
                display: final(self).display,
                restore_mem: final(self).restore_mem,
                restore_ptr: final(self).restore_ptr,
                status: final(self).status,
                rng: final(self).rng,
                room: 512,
                ..*old(self)
            }),
    {
        self.status.pending[2] = 1;
        assert(self.status.pending =~= spec_array_update(old(self).status.pending, 2, 1u8));
        self.draw_status();
        let adventure = self.adventure_score();
        self.draw_digits(adventure);
        assert(self.status.pending =~= spec_array_fill_for_copy_type::<u8, 6>(0u8));
        assert(self.status.bars =~= [clamp(old(self).status.bars[0]), clamp(old(self).status.bars[1]), clamp(old(self).status.bars[2])]);
    }

    /// End-of-game scoring: a thousand points, then the last three digits
    /// are drawn from a generator seeded with the score and adventure score.
    #[verifier::rlimit(100)]
    pub fn final_scoring(&mut self)
        requires
            sums_fit(old(self).status.score, spec_array_update(old(self).status.pending, 2, 1u8)),
            old(self).printer.pending == Pending::Idle,
            old(self).assets.ram@.len() >= GRAPHICS32_AT + 256 * 32,
        ensures
            ({
                let font = old(self).assets.font;
                let udg = old(self).assets.udg@;
                let ram = old(self).assets.ram@;
                let inv = old(self).status.inventory;
                let s0 = Status { pending: spec_array_update(old(self).status.pending, 2, 1u8), ..old(self).status };
                let s1 = added(s0.score, s0.pending);
                let adventure = (visited_count(old(self).unvisited_rooms, 512) * 50 / 256) as u8;
                let r = final_seed(s1, adventure);
                let s2 = final_digits(s1, r);
                let (p1, m1) = print_spec(old(self).printer, old(self).display.mem@, font, udg, status_text(s0));
                let (d1, l1, q1) = inventory_spec(m1, old(self).restore_mem@, old(self).restore_ptr, inv, ram, 4);
                let (p2, m2) = print_spec(p1, d1, font, udg, status_text(settled(s0, s2)));
                &&& final(self).printer == p2
                &&& (final(self).display.mem@, final(self).restore_mem@, final(self).restore_ptr) == inventory_spec(
                    m2,
                    l1,
                    q1,
                    inv,
                    ram,
                    4,
                )
                &&& final(self).rng == r.next().next()
                &&& final(self).status == settled(s0, s2)
            }),
            final(self).display.border == old(self).display.border,
            *final(self) == (Game {
                printer: final(self).printer,
                display: final(self).display,
                restore_mem: final(self).restore_mem,
                restore_ptr: final(self).restore_ptr,
                status: final(self).status,
                rng: final(self).rng,
                room: 512,
                ..*old(self)
            }),
    {
        self.settle_score();
        let ghost s2 = self.status;
        proof {
            assert forall|i: int| 0 <= i < 6 implies #[trigger] digit_sum(s2.score, s2.pending, i) <= 255
                && digit_sum(s2.score, s2.pending, i) == s2.score[i] by {
                settled_sums(s2.score, s2.pending, i);
            }
            assert(added(s2.score, s2.pending) =~= s2.score);
            assert(s2.bars =~= [clamp(s2.bars[0]), clamp(s2.bars[1]), clamp(s2.bars[2])]);
        }
        self.draw_status();
        assert(self.status.pending =~= s2.pending);
        assert(self.status.bars =~= s2.bars);
    }
}

/// With nothing pending and every digit below ten, each digit's sum is the
/// digit itself: nothing carries.
proof fn settled_sums(score: [u8; 6], pending: [u8; 6], i: int)
    requires
        0 <= i < 6,
        forall|k: int| 0 <= k < 6 ==> #[trigger] score[k] < 10 && pending[k] == 0,
    ensures
        digit_sum(score, pending, i) == score[i],
    decreases 6 - i,
{
    if i < 5 {
        settled_sums(score, pending, i + 1);
    }
}

} // verus!
