//! Where a frame's sound falls in time: what the frame's work cost the
//! original before its tone.

use vstd::prelude::*;
use crate::game::Game;
use crate::rng::Rng;

verus! {

/// How long the ROM's 50 Hz interrupt routine holds up whatever it breaks
/// into, the acknowledge included: counting the frame, and scanning a
/// keyboard with nothing held.
pub const INTERRUPT_T: u32 = 895;

/// When the tone loop starts in a frame of play whose work counted nothing,
/// in T-states from the frame boundary: the interrupt, then sprites,
/// colours, platforms, sparkles, force fields, BLOB and the enemies at their
/// plainest. Fitted with [`Work`]'s prices.
pub const WORK_T: u32 = 35_480;

/// When BLOB's first blocking effect starts in a frame whose work before it
/// counted nothing (it is BLOB who asks for them, after the display work).
pub const WORK_BEFORE_EFFECTS_T: u32 = 31_185;

/// What a frame of play did that the original takes longer over.
///
/// In play the original spends the start of every frame on its work, in
/// silence, and only then plays the frame's tone; so how long the silence
/// lasts depends on the work. The rewrite does the same work without a
/// clock, so it counts the parts that vary and prices them. Each price is
/// what that part costs the original on average, fitted in the reference
/// interpreter over thousands of frames of play.
#[derive(Clone, Copy, Debug, Default, PartialEq, Eq)]
pub struct Work {
    /// Horizontal collision tests, by BLOB and the enemies.
    pub collisions: u32,
    /// Vertical collision tests.
    pub vertical_collisions: u32,
    /// Characters printed through the ROM.
    pub characters: u32,
    /// Character cells XORed onto the screen.
    pub cells: u32,
    /// Enemies checked against BLOB's position.
    pub proximity_checks: u32,
}

/// The fitted prices, in the order of [`Work`]'s fields.
pub open spec fn price(i: int) -> int {
    if i == 0 { 1574 } else if i == 1 { 175 } else if i == 2 { 2742 } else if i == 3 { 1586 } else { 264 }
}

impl Work {
    /// The counts, in the order of the fields.
    pub open spec fn counts_spec(self) -> [u32; 5] {
        [self.collisions, self.vertical_collisions, self.characters, self.cells, self.proximity_checks]
    }

    /// What the varying part of the work cost: each count at its price.
    pub open spec fn cost(self) -> int {
        self.collisions * 1574 + self.vertical_collisions * 175 + self.characters * 2742 + self.cells * 1586
            + self.proximity_checks * 264
    }

    /// The counts, in the order of the fields.
    pub fn counts(&self) -> (c: [u32; 5])
        ensures
            c == self.counts_spec(),
    {
        [self.collisions, self.vertical_collisions, self.characters, self.cells, self.proximity_checks]
    }

    /// What the varying part of the work cost the original.
    pub fn t(&self) -> (t: u32)
        requires
            self.cost() <= u32::MAX,
        ensures
            t == self.cost(),
    {
        let c = self.counts();
        let prices: [u32; 5] = [1_574, 175, 2_742, 1_586, 264];
        let mut sum: u32 = 0;
        let mut i: usize = 0;
        while i < 5
            invariant
                i <= 5,
                c == self.counts_spec(),
                prices@ == seq![1574u32, 175, 2742, 1586, 264],
                self.cost() <= u32::MAX,
                sum == partial_cost(c@, i as int),
            decreases 5 - i,
        {
            proof {
                partial_cost_bound(c@, i as int + 1);
                cost_is_partial(*self, c@);
            }
            sum = sum + c[i] * prices[i];
            i = i + 1;
        }
        proof {
            cost_is_partial(*self, c@);
        }
        sum
    }
}

/// The cost of the first `n` counts.
pub open spec fn partial_cost(c: Seq<u32>, n: int) -> int
    decreases n,
{
    if n <= 0 {
        0
    } else {
        partial_cost(c, n - 1) + c[n - 1] * price(n - 1)
    }
}

proof fn cost_is_partial(w: Work, c: Seq<u32>)
    requires
        c == w.counts_spec()@,
    ensures
        partial_cost(c, 5) == w.cost(),
{
    reveal_with_fuel(partial_cost, 6);
    assert(c[0] == w.collisions && c[1] == w.vertical_collisions && c[2] == w.characters && c[3] == w.cells && c[4]
        == w.proximity_checks);
}

proof fn partial_cost_bound(c: Seq<u32>, n: int)
    requires
        0 <= n <= 5,
    ensures
        partial_cost(c, n) <= partial_cost(c, 5),
        partial_cost(c, n) >= 0,
    decreases 5 - n,
{
    if n < 5 {
        partial_cost_bound(c, n + 1);
        assert(c[n] * price(n) >= 0) by (nonlinear_arith)
            requires
                c[n] >= 0,
                price(n) >= 0,
        ;
    }
    partial_nonneg(c, n);
}

proof fn partial_nonneg(c: Seq<u32>, n: int)
    ensures
        partial_cost(c, n) >= 0,
    decreases n,
{
    if n > 0 {
        partial_nonneg(c, n - 1);
        assert(c[n - 1] * price(n - 1) >= 0) by (nonlinear_arith)
            requires
                c[n - 1] >= 0,
                price(n - 1) >= 0,
        ;
    }
}

/// The table of effect parameters: four bytes per effect.
pub const EFFECTS: usize = 0xA607;

/// A byte rotated left by two bits.
pub open spec fn rl2(v: u8) -> u8 {
    (v << 2u8) | (v >> 6u8)
}

/// Where effect `id`'s four parameters are (effects are numbered from 1).
pub open spec fn effect_at(id: u8) -> int {
    EFFECTS + rl2(((id + 255) % 256) as u8)
}

/// The sound state with effect `id` loaded: its length, pitch, step and
/// phase, and its prescaler twice (the count and its reload).
pub open spec fn loaded(s: Seq<u8>, ram: Seq<u8>, id: u8) -> Seq<u8> {
    let at = effect_at(id);
    let prescale = (ram[at] / 64 + 1) as u8;
    s.update(2, ram[at] % 64).update(3, ram[at + 1]).update(4, ram[at + 2]).update(5, ram[at + 3]).update(
        6,
        prescale,
    ).update(7, prescale)
}

/// A loaded effect's frame: the prescaler counts down, and when it runs
/// out the effect steps and gives its tone's half period.
pub open spec fn effect_step(s: Seq<u8>) -> (Seq<u8>, Option<u8>) {
    let count = ((s[6] + 255) % 256) as u8;
    if count != 0 {
        (s.update(6, count), None)
    } else {
        let pitch = ((s[3] + s[4]) % 256) as u8;
        (
            s.update(6, s[7]).update(2, ((s[2] + 255) % 256) as u8).update(3, pitch).update(5, ((s[5] + 1) % 256) as u8),
            Some((pitch ^ s[5]) >> 1u8),
        )
    }
}

/// The sound state and tone after a frame: a requested effect is loaded;
/// with none running, the queued one starts, or now and then an ambient
/// one is queued for the next frame.
pub open spec fn tick_spec(s: Seq<u8>, ram: Seq<u8>, rng: Rng) -> (Seq<u8>, Option<u8>) {
    let s1 = if s[0] != 0 { loaded(s.update(0, 0), ram, s[0]) } else { s };
    if s1[2] == 0 {
        if s1[1] == 0 {
            if rng.a % 256 < 4 {
                (s1.update(1, ((rng.a / 256) % 4 + 0x0C) as u8), None)
            } else {
                (s1, None)
            }
        } else {
            effect_step(loaded(s1.update(1, 0), ram, s1[1]))
        }
    } else {
        effect_step(s1)
    }
}

impl Game {
    /// Asks for a blocking sound effect, noting how far the frame's work had
    /// got if it is the first.
    pub fn request_effect(&mut self, id: u8)
        ensures
            final(self).effects@ == old(self).effects@.push(id),
            final(self).work_at_effect == (if old(self).effects@.len() == 0 {
                Some(old(self).work)
            } else {
                old(self).work_at_effect
            }),
            *final(self) == (Game { effects: final(self).effects, work_at_effect: final(self).work_at_effect, ..*old(self) }),
    {
        if self.effects.len() == 0 {
            self.work_at_effect = Some(self.work);
        }
        self.effects.push(id);
    }

    fn load_effect(&mut self, id: u8)
        requires
            old(self).assets.ram@.len() >= EFFECTS + 260,
        ensures
            final(self).sound@ == loaded(old(self).sound@, old(self).assets.ram@, id),
            *final(self) == (Game { sound: final(self).sound, ..*old(self) }),
    {
        let k = ((id as u16 + 255) % 256) as u8;
        let r = (k << 2u8) | (k >> 6u8);
        let at = EFFECTS + r as usize;
        let p0 = self.assets.ram[at];
        let prescale = p0 / 64 + 1;
        self.sound[2] = p0 % 64;
        self.sound[3] = self.assets.ram[at + 1];
        self.sound[4] = self.assets.ram[at + 2];
        self.sound[5] = self.assets.ram[at + 3];
        self.sound[6] = prescale;
        self.sound[7] = prescale;
        assert(self.sound@ =~= loaded(old(self).sound@, old(self).assets.ram@, id));
    }

    fn effect_step(&mut self) -> (tone: Option<u8>)
        ensures
            (final(self).sound@, tone) == effect_step(old(self).sound@),
            *final(self) == (Game { sound: final(self).sound, ..*old(self) }),
    {
        let count = ((self.sound[6] as u16 + 255) % 256) as u8;
        self.sound[6] = count;
        if count != 0 {
            return None;
        }
        self.sound[6] = self.sound[7];
        self.sound[2] = ((self.sound[2] as u16 + 255) % 256) as u8;
        self.sound[3] = ((self.sound[3] as u16 + self.sound[4] as u16) % 256) as u8;
        let half_period = (self.sound[3] ^ self.sound[5]) >> 1;
        self.sound[5] = ((self.sound[5] as u16 + 1) % 256) as u8;
        assert(self.sound@ =~= effect_step(old(self).sound@).0);
        Some(half_period)
    }

    /// Advances the sound state by a frame. Returns the tone to play for
    /// the rest of the frame, as the original's half-period loop count, or
    /// `None` for silence.
    #[verifier::rlimit(50)]
    pub fn sound_tick(&mut self) -> (tone: Option<u8>)
        requires
            old(self).assets.ram@.len() >= EFFECTS + 260,
        ensures
            (final(self).sound@, tone) == tick_spec(old(self).sound@, old(self).assets.ram@, old(self).rng),
            *final(self) == (Game { sound: final(self).sound, ..*old(self) }),
    {
        if self.sound[0] != 0 {
            let id = self.sound[0];
            self.sound[0] = 0;
            self.load_effect(id);
        }
        if self.sound[2] == 0 {
            if self.sound[1] == 0 {
                if self.rng.lo() < 4 {
                    self.sound[1] = self.rng.hi() % 4 + 0x0C;
                }
                return None;
            }
            let id = self.sound[1];
            self.sound[1] = 0;
            self.load_effect(id);
        }
        self.effect_step()
    }
}

} // verus!
