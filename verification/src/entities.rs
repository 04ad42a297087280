//! Entities (BLOB, enemies, specials, the shot).
//!
//! There are six 32-byte entity slots: 0 is BLOB, 1–4 enemies (slot 4 is
//! taken by a special entity in some rooms), 5 BLOB's shot. Slots are kept
//! in the original's byte layout; the fields used so far are named below.

use vstd::prelude::*;
use crate::display::BITMAP_LEN;
use crate::game::Game;
use crate::rng::Rng;
use vstd::array::spec_array_update;

verus! {

pub const SLOTS: usize = 6;

/// Pixels from the left.
pub const X: usize = 0x05;
/// Pixels from the bottom of the screen.
pub const Y: usize = 0x06;
/// Current graphic (2 bytes).
pub const GRAPHIC: usize = 0x07;
pub const COLOUR: usize = 0x09;
/// Enemy: where it entered the room.
pub const START_X: usize = 0x0A;
pub const START_Y: usize = 0x0B;
/// Enemy: direction bits (1 right, 2 left, 4 up, 8 down).
pub const DIRECTION: usize = 0x0D;
/// Enemy: first frame of its graphic set (2 bytes).
pub const GRAPHIC_BASE: usize = 0x0E;
pub const SPEED_X: usize = 0x11;
pub const SPEED_Y: usize = 0x12;
pub const ANIM_PERIOD: usize = 0x13;
pub const ANIM_COUNT: usize = 0x14;
pub const STATE: usize = 0x15;
pub const STATE_COUNT: usize = 0x16;
pub const TURN_PERIOD: usize = 0x17;
pub const TURN_COUNT: usize = 0x18;
pub const BEHAVIOUR: usize = 0x19;

/// BLOB's own state byte in slot 0.
pub const BLOB_STATE: usize = 0x0A;

/// The first and one past the last byte of a slot saved in the enemy cache.
pub const CACHED_START: usize = 0x05;
pub const CACHED_END: usize = 0x1A;

/// One entity slot, in the original's byte layout.
#[derive(Clone, Copy, Debug)]
pub struct Entity(pub [u8; 32]);

impl Entity {
    pub fn x(&self) -> (x: u8)
        ensures
            x == self.0[X as int],
    {
        self.0[X]
    }

    pub fn y(&self) -> (y: u8)
        ensures
            y == self.0[Y as int],
    {
        self.0[Y]
    }
}

impl Entity {
    /// Makes this slot a new enemy of `kind` and `colour` from the room's
    /// parameters `p`.
    pub fn make_fresh(&mut self, kind: u8, colour: u8, p: [u8; 4])
        requires
            kind < 32,
        ensures
            final(self).0@ == fresh_enemy(old(self).0@, kind, colour, p),
    {
        let speed = p[2] % 16;
        let gb: u16 = kind as u16 * 0xC0 + 0xB208;
        let turn: u8 = if speed == 0 { 0x64 } else { 1u8 << (speed % 5 + 1) };
        self.0[GRAPHIC_BASE] = (gb % 256) as u8;
        self.0[GRAPHIC_BASE + 1] = (gb / 256) as u8;
        self.0[COLOUR] = colour & 7;
        self.0[ANIM_COUNT] = p[1];
        self.0[ANIM_PERIOD] = (p[2] / 16) % 5 + 4;
        self.0[TURN_PERIOD] = turn;
        self.0[TURN_COUNT] = 8;
        self.0[BEHAVIOUR] = if kind == 2 { 5 } else { (p[3] % 16) % 5 };
        self.0[DIRECTION] = if p[3] % 2 == 1 { 0xAA } else { 0x55 };
        self.0[X] = 0;
        self.0[Y] = 0x0F;
        self.0[GRAPHIC] = 0x40;
        self.0[GRAPHIC + 1] = 0xDF;
        self.0[SPEED_X] = 2;
        self.0[SPEED_Y] = 2;
        self.0[STATE] = 0;
        self.0[STATE_COUNT] = 0;
        assert(self.0@ =~= fresh_enemy(old(self).0@, kind, colour, p));
    }
}

impl Entity {
    /// Makes this slot a core piece at (x, y), its graphic and the rest
    /// from `template`.
    pub fn core_piece(&mut self, x: u8, y: u8, template: &[u8])
        requires
            template@.len() == 19,
        ensures
            final(self).0@ == Seq::new(
                32,
                |j: int|
                    if j == X { x } else if j == Y { y } else if GRAPHIC <= j < GRAPHIC + 19 {
                        template@[j - GRAPHIC]
                    } else {
                        old(self).0@[j]
                    },
            ),
    {
        let mut j: usize = 0;
        while j < 19
            invariant
                j <= 19,
                template@.len() == 19,
                forall|b: int|
                    0 <= b < 32 ==> #[trigger] self.0@[b] == if GRAPHIC <= b < GRAPHIC + j {
                        template@[b - GRAPHIC]
                    } else {
                        old(self).0@[b]
                    },
            decreases 19 - j,
        {
            self.0[GRAPHIC + j] = template[j];
            j = j + 1;
        }
        self.0[X] = x;
        self.0[Y] = y;
        assert(self.0@ =~= Seq::new(
            32,
            |j: int|
                if j == X { x } else if j == Y { y } else if GRAPHIC <= j < GRAPHIC + 19 {
                    template@[j - GRAPHIC]
                } else {
                    old(self).0@[j]
                },
        ));
    }
}

/// Tables in the original used by the core room.
pub const CORE_POSITIONS: usize = 0x9FB2;
pub const CORE_TEMPLATE: usize = 0x9FC0;
pub const CORE_ROOM: u16 = 199;
pub const CACHE_RESET_ROOM: u16 = 198;

/// Enemy bookkeeping across rooms.
#[derive(Clone, Copy, Debug)]
pub struct Spawner {
    /// Frames during which going back restores the previous room's enemies.
    pub timer: u8,
    pub last_room: u16,
    /// Enemy slots in use in the current room (3 when slot 4 is special).
    pub count: u8,
    pub room_before: u16,
    pub count_before: u8,
    /// Per-room random choices: which parameter bits are re-rolled per
    /// enemy, and the parameters.
    pub masks: [u8; 4],
    pub params: [u8; 4],
    /// High byte of the RNG when the room's enemies were rolled.
    pub seed: u8,
    /// Placement attempts for the last enemy.
    pub tries: u8,
}

/// The entity slots' bytes.
pub open spec fn ents(g: Game) -> Seq<Seq<u8>> {
    Seq::new(SLOTS as nat, |k: int| g.entities[k].0@)
}

/// Whether the 2 × 2 cells at pixel (x, y), y from the bottom, are free
/// for an enemy to enter by: the first cell bright with paper 0–3, the
/// others bright.
pub open spec fn free_at(mem: Seq<u8>, x: u8, y: u8) -> bool {
    let i = BITMAP_LEN + ((0xBF - y) / 8) * 32 + x / 8;
    &&& mem[i] & 0x60 == 0x40
    &&& mem[i + 1] & 0x40 != 0
    &&& mem[i + 33] & 0x40 != 0
    &&& mem[i + 32] & 0x40 != 0
}

/// Where an enemy would come in from after the generator is at `r`: on
/// the top or bottom edge for an even draw, on the left or right edge for
/// an odd one.
pub open spec fn edge_place(r: Rng) -> (u8, u8) {
    let lo = r.a % 256;
    let hi = r.a / 256;
    if lo % 2 == 0 {
        ((((lo / 2) % 23 + 4) * 8) as u8, if hi % 2 != 0 { 0x11u8 } else { 0x8Du8 })
    } else {
        (if hi >= 0x80 { 2u8 } else { 0xEEu8 }, (((lo / 2 + 128) % 9 + 6) * 8 - 1) as u8)
    }
}

/// The search for a free place on a room edge, after `tries` attempts:
/// the generator, the attempts made, and the place found, if any before
/// the hundredth attempt.
pub open spec fn place_search(rng: Rng, tries: u8, mem: Seq<u8>) -> (Rng, u8, Option<(u8, u8)>)
    decreases 100 - tries,
{
    if tries >= 99 {
        (rng, 100, None)
    } else {
        let r = rng.next();
        let (x, y) = edge_place(r);
        if free_at(mem, x, y) {
            (r, (tries + 1) as u8, Some((x, y)))
        } else {
            place_search(r, (tries + 1) as u8, mem)
        }
    }
}

/// An enemy slot once placed: where it comes in, or taken off the room.
pub open spec fn placed(e: Seq<u8>, place: Option<(u8, u8)>) -> Seq<u8> {
    match place {
        Some((x, y)) => e.update(START_X as int, x).update(START_Y as int, y),
        None => e.update(Y as int, 0),
    }
}

/// The room's parameters re-rolled, the first `n` in turn: each takes the
/// generator's next low byte under its mask.
pub open spec fn rerolled(rng: Rng, params: [u8; 4], masks: [u8; 4], n: int) -> (Rng, [u8; 4])
    decreases n,
{
    if n <= 0 {
        (rng, params)
    } else {
        let (r, p) = rerolled(rng, params, masks, n - 1);
        let r2 = r.next();
        (r2, spec_array_update(p, n - 1, p[n - 1] ^ (((r2.a % 256) as u8) & masks[n - 1])))
    }
}

/// The first graphic of enemy kind `kind`'s set.
pub open spec fn graphic_set(kind: u8) -> int {
    kind * 0xC0 + 0xB208
}

/// A new enemy's slot from its kind, colour and the room's parameters:
/// its graphics, colour and animation, how often it turns, how it behaves
/// and which way it starts; blank and waiting below the room.
pub open spec fn fresh_enemy(e: Seq<u8>, kind: u8, colour: u8, p: [u8; 4]) -> Seq<u8> {
    let gb = graphic_set(kind);
    let speed = p[2] % 16;
    e.update(GRAPHIC_BASE as int, (gb % 256) as u8).update(GRAPHIC_BASE + 1, (gb / 256) as u8).update(
        COLOUR as int,
        colour & 7,
    ).update(ANIM_COUNT as int, p[1]).update(ANIM_PERIOD as int, ((p[2] / 16) % 5 + 4) as u8).update(
        TURN_PERIOD as int,
        if speed == 0 { 0x64u8 } else { 1u8 << ((speed % 5 + 1) as u8) },
    ).update(TURN_COUNT as int, 8).update(
        BEHAVIOUR as int,
        if kind == 2 { 5u8 } else { ((p[3] % 16) % 5) as u8 },
    ).update(DIRECTION as int, if p[3] % 2 == 1 { 0xAAu8 } else { 0x55u8 }).update(X as int, 0).update(
        Y as int,
        0x0F,
    ).update(GRAPHIC as int, 0x40).update(GRAPHIC + 1, 0xDF).update(SPEED_X as int, 2).update(
        SPEED_Y as int,
        2,
    ).update(STATE as int, 0).update(STATE_COUNT as int, 0)
}

/// Rolling a new enemy: the generator, the room's parameters, the
/// placement attempts and the enemy's slot afterwards. The kind and the
/// colour are random where the room's mask says so, else the parameters'.
pub open spec fn roll_spec(rng: Rng, params: [u8; 4], masks: [u8; 4], e: Seq<u8>, mem: Seq<u8>) -> (
    Rng,
    [u8; 4],
    u8,
    Seq<u8>,
) {
    let (r4, p) = rerolled(rng, params, masks, 4);
    let kind: u8 = if masks[0] & 0x1F != 0 { ((r4.a / 256) % 15 + 2) as u8 } else { p[0] & 0x1F };
    let r5 = if masks[0] & 0x80 != 0 { r4.next() } else { r4 };
    let colour: u8 = if masks[0] & 0x80 != 0 { ((r5.a % 256) % 5 + 2) as u8 } else { crate::room::rl3(p[0]) };
    let (r6, tries, place) = place_search(r5, 0, mem);
    (r6, p, tries, placed(fresh_enemy(e, kind, colour, p), place))
}

/// Enemies rolled into slots `n` down to 1, in turn: the generator, the
/// parameters, the last placement's attempts and the slots afterwards.
pub open spec fn roll_all(rng: Rng, params: [u8; 4], masks: [u8; 4], tries: u8, ents: Seq<Seq<u8>>, mem: Seq<u8>, n: int) -> (
    Rng,
    [u8; 4],
    u8,
    Seq<Seq<u8>>,
)
    decreases n,
{
    if n <= 0 {
        (rng, params, tries, ents)
    } else {
        let (r, p, t, e) = roll_spec(rng, params, masks, ents[n], mem);
        roll_all(r, p, masks, t, ents.update(n, e), mem, n - 1)
    }
}

/// The special entity at (x, y).
pub open spec fn special(e: Seq<u8>, x: u8, y: u8) -> Seq<u8> {
    e.update(X as int, x).update(Y as int, y).update(GRAPHIC as int, 0xC8).update(GRAPHIC + 1, 0xAF).update(
        COLOUR as int,
        7,
    )
}

/// A position eight pixels lower.
pub open spec fn below(y: u8) -> u8 {
    ((y + 248) % 256) as u8
}

/// The special entity placed where the room's kind-12 marker is, then
/// under BLOB if he is on a platform: slot 4 and the enemy count.
pub open spec fn specials(ents: Seq<Seq<u8>>, count: u8, kind12: Option<(u8, u8)>) -> (Seq<Seq<u8>>, u8) {
    let (e1, c1) = match kind12 {
        Some((x, y)) => (ents.update(4, special(ents[4], x, below(y))), 3u8),
        None => (ents, count),
    };
    let blob = e1[0];
    if blob[BLOB_STATE as int] == 2 {
        (e1.update(4, special(e1[4], blob[X as int], below(blob[Y as int]))), 3u8)
    } else {
        (e1, c1)
    }
}

/// A stationary entity at a tile's character cell.
pub open spec fn stationary(e: Seq<u8>, col: u8, row: u8) -> Seq<u8> {
    let m = crate::room::marker_at(0, row, col);
    e.update(X as int, m.x).update(Y as int, m.y).update(GRAPHIC as int, 0xC8).update(GRAPHIC + 1, 0xB2).update(
        DIRECTION as int,
        1,
    ).update(ANIM_PERIOD as int, e[ANIM_PERIOD as int] | 8).update(ANIM_COUNT as int, 1).update(STATE as int, 1).update(
        BEHAVIOUR as int,
        6,
    )
}

/// The stationary entities at the tiles of type 8: the first point takes
/// the highest slot.
pub open spec fn stationaries(ents: Seq<Seq<u8>>, points: Seq<(u8, u8)>) -> Seq<Seq<u8>> {
    Seq::new(
        ents.len(),
        |k: int|
            if 1 <= k <= points.len() {
                stationary(ents[k], points[points.len() - k].0, points[points.len() - k].1)
            } else {
                ents[k]
            },
    )
}

/// The cached enemies swapped with the ones in slots 1–4.
pub open spec fn swap_cache(ents: Seq<Seq<u8>>, cache: Seq<Seq<u8>>) -> (Seq<Seq<u8>>, Seq<Seq<u8>>) {
    (
        Seq::new(
            ents.len(),
            |k: int|
                if 1 <= k <= 4 {
                    Seq::new(
                        32,
                        |j: int| if CACHED_START <= j < CACHED_END { cache[k - 1][j - CACHED_START] } else { ents[k][j] },
                    )
                } else {
                    ents[k]
                },
        ),
        Seq::new(4, |k: int| ents[k + 1].subrange(CACHED_START as int, CACHED_END as int)),
    )
}

/// The core room's entities: slots 1–4 cleared, then one core piece per
/// delivered core at the positions from a random start in the table.
pub open spec fn core_ents(ents: Seq<Seq<u8>>, lo: u8, cores: u8, ram: Seq<u8>) -> Seq<Seq<u8>> {
    Seq::new(
        ents.len(),
        |k: int|
            {
                let cleared = if 1 <= k <= 4 {
                    Seq::new(
                        32,
                        |j: int|
                            if j == X { 0u8 } else if j == Y { 0u8 } else if j == GRAPHIC { 0x40u8 } else if j == GRAPHIC + 1 {
                                0xDFu8
                            } else if j == COLOUR { 0u8 } else { ents[k][j] },
                    )
                } else {
                    ents[k]
                };
                let pos = CORE_POSITIONS + (lo & 6) + 2 * (k - 1);
                if 1 <= k <= cores {
                    Seq::new(
                        32,
                        |j: int|
                            if j == X { ram[pos] } else if j == Y { ram[pos + 1] } else if GRAPHIC <= j < GRAPHIC + 19 {
                                ram[CORE_TEMPLATE + j - GRAPHIC]
                            } else {
                                cleared[j]
                            },
                    )
                } else {
                    cleared
                }
            },
    )
}

/// The enemy cache's bytes.
pub open spec fn caches(g: Game) -> Seq<Seq<u8>> {
    Seq::new(4, |k: int| g.enemy_cache[k]@)
}

/// An empty enemy cache.
pub open spec fn empty_cache() -> Seq<Seq<u8>> {
    Seq::new(4, |k: int| Seq::new(21, |j: int| 0u8))
}

/// Every mask bit set: every parameter re-rolled for each enemy.
pub open spec fn all_masks() -> [u8; 4] {
    [0xFFu8, 0xFF, 0xFF, 0xFF]
}

/// A new room's enemies: one draw chooses whether they are all random or
/// share some of their looks and ways, the second draw's high byte which
/// ones. Returns the generator, parameters, masks, attempts and slots.
pub open spec fn room_roll(r1: Rng, params: [u8; 4], tries: u8, ents: Seq<Seq<u8>>, mem: Seq<u8>) -> (
    Rng,
    [u8; 4],
    [u8; 4],
    u8,
    Seq<Seq<u8>>,
) {
    if r1.a % 256 >= 0x80 {
        let (r, p, t, e) = roll_all(r1, params, all_masks(), tries, ents, mem, 4);
        (r, p, all_masks(), t, e)
    } else {
        let r2 = r1.next();
        let c = (r2.a / 256) as u8;
        let p0a = ((r2.a % 256) % 15 + 2) as u8;
        let r3 = if c & 1 != 0 { r2.next() } else { r2 };
        let p0: u8 = if c & 1 != 0 { p0a | ((((r3.a % 256) % 5 + 2) * 32) as u8) } else { p0a };
        let m0: u8 = if c & 1 != 0 { 0 } else { 0xE0 };
        let r4 = r3.next();
        let p2a = (r4.a % 256) as u8;
        let m2a: u8 = if c & 2 != 0 { 0x0F } else { 0xFF };
        let p2: u8 = if c & 4 != 0 { p2a & 0xF0 } else { p2a };
        let m2: u8 = if c & 8 != 0 { m2a & 0xF0 } else { m2a };
        let p3 = (r4.a / 256) as u8;
        let m3: u8 = if c & 16 != 0 { 0 } else { 0xFF };
        let (r, p, t, e) = roll_all(r4, [p0, params[1], p2, p3], [m0, 0xFF, m2, m3], tries, ents, mem, 4);
        (r, p, if c & 32 != 0 && c & 64 != 0 { all_masks() } else { [m0, 0xFFu8, m2, m3] }, t, e)
    }
}

/// The spawner on entering `g.room`, before the room just left is parked:
/// the room that resets the cache gives the one before it a fresh timer.
pub open spec fn reset_spawner(g: Game) -> Spawner {
    if g.room == CACHE_RESET_ROOM {
        Spawner { room_before: CACHE_RESET_ROOM, count_before: 4, timer: 4, ..g.spawner }
    } else {
        g.spawner
    }
}

/// Whether going into `g.room` brings back the enemies cached when it was
/// left, going back within the timer.
pub open spec fn goes_back(g: Game) -> bool {
    reset_spawner(g).timer != 0 && g.room == reset_spawner(g).room_before
}

/// Leaving a room: its enemies parked in the cache and the cached ones
/// back in their slots, and the spawner remembering the rooms.
pub open spec fn leave_spec(g: Game) -> (Spawner, Seq<Seq<u8>>, Seq<Seq<u8>>) {
    let sp1 = reset_spawner(g);
    let cache1 = if g.room == CACHE_RESET_ROOM { empty_cache() } else { caches(g) };
    let (ents2, cache2) = swap_cache(ents(g), cache1);
    (Spawner { room_before: sp1.last_room, count_before: sp1.count, last_room: g.room, timer: 0xB4, ..sp1 }, ents2, cache2)
}

/// The generator, the spawner, the entity slots and the enemy cache once
/// a room's enemies are in place.
pub open spec fn spawn_spec(g: Game) -> (Rng, Spawner, Seq<Seq<u8>>, Seq<Seq<u8>>) {
    let mem = g.display.mem@;
    if g.room == CORE_ROOM {
        let r = g.rng.next();
        (r, Spawner { count: 4, ..g.spawner }, core_ents(ents(g), (r.a % 256) as u8, g.cores, g.assets.ram@), caches(g))
    } else {
        let (sp2, ents2, cache2) = leave_spec(g);
        if goes_back(g) {
            let (r, p, t, e) = if reset_spawner(g).count_before == 3 {
                let (r, p, t, e4) = roll_spec(g.rng, sp2.params, sp2.masks, ents2[4], mem);
                (r, p, t, ents2.update(4, e4))
            } else {
                (g.rng, sp2.params, sp2.tries, ents2)
            };
            let (e2, count) = specials(e, 4, g.objects.kind12);
            (r, Spawner { params: p, tries: t, count, ..sp2 }, e2, cache2)
        } else {
            let r1 = g.rng.next();
            let (r, p, m, t, e) = room_roll(r1, sp2.params, sp2.tries, ents2, mem);
            let (e2, count) = specials(stationaries(e, g.objects.type8@), 4, g.objects.kind12);
            (r, Spawner { seed: (r1.a / 256) as u8, masks: m, params: p, tries: t, count, ..sp2 }, e2, cache2)
        }
    }
}

/// Whether a room's enemies can be put in place: in the core room, every
/// delivered core has a slot and the core tables are in memory; elsewhere,
/// unless the cached enemies come back, the stationary entities have slots.
pub open spec fn spawn_ok(g: Game) -> bool {
    if g.room == CORE_ROOM {
        g.cores <= 5 && g.assets.ram@.len() >= CORE_TEMPLATE + 19
    } else {
        goes_back(g) || g.objects.type8@.len() <= 5
    }
}

impl Game {
    /// Whether the 2 × 2 cells at pixel (x, y) are free: the first cell
    /// bright with paper 0–3, the others bright.
    fn cell_free(&self, x: u8, y: u8) -> (b: bool)
        requires
            y <= 0xBF,
            BITMAP_LEN + ((0xBF - y) / 8) * 32 + x / 8 + 33 < crate::display::LEN,
        ensures
            b == free_at(self.display.mem@, x, y),
    {
        let i: usize = BITMAP_LEN + ((0xBF - y) / 8) as usize * 32 + (x / 8) as usize;
        self.display.mem[i] & 0x60 == 0x40 && self.display.mem[i + 1] & 0x40 != 0
            && self.display.mem[i + 33] & 0x40 != 0 && self.display.mem[i + 32] & 0x40 != 0
    }

    /// Picks a free place on a room edge for an enemy to come in from.
    fn place_enemy(&mut self, slot: usize)
        requires
            slot < SLOTS,
        ensures
            ({
                let (rng, tries, place) = place_search(old(self).rng, 0, old(self).display.mem@);
                &&& final(self).rng == rng
                &&& final(self).spawner == (Spawner { tries, ..old(self).spawner })
                &&& final(self).entities[slot as int].0@ == placed(old(self).entities[slot as int].0@, place)
                &&& forall|k: int| 0 <= k < SLOTS && k != slot ==> #[trigger] final(self).entities[k] == old(self).entities[k]
                &&& *final(self) == (Game {
                    rng: final(self).rng,
                    spawner: final(self).spawner,
                    entities: final(self).entities,
                    ..*old(self)
                })
            }),
    {
        self.spawner.tries = 0;
        loop
            invariant
                self.spawner.tries < 100,
                place_search(self.rng, self.spawner.tries, self.display.mem@) == place_search(
                    old(self).rng,
                    0,
                    old(self).display.mem@,
                ),
                self.spawner == (Spawner { tries: self.spawner.tries, ..old(self).spawner }),
                *self == (Game { rng: self.rng, spawner: self.spawner, ..*old(self) }),
                slot < SLOTS,
            decreases 100 - self.spawner.tries,
        {
            let ghost before = self.rng;
            self.spawner.tries = self.spawner.tries + 1;
            if self.spawner.tries == 100 {
                self.entities[slot].0[Y] = 0;
                return;
            }
            self.rng.step();
            let lo = self.rng.lo();
            let hi = self.rng.hi();
            let (x, y) = if lo % 2 == 0 {
                ((((lo / 2) % 23 + 4) * 8) as u8, if hi % 2 != 0 { 0x11u8 } else { 0x8Du8 })
            } else {
                (if hi >= 0x80 { 2u8 } else { 0xEEu8 }, (((lo / 2 + 128) % 9 + 6) * 8 - 1) as u8)
            };
            assert((x, y) == edge_place(self.rng));
            if self.cell_free(x, y) {
                self.entities[slot].0[START_X] = x;
                self.entities[slot].0[START_Y] = y;
                return;
            }
        }
    }

    /// Re-rolls the room's four enemy parameters.
    fn reroll(&mut self)
        ensures
            (final(self).rng, final(self).spawner.params) == rerolled(
                old(self).rng,
                old(self).spawner.params,
                old(self).spawner.masks,
                4,
            ),
            final(self).spawner == (Spawner { params: final(self).spawner.params, ..old(self).spawner }),
            *final(self) == (Game { rng: final(self).rng, spawner: final(self).spawner, ..*old(self) }),
    {
        let mut i: usize = 0;
        while i < 4
            invariant
                i <= 4,
                (self.rng, self.spawner.params) == rerolled(old(self).rng, old(self).spawner.params, old(self).spawner.masks, i as int),
                self.spawner == (Spawner { params: self.spawner.params, ..old(self).spawner }),
                *self == (Game { rng: self.rng, spawner: self.spawner, ..*old(self) }),
            decreases 4 - i,
        {
            self.rng.step();
            let v = self.spawner.params[i] ^ (self.rng.lo() & self.spawner.masks[i]);
            self.spawner.params[i] = v;
            i = i + 1;
            assert(self.spawner.params =~= rerolled(old(self).rng, old(self).spawner.params, old(self).spawner.masks, i as int).1);
        }
    }

    /// Rolls a new enemy into `slot` from the room's parameters.
    pub(crate) fn roll_enemy(&mut self, slot: usize)
        requires
            slot < SLOTS,
        ensures
            ({
                let (rng, params, tries, e) = roll_spec(
                    old(self).rng,
                    old(self).spawner.params,
                    old(self).spawner.masks,
                    old(self).entities[slot as int].0@,
                    old(self).display.mem@,
                );
                &&& final(self).rng == rng
                &&& final(self).spawner == (Spawner { tries, params, ..old(self).spawner })
                &&& final(self).entities[slot as int].0@ == e
                &&& forall|k: int| 0 <= k < SLOTS && k != slot ==> #[trigger] final(self).entities[k] == old(self).entities[k]
                &&& *final(self) == (Game {
                    rng: final(self).rng,
                    spawner: final(self).spawner,
                    entities: final(self).entities,
                    ..*old(self)
                })
            }),
    {
        self.reroll();
        let p0 = self.spawner.params[0];
        let p1 = self.spawner.params[1];
        let p2 = self.spawner.params[2];
        let p3 = self.spawner.params[3];
        let m0 = self.spawner.masks[0];
        let kind: u8 = if m0 & 0x1F != 0 { self.rng.hi() % 15 + 2 } else { p0 & 0x1F };
        assert(p0 & 0x1F <= 31) by (bit_vector);
        let colour: u8 = if m0 & 0x80 != 0 {
            self.rng.step();
            self.rng.lo() % 5 + 2
        } else {
            crate::room::rotl3(p0)
        };
        self.entities[slot].make_fresh(kind, colour, self.spawner.params);
        self.place_enemy(slot);
    }

    fn place_special(&mut self, x: u8, y: u8)
        ensures
            final(self).entities[4].0@ == special(old(self).entities[4].0@, x, y),
            forall|k: int| 0 <= k < SLOTS && k != 4 ==> #[trigger] final(self).entities[k] == old(self).entities[k],
            final(self).spawner == (Spawner { count: 3, ..old(self).spawner }),
            *final(self) == (Game { entities: final(self).entities, spawner: final(self).spawner, ..*old(self) }),
    {
        self.entities[4].0[X] = x;
        self.entities[4].0[Y] = y;
        self.entities[4].0[GRAPHIC] = 0xC8;
        self.entities[4].0[GRAPHIC + 1] = 0xAF;
        self.entities[4].0[COLOUR] = 7;
        self.spawner.count = 3;
    }

    /// The special entity, where the room or BLOB's platform has one.
    fn place_specials(&mut self)
        ensures
            ({
                let (e, count) = specials(ents(*old(self)), old(self).spawner.count, old(self).objects.kind12);
                &&& ents(*final(self)) == e
                &&& final(self).spawner == (Spawner { count, ..old(self).spawner })
                &&& *final(self) == (Game { entities: final(self).entities, spawner: final(self).spawner, ..*old(self) })
            }),
    {
        if let Some((x, y)) = self.objects.kind12 {
            self.place_special(x, ((y as u16 + 248) % 256) as u8);
        }
        let blob = self.entities[0];
        if blob.0[BLOB_STATE] == 2 {
            self.place_special(blob.0[X], ((blob.0[Y] as u16 + 248) % 256) as u8);
        }
        assert(ents(*self) =~= specials(ents(*old(self)), old(self).spawner.count, old(self).objects.kind12).0);
    }

    /// Stationary entities at tile type 8, and the special entity.
    fn spawn_fixed(&mut self)
        requires
            old(self).objects.type8@.len() <= 5,
        ensures
            ({
                let (e, count) = specials(
                    stationaries(ents(*old(self)), old(self).objects.type8@),
                    old(self).spawner.count,
                    old(self).objects.kind12,
                );
                &&& ents(*final(self)) == e
                &&& final(self).spawner == (Spawner { count, ..old(self).spawner })
                &&& *final(self) == (Game { entities: final(self).entities, spawner: final(self).spawner, ..*old(self) })
            }),
    {
        let n = self.objects.type8.len();
        let mut i: usize = 0;
        while i < n
            invariant
                i <= n,
                n == old(self).objects.type8@.len(),
                n <= 5,
                forall|k: int|
                    0 <= k < SLOTS ==> #[trigger] self.entities[k].0@ == if n - i < k <= n {
                        stationary(old(self).entities[k].0@, old(self).objects.type8@[n - k].0, old(self).objects.type8@[n - k].1)
                    } else {
                        old(self).entities[k].0@
                    },
                *self == (Game { entities: self.entities, ..*old(self) }),
            decreases n - i,
        {
            let (col, row) = self.objects.type8[i];
            let slot = n - i;
            let up = ((0x18 + 256 - row as u16) % 256) as u8;
            let e = &mut self.entities[slot].0;
            e[X] = crate::room::rotl3(col);
            e[Y] = ((crate::room::rotl3(up) as u16 + 255) % 256) as u8;
            e[GRAPHIC] = 0xC8;
            e[GRAPHIC + 1] = 0xB2;
            e[DIRECTION] = 1;
            e[ANIM_PERIOD] = e[ANIM_PERIOD] | 8;
            e[ANIM_COUNT] = 1;
            e[STATE] = 1;
            e[BEHAVIOUR] = 6;
            i = i + 1;
            assert(self.entities[slot as int].0@ =~= stationary(
                old(self).entities[slot as int].0@,
                old(self).objects.type8@[n - slot].0,
                old(self).objects.type8@[n - slot].1,
            ));
        }
        assert(ents(*self) =~= stationaries(ents(*old(self)), old(self).objects.type8@));
        self.place_specials();
    }

    fn spawn_core_room(&mut self)
        requires
            old(self).cores <= 5,
            old(self).assets.ram@.len() >= CORE_TEMPLATE + 19,
        ensures
            final(self).rng == old(self).rng.next(),
            ents(*final(self)) == core_ents(ents(*old(self)), (final(self).rng.a % 256) as u8, old(self).cores, old(self).assets.ram@),
            final(self).spawner == (Spawner { count: 4, ..old(self).spawner }),
            *final(self) == (Game { rng: final(self).rng, entities: final(self).entities, spawner: final(self).spawner, ..*old(self) }),
    {
        self.spawner.count = 4;
        let mut slot: usize = 1;
        while slot <= 4
            invariant
                1 <= slot <= 5,
                forall|k: int|
                    0 <= k < SLOTS ==> #[trigger] self.entities[k].0@ == if 1 <= k < slot {
                        old(self).entities[k].0@.update(X as int, 0).update(Y as int, 0).update(GRAPHIC as int, 0x40).update(
                            GRAPHIC + 1,
                            0xDF,
                        ).update(COLOUR as int, 0)
                    } else {
                        old(self).entities[k].0@
                    },
                *self == (Game { entities: self.entities, spawner: self.spawner, ..*old(self) }),
                self.spawner == (Spawner { count: 4, ..old(self).spawner }),
            decreases 5 - slot,
        {
            self.entities[slot].0[X] = 0;
            self.entities[slot].0[Y] = 0;
            self.entities[slot].0[GRAPHIC] = 0x40;
            self.entities[slot].0[GRAPHIC + 1] = 0xDF;
            self.entities[slot].0[COLOUR] = 0;
            slot = slot + 1;
        }
        self.rng.step();
        let lo = self.rng.lo();
        let ghost cleared = ents(*self);
        let cores = self.cores as usize;
        let mut pos: usize = CORE_POSITIONS + (lo & 6) as usize;
        assert(lo & 6 <= 6) by (bit_vector);
        let mut slot: usize = 1;
        while slot <= cores
            invariant
                1 <= slot <= cores + 1,
                cores == old(self).cores,
                cores <= 5,
                lo == self.rng.a % 256,
                lo & 6 <= 6,
                pos == CORE_POSITIONS + (lo & 6) + 2 * (slot - 1),
                self.assets.ram@.len() >= CORE_TEMPLATE + 19,
                self.assets == old(self).assets,
                forall|k: int|
                    0 <= k < SLOTS ==> #[trigger] self.entities[k].0@ == if 1 <= k < slot {
                        core_ents(cleared, lo, old(self).cores, old(self).assets.ram@)[k]
                    } else {
                        cleared[k]
                    },
                *self == (Game { rng: self.rng, entities: self.entities, spawner: self.spawner, ..*old(self) }),
                self.spawner == (Spawner { count: 4, ..old(self).spawner }),
                self.rng == old(self).rng.next(),
                cleared.len() == SLOTS,
            decreases cores + 1 - slot,
        {
            let x = self.assets.ram[pos];
            let y = self.assets.ram[pos + 1];
            let template = vstd::slice::slice_subrange(self.assets.ram.as_slice(), CORE_TEMPLATE, CORE_TEMPLATE + 19);
            self.entities[slot].core_piece(x, y, template);
            assert(self.entities[slot as int].0@ =~= core_ents(cleared, lo, old(self).cores, old(self).assets.ram@)[slot as int]);
            pos = pos + 2;
            slot = slot + 1;
        }
        assert forall|k: int| 0 <= k < SLOTS implies ents(*self)[k] =~= core_ents(
            ents(*old(self)),
            lo,
            old(self).cores,
            old(self).assets.ram@,
        )[k] by {
            assert(cleared[k] == ents(*self)[k] || 1 <= k <= old(self).cores);
        }
        assert(ents(*self) =~= core_ents(ents(*old(self)), lo, old(self).cores, old(self).assets.ram@));
    }

    /// Swaps the enemy in slot `k + 1` with cache entry `k`.
    fn swap_one(&mut self, k: usize)
        requires
            k < 4,
        ensures
            final(self).entities[k + 1].0@ == Seq::new(
                32,
                |j: int|
                    if CACHED_START <= j < CACHED_END {
                        old(self).enemy_cache[k as int][j - CACHED_START]
                    } else {
                        old(self).entities[k + 1].0[j]
                    },
            ),
            final(self).enemy_cache[k as int]@ == old(self).entities[k + 1].0@.subrange(
                CACHED_START as int,
                CACHED_END as int,
            ),
            forall|i: int| 0 <= i < SLOTS && i != k + 1 ==> #[trigger] final(self).entities[i] == old(self).entities[i],
            forall|i: int| 0 <= i < 4 && i != k ==> #[trigger] final(self).enemy_cache[i] == old(self).enemy_cache[i],
            *final(self) == (Game { entities: final(self).entities, enemy_cache: final(self).enemy_cache, ..*old(self) }),
    {
        let parked = self.enemy_cache[k];
        let mut slot = self.entities[k + 1];
        let mut j: usize = 0;
        while j < 21
            invariant
                j <= 21,
                k < 4,
                slot == old(self).entities[k + 1],
                *self == (Game { enemy_cache: self.enemy_cache, ..*old(self) }),
                forall|i: int| 0 <= i < 4 && i != k ==> #[trigger] self.enemy_cache[i] == old(self).enemy_cache[i],
                forall|b: int|
                    0 <= b < 21 ==> #[trigger] self.enemy_cache[k as int][b] == if b < j {
                        slot.0[CACHED_START + b]
                    } else {
                        parked[b]
                    },
            decreases 21 - j,
        {
            self.enemy_cache[k][j] = slot.0[CACHED_START + j];
            j = j + 1;
        }
        let mut j: usize = 0;
        while j < 21
            invariant
                j <= 21,
                parked == old(self).enemy_cache[k as int],
                forall|b: int|
                    0 <= b < 32 ==> #[trigger] slot.0[b] == if CACHED_START <= b < CACHED_START + j {
                        parked[b - CACHED_START]
                    } else {
                        old(self).entities[k + 1].0[b]
                    },
            decreases 21 - j,
        {
            slot.0[CACHED_START + j] = parked[j];
            j = j + 1;
        }
        self.entities[k + 1] = slot;
        assert(self.enemy_cache[k as int]@ =~= old(self).entities[k + 1].0@.subrange(CACHED_START as int, CACHED_END as int));
        assert(self.entities[k + 1].0@ =~= Seq::new(
            32,
            |j: int|
                if CACHED_START <= j < CACHED_END {
                    old(self).enemy_cache[k as int][j - CACHED_START]
                } else {
                    old(self).entities[k + 1].0[j]
                },
        ));
    }

    /// Swaps the enemies of slots 1–4 with the cached ones.
    fn swap_cache(&mut self)
        ensures
            (ents(*final(self)), caches(*final(self))) == swap_cache(ents(*old(self)), caches(*old(self))),
            *final(self) == (Game { entities: final(self).entities, enemy_cache: final(self).enemy_cache, ..*old(self) }),
    {
        let mut k: usize = 0;
        while k < 4
            invariant
                k <= 4,
                forall|i: int|
                    0 <= i < SLOTS ==> #[trigger] ents(*self)[i] == if 1 <= i <= k {
                        swap_cache(ents(*old(self)), caches(*old(self))).0[i]
                    } else {
                        ents(*old(self))[i]
                    },
                forall|i: int|
                    0 <= i < 4 ==> #[trigger] caches(*self)[i] == if i < k {
                        swap_cache(ents(*old(self)), caches(*old(self))).1[i]
                    } else {
                        caches(*old(self))[i]
                    },
                *self == (Game { entities: self.entities, enemy_cache: self.enemy_cache, ..*old(self) }),
            decreases 4 - k,
        {
            let ghost pre = *self;
            assert(ents(pre)[k + 1] == ents(*old(self))[k + 1]);
            assert(caches(pre)[k as int] == caches(*old(self))[k as int]);
            self.swap_one(k);
            assert(ents(*self)[k + 1] =~= swap_cache(ents(*old(self)), caches(*old(self))).0[k + 1]);
            assert(caches(*self)[k as int] =~= swap_cache(ents(*old(self)), caches(*old(self))).1[k as int]);
            assert forall|i: int| 0 <= i < SLOTS && i != k + 1 implies #[trigger] ents(*self)[i] == ents(pre)[i] by {
                assert(self.entities[i] == pre.entities[i]);
            }
            assert forall|i: int| 0 <= i < 4 && i != k implies #[trigger] caches(*self)[i] == caches(pre)[i] by {
                assert(self.enemy_cache[i] == pre.enemy_cache[i]);
            }
            k = k + 1;
        }
        assert(ents(*self) =~= swap_cache(ents(*old(self)), caches(*old(self))).0);
        assert(caches(*self) =~= swap_cache(ents(*old(self)), caches(*old(self))).1);
    }

    /// Rolls new enemies into slots 4 down to 1.
    fn roll_slots(&mut self)
        ensures
            ({
                let (rng, params, tries, e) = roll_all(
                    old(self).rng,
                    old(self).spawner.params,
                    old(self).spawner.masks,
                    old(self).spawner.tries,
                    ents(*old(self)),
                    old(self).display.mem@,
                    4,
                );
                &&& final(self).rng == rng
                &&& final(self).spawner == (Spawner { params, tries, ..old(self).spawner })
                &&& ents(*final(self)) == e
                &&& *final(self) == (Game {
                    rng: final(self).rng,
                    spawner: final(self).spawner,
                    entities: final(self).entities,
                    ..*old(self)
                })
            }),
    {
        let ghost target = roll_all(
            old(self).rng,
            old(self).spawner.params,
            old(self).spawner.masks,
            old(self).spawner.tries,
            ents(*old(self)),
            old(self).display.mem@,
            4,
        );
        let mut slot: usize = 4;
        while slot > 0
            invariant
                slot <= 4,
                roll_all(self.rng, self.spawner.params, self.spawner.masks, self.spawner.tries, ents(*self), self.display.mem@, slot as int)
                    == target,
                self.spawner == (Spawner { params: self.spawner.params, tries: self.spawner.tries, ..old(self).spawner }),
                *self == (Game { rng: self.rng, spawner: self.spawner, entities: self.entities, ..*old(self) }),
            decreases slot,
        {
            let ghost pre = *self;
            self.roll_enemy(slot);
            proof {
                let (r, p, t, e) = roll_spec(pre.rng, pre.spawner.params, pre.spawner.masks, ents(pre)[slot as int], pre.display.mem@);
                assert forall|i: int| 0 <= i < SLOTS implies #[trigger] ents(*self)[i] == ents(pre).update(slot as int, e)[i] by {
                    if i != slot {
                        assert(self.entities[i] == pre.entities[i]);
                    }
                }
                assert(ents(*self) =~= ents(pre).update(slot as int, e));
            }
            slot = slot - 1;
        }
    }

    /// Leaves the room: parks its enemies, brings back the cached ones and
    /// moves the spawner's memory of rooms on.
    fn leave(&mut self)
        requires
            old(self).room != CORE_ROOM,
        ensures
            ({
                let (sp, e, cache) = leave_spec(*old(self));
                &&& final(self).spawner == sp
                &&& ents(*final(self)) == e
                &&& caches(*final(self)) == cache
                &&& *final(self) == (Game {
                    spawner: final(self).spawner,
                    entities: final(self).entities,
                    enemy_cache: final(self).enemy_cache,
                    ..*old(self)
                })
            }),
    {
        if self.room == CACHE_RESET_ROOM {
            self.spawner.room_before = CACHE_RESET_ROOM;
            self.spawner.count_before = 4;
            self.spawner.timer = 4;
            let z: [u8; 21] = [0u8; 21];
            assert(z@ =~= Seq::new(21, |j: int| 0u8));
            self.enemy_cache = [z, z, z, z];
            assert(caches(*self) =~= empty_cache());
        }
        self.swap_cache();
        self.spawner.room_before = self.spawner.last_room;
        self.spawner.count_before = self.spawner.count;
        self.spawner.last_room = self.room;
        self.spawner.timer = 0xB4;
    }

    /// A new roll of the room's enemies.
    #[verifier::rlimit(60)]
    fn roll_room(&mut self)
        ensures
            ({
                let r1 = old(self).rng.next();
                let (r, p, m, t, e) = room_roll(r1, old(self).spawner.params, old(self).spawner.tries, ents(*old(self)), old(self).display.mem@);
                &&& final(self).rng == r
                &&& final(self).spawner == (Spawner { seed: (r1.a / 256) as u8, masks: m, params: p, tries: t, ..old(self).spawner })
                &&& ents(*final(self)) == e
                &&& *final(self) == (Game {
                    rng: final(self).rng,
                    spawner: final(self).spawner,
                    entities: final(self).entities,
                    ..*old(self)
                })
            }),
    {
        self.rng.step();
        self.spawner.seed = self.rng.hi();
        if self.rng.lo() >= 0x80 {
            self.spawner.masks = [0xFF; 4];
            assert(self.spawner.masks =~= all_masks());
            self.roll_slots();
        } else {
            self.rng.step();
            let c = self.rng.hi();
            let p0a = self.rng.lo() % 15 + 2;
            let mut p0 = p0a;
            let mut m0: u8 = 0xE0;
            if c & 1 != 0 {
                self.rng.step();
                p0 = p0a | ((self.rng.lo() % 5 + 2) * 32);
                m0 = 0;
            }
            self.rng.step();
            let p2a = self.rng.lo();
            let m2a: u8 = if c & 2 != 0 { 0x0F } else { 0xFF };
            let p2: u8 = if c & 4 != 0 { p2a & 0xF0 } else { p2a };
            let m2: u8 = if c & 8 != 0 { m2a & 0xF0 } else { m2a };
            let p3 = self.rng.hi();
            let m3: u8 = if c & 16 != 0 { 0 } else { 0xFF };
            self.spawner.params = [p0, self.spawner.params[1], p2, p3];
            self.spawner.masks = [m0, 0xFF, m2, m3];
            self.roll_slots();
            if c & 32 != 0 && c & 64 != 0 {
                self.spawner.masks = [0xFF; 4];
                assert(self.spawner.masks =~= all_masks());
            }
        }
    }

    /// Fills the enemy slots for the room just entered: the core room's
    /// pieces; or the enemies cached when this room was left, if it was
    /// left within the timer; or a new roll of enemies. Stationary entities
    /// and the special entity go in with them.
    pub fn spawn_enemies(&mut self)
        requires
            spawn_ok(*old(self)),
        ensures
            ({
                let (rng, spawner, e, cache) = spawn_spec(*old(self));
                &&& final(self).rng == rng
                &&& final(self).spawner == spawner
                &&& ents(*final(self)) == e
                &&& caches(*final(self)) == cache
                &&& *final(self) == (Game {
                    rng: final(self).rng,
                    spawner: final(self).spawner,
                    entities: final(self).entities,
                    enemy_cache: final(self).enemy_cache,
                    ..*old(self)
                })
            }),
    {
        if self.room == CORE_ROOM {
            self.spawn_core_room();
            return;
        }
        let back = self.room == CACHE_RESET_ROOM || (self.spawner.timer != 0 && self.room == self.spawner.room_before);
        let back_count = if self.room == CACHE_RESET_ROOM { 4 } else { self.spawner.count_before };
        assert(back == goes_back(*self));
        self.leave();
        if back {
            if back_count == 3 {
                self.roll_enemy(4);
            }
            self.spawner.count = 4;
            self.place_specials();
            return;
        }
        self.spawner.count = 4;
        self.roll_room();
        self.spawn_fixed();
    }
}

} // verus!
