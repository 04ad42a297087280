//! The small pieces of the game's state that a frontend sees: which part
//! of the program is running, the teleporters seen, and training mode's
//! switches.

use vstd::prelude::*;
use std::rc::Rc;
use crate::assets::Assets;
use crate::controls::{controls_read, Controls, Input, PadMeaning};
use crate::display::{Display, LEN};
use crate::entities::{Entity, Spawner, SLOTS};
use crate::hud::Status;
use crate::pickups::{Bonus, Item, RoomSet, ITEM_COUNT};
use crate::printer::{Pending, Printer};
use crate::rng::Rng;
use crate::room::{Marker, RoomObjects, FORCE_FIELDS_LEN, RESTORE_LEN, SPARKLE_TABLE_LEN};
use crate::sound::Work;

verus! {

/// The parts of the program, as a frontend sees them.
#[derive(Clone, Copy, Debug, PartialEq, Eq, Structural)]
pub enum Scene {
    /// The picture the tape showed while it loaded.
    Loading,
    /// The title screen and its menu, and a new game's intro.
    Menu,
    /// A game being played, with the deaths along the way.
    Play,
    /// The end of a game: the scores, entering initials, the high-score table.
    GameOver,
}

/// A teleporter whose booth has been entered: the room it is in and its
/// code.
#[derive(Clone, Copy, Debug)]
pub struct SeenTeleporter {
    pub room: u16,
    pub code: [u8; 5],
}

impl PartialEq for SeenTeleporter {
    fn eq(&self, other: &Self) -> (same: bool) {
        let same = self.room == other.room && self.code[0] == other.code[0] && self.code[1] == other.code[1]
            && self.code[2] == other.code[2] && self.code[3] == other.code[3] && self.code[4] == other.code[4];
        proof {
            if same {
                assert(self.code =~= other.code);
            }
        }
        same
    }
}

impl vstd::std_specs::cmp::PartialEqSpecImpl for SeenTeleporter {
    open spec fn obeys_eq_spec() -> bool {
        true
    }

    open spec fn eq_spec(&self, other: &Self) -> bool {
        self.room == other.room && self.code == other.code
    }
}

impl Eq for SeenTeleporter {}

/// How many switches training mode has.
pub const TRAINING_SWITCHES: usize = 5;

/// Every switch off: the original game.
pub open spec fn all_off() -> Training {
    Training([false, false, false, false, false])
}

/// Training mode's switches, each on or off; all off is the original game.
#[derive(Clone, Copy, Debug)]
pub struct Training(pub [bool; 5]);

impl Default for Training {
    fn default() -> (t: Training)
        ensures
            t == all_off(),
    {
        let t = Training([false; 5]);
        assert(t.0 =~= all_off().0);
        t
    }
}

impl PartialEq for Training {
    fn eq(&self, other: &Self) -> (same: bool) {
        let same = self.0[0] == other.0[0] && self.0[1] == other.0[1] && self.0[2] == other.0[2]
            && self.0[3] == other.0[3] && self.0[4] == other.0[4];
        proof {
            if same {
                assert(self.0 =~= other.0);
            }
        }
        same
    }
}

impl vstd::std_specs::cmp::PartialEqSpecImpl for Training {
    open spec fn obeys_eq_spec() -> bool {
        true
    }

    open spec fn eq_spec(&self, other: &Self) -> bool {
        self.0 == other.0
    }
}

impl Eq for Training {}

impl Training {
    /// Whether switch `i` is on.
    pub open spec fn on(self, i: int) -> bool {
        self.0[i]
    }

    pub open spec fn none_on(self) -> bool {
        forall|i: int| 0 <= i < 5 ==> !#[trigger] self.on(i)
    }

    pub open spec fn any_spec(self) -> bool {
        exists|i: int| 0 <= i < 5 && #[trigger] self.on(i)
    }

    /// Each switch on in `self` or in `other`.
    pub open spec fn union_spec(self, other: Training) -> Training {
        Training([
            self.0[0] || other.0[0],
            self.0[1] || other.0[1],
            self.0[2] || other.0[2],
            self.0[3] || other.0[3],
            self.0[4] || other.0[4],
        ])
    }

    /// Every switch on in `self` is on in `other`.
    pub open spec fn within(self, other: Training) -> bool {
        forall|i: int| 0 <= i < 5 ==> #[trigger] self.on(i) ==> other.on(i)
    }

    /// Whether any switch is on.
    pub fn any(&self) -> (b: bool)
        ensures
            b == self.any_spec(),
    {
        let b = self.0[0] || self.0[1] || self.0[2] || self.0[3] || self.0[4];
        proof {
            if b {
                if self.0[0] {
                    assert(self.on(0));
                } else if self.0[1] {
                    assert(self.on(1));
                } else if self.0[2] {
                    assert(self.on(2));
                } else if self.0[3] {
                    assert(self.on(3));
                } else {
                    assert(self.on(4));
                }
            }
        }
        b
    }

    /// The switches on in either.
    pub fn union(self, other: Training) -> (u: Training)
        ensures
            u == self.union_spec(other),
            forall|i: int| 0 <= i < 5 ==> #[trigger] u.on(i) == (self.on(i) || other.on(i)),
    {
        Training([
            self.0[0] || other.0[0],
            self.0[1] || other.0[1],
            self.0[2] || other.0[2],
            self.0[3] || other.0[3],
            self.0[4] || other.0[4],
        ])
    }
}


/// Where the original program keeps its state.
pub const ROOM: usize = 0xD2C8;
pub const RNG: usize = 0xDAC0;
pub const RNG_COUNTDOWNS: usize = 0xDB19;
pub const COLOUR: usize = 0xEA63;
pub const ROOM_COLOURS: usize = 0xA7F8;
pub const RESTORE_PTR: usize = 0xEA60;
pub const RESTORE_LIST: usize = 0x5B20;
pub const TELEPORTERS: usize = 0x95F0;
pub const SCORE: usize = 0xD413;
pub const SCORE_PENDING: usize = 0xD419;
pub const LIVES: usize = 0xD2CC;
pub const BARS: usize = 0xD2CD;
pub const INVENTORY: usize = 0xD2D2;
/// Six 32-byte entity slots; slot 0 is BLOB.
pub const ENTITIES: usize = 0xDD18;
pub const ENEMY_CACHE: usize = 0x959C;
pub const SPAWN_TIMER: usize = 0x9C40;
pub const SPAWN_LAST_ROOM: usize = 0x9C41;
pub const SPAWN_COUNT: usize = 0x9C43;
pub const SPAWN_ROOM_BEFORE: usize = 0x9C44;
pub const SPAWN_COUNT_BEFORE: usize = 0x9C46;
/// Enemy roll state, kept inside the spawner's code.
pub const SPAWN_SEED: usize = 0x9DB9;
pub const SPAWN_MASKS: usize = 0x9DBA;
pub const SPAWN_PARAMS: usize = 0x9DBE;
pub const SPAWN_TRIES: usize = 0x9F04;
pub const PLATFORMS: usize = 0xDBBB;
pub const PLATFORMS_LEN: usize = 0x31;
pub const PLATFORM_CURSOR: usize = 0xDBBA;
/// Collision scratch: flags, last attribute address.
pub const COLLISION: usize = 0xD3BE;
/// Sound effect state for the frame tick (two channels).
pub const SOUND: usize = 0xA41B;
/// Enemy update loop counters (inside its code).
pub const ENEMY_CURSOR: usize = 0xA019;
/// Footstep sound number (inside BLOB's code).
pub const FOOTSTEP: usize = 0xC6FF;
pub const CORE_SLOTS: usize = 0xD2DE;
pub const CORES_LEFT: usize = 0xD2E7;
pub const VAR_D2BF: usize = 0xD2BF;
pub const VAR_D2E9: usize = 0xD2E9;
/// The control method the menu last selected (1 Kempston … 5 own keys).
pub const CONTROL_METHOD: usize = 0x5E58;
/// Player-defined keys (5 key names), then the pause key.
pub const UDK: usize = 0x5E6B;
pub const UDK_PAUSE: usize = 0x5E70;
/// Death kind and the ink the panel flashes with (inside the death code).
pub const DEATH_KIND: usize = 0xC4A9;
pub const DEATH_INK: usize = 0xC3A2;
/// Screen text ink and flash phase.
pub const SCREEN_INK: usize = 0xD589;
pub const FLASH_PHASE: usize = 0xD59F;
/// Code check: col, row, length, then (graphic, attribute) × 3.
pub const CODE_POS: usize = 0xD5F4;
pub const OFFERS: usize = 0xCCEA;
pub const TYPED_CODE: usize = 0xD031;
/// End of game: rooms-visited score, the score as digits, the high scores.
pub const ADVENTURE: usize = 0x654A;
pub const SCORE_DIGITS: usize = 0x67EA;
pub const HIGH_SCORES: usize = 0x64FA;
/// ROM frame counter (system variable FRAMES).
pub const FRAMES: usize = 0x5C78;
pub const ENTRY_REASON: usize = 0xD2C4;
pub const SAVED_STATE: usize = 0xD2C5;
pub const SAVED_POSITION: usize = 0xD2DC;
pub const CORES: usize = 0xD2E8;
pub const ITEMS: usize = 0x94E8;
pub const BONUS_ROOMS: usize = 0xA350;
pub const UNVISITED_ROOMS: usize = 0xA390;
pub const SEED: usize = 0xD2C6;
pub const BONUS: usize = 0xD2C0;
pub const PICKUPS_IN_ROOM: usize = 0xD2BE;
/// Kept inside the code of the pickup routine.
pub const LAST_SPAWN_INDEX: usize = 0xAA9F;
/// ROM print state (system variables).
pub const S_POSN: usize = 0x5C88;
pub const ATTR_T: usize = 0x5C8F;
pub const MASK_T: usize = 0x5C90;
pub const P_FLAG: usize = 0x5C91;

/// Room objects (the block cleared on room entry starts at `0x9600`).
pub const TELEPORT_POS: usize = 0x9602;
pub const TELEPORT_ENTRY: usize = 0x9605;
pub const TYPE8_COUNT: usize = 0x9620;
pub const TYPE8: usize = 0x9621;
pub const TYPE7_COUNT: usize = 0x9634;
pub const TYPE7: usize = 0x9635;
pub const SPARKLE_CURSOR: usize = 0x9664;
pub const SPARKLES: usize = 0x9666;
pub const SPAWN_POINT_COUNT: usize = 0x96CA;
pub const SPAWN_POINTS: usize = 0x96CB;
pub const MARKERS_END: usize = 0x96FA;
pub const MARKERS: usize = 0x96FC;
pub const KIND12: usize = 0xD2CA;

/// The size of the memory image the state is read from.
pub const MEMORY: usize = 0x10000;

pub struct Game {
    pub assets: Rc<Assets>,
    pub display: Display,
    pub printer: Printer,
    pub rng: Rng,
    /// Attribute used for placeholder tile cells; carries over from
    /// whatever set it last.
    pub colour: u8,
    /// The current room's four colours.
    pub room_colours: [u8; 4],
    /// Bright cells whose colours are re-applied after sprites are drawn:
    /// the list's memory and its end pointer (0 while the panel is drawn).
    pub restore_mem: Vec<u8>,
    pub restore_ptr: u16,
    pub controls: Controls,
    /// Alternates between the two footstep sounds.
    pub footstep_sound: u8,
    pub room: u16,
    pub objects: RoomObjects,
    /// Teleporter table: (room low byte, room high bit in bit 7) per entry.
    pub teleporters: Vec<(u8, u8)>,
    pub status: Status,
    pub entities: [Entity; 6],
    /// Enemies of the room before the last, parked for going back.
    pub enemy_cache: [[u8; 21]; 4],
    pub spawner: Spawner,
    /// BLOB's platforms: raw 4-byte records (col | stage << 5, row, -, timer).
    pub platforms: Vec<u8>,
    /// Platform animated next.
    pub platform_cursor: u8,
    /// 50 Hz frame counter (24 bits, like the original's).
    pub frames: u32,
    /// The last game's rooms-visited score, the score as digits, and the
    /// eight high scores (3 initials, 6 digits, rooms visited).
    pub adventure: u8,
    pub score_digits: [u8; 6],
    pub high_scores: Vec<u8>,
    /// Why the current room was entered.
    pub entry_reason: u8,
    /// Where BLOB entered the current room, and in which state.
    pub saved_position: (u8, u8),
    pub saved_state: u8,
    /// Core pieces delivered.
    pub cores: u8,
    /// Collision scratch (last flags and attribute address).
    pub collision: [u8; 3],
    /// Sound tick state (two effect channels).
    pub sound: [u8; 8],
    /// Enemy update loop counters.
    pub enemy_cursor: [u8; 2],
    /// Blocking sound effects requested since the frontend last looked.
    pub effects: Vec<u8>,
    /// Tone to play for the rest of this frame.
    pub tone: Option<u8>,
    /// The teleporters whose booths have been entered this game, in the
    /// order they were seen. Nothing in the game reads it.
    pub teleporters_seen: Vec<SeenTeleporter>,
    /// Which part of the program is running. Nothing in the game reads it.
    pub scene: Scene,
    /// Whether this frame boundary is the play loop's.
    pub play_work: bool,
    /// Which of up's and down's meanings the frame's gamepad press carries.
    pub pad: PadMeaning,
    /// What the frame's work has done so far.
    pub work: Work,
    /// The work done when the frame's first blocking effect was requested.
    pub work_at_effect: Option<Work>,
    /// Speaker changes of a tune playing over this frame, as (T-states into
    /// the frame, level). Empty unless a tune is playing.
    pub music: Vec<(u32, bool)>,
    /// Input for the current frame (from the host).
    pub input: Input,
    /// The nine core slots: piece graphics, bit 7 set while missing.
    pub core_slots: [u8; 9],
    pub cores_left: u8,
    pub var_d2bf: u8,
    pub var_d2e9: u8,
    pub var_d2ea: u8,
    /// Player-defined keys (key names: left, right, down, up, fire) and the
    /// pause key, which every control method uses.
    pub udk: [u8; 5],
    pub udk_pause: u8,
    /// The control method the menu selected (1 Kempston … 5 own keys).
    pub control_method: u8,
    /// While set, text is printed with the title screen's own UDGs.
    pub title_udg: bool,
    /// Death kind; the core grid's column shares this byte in the original.
    pub death_kind: u8,
    /// Where the 3 x 3 core grid is drawn, as (column, row).
    pub core_grid: (u8, u8),
    pub death_ink: u8,
    /// Ink last chosen for screen texts, and the flashing phase.
    pub screen_ink: u8,
    pub flash_phase: u8,
    /// The current code check: position (col, row), length, and
    /// (graphic, attribute) per code item.
    pub code_pos: (u8, u8),
    pub code_len: u8,
    pub code: [u8; 6],
    /// Pyramid trade: four offers and the item given.
    pub offers: [u8; 5],
    /// Letters typed at a teleporter booth.
    pub typed_code: [u8; 5],
    pub items: Vec<Item>,
    /// Rooms that may still offer a bonus pickup.
    pub bonus_rooms: RoomSet,
    /// Rooms not visited yet (first visit scores).
    pub unvisited_rooms: RoomSet,
    /// Per-game random seed.
    pub seed: u16,
    pub bonus: Bonus,
    pub pickups_in_room: u8,
    /// Spawn point used for the last placed item; the bonus avoids it.
    pub last_spawn_index: u8,
}

/// The little-endian word at `a`.
pub open spec fn word(m: Seq<u8>, a: int) -> int {
    m[a] + m[a + 1] * 256
}

/// The `n` bytes from `a`.
pub open spec fn at(m: Seq<u8>, a: int, n: int) -> Seq<u8> {
    m.subrange(a, a + n)
}

/// The `count` byte pairs from `start`.
pub open spec fn pairs(m: Seq<u8>, start: int, count: int) -> Seq<(u8, u8)> {
    Seq::new(count as nat, |i: int| (m[start + i * 2], m[start + i * 2 + 1]))
}

/// How many 3-byte markers lie between the list's start and its end
/// pointer.
pub open spec fn marker_count(m: Seq<u8>) -> int {
    let end = word(m, MARKERS_END as int);
    if end <= MARKERS {
        0
    } else {
        (end - MARKERS + 2) / 3
    }
}

/// The markers as the memory image holds them.
pub open spec fn markers_read(m: Seq<u8>) -> Seq<Marker> {
    Seq::new(
        marker_count(m) as nat,
        |i: int| Marker { x: m[MARKERS + i * 3], y: m[MARKERS + i * 3 + 1], kind: m[MARKERS + i * 3 + 2] },
    )
}

/// Whether the memory image's room objects can be read: the marker list
/// ends inside the image, and the teleporter entry pointer is unset or
/// points past the start of the teleporter table.
pub open spec fn objects_readable(m: Seq<u8>) -> bool {
    &&& marker_count(m) == 0 || MARKERS + (marker_count(m) - 1) * 3 + 2 < m.len()
    &&& word(m, TELEPORT_ENTRY as int) == 0 || word(m, TELEPORT_ENTRY as int) >= 1 + TELEPORTERS
}

/// Whether `o` holds the room objects of the memory image.
pub open spec fn objects_read(m: Seq<u8>, o: RoomObjects) -> bool {
    let entry = word(m, TELEPORT_ENTRY as int);
    let k12 = word(m, KIND12 as int);
    &&& o.sparkle_table@ == at(m, SPARKLES as int, SPARKLE_TABLE_LEN as int)
    &&& o.sparkle_cursor == word(m, SPARKLE_CURSOR as int)
    &&& o.force_fields@ == at(m, TYPE7 as int, FORCE_FIELDS_LEN as int)
    &&& o.force_field_cursor == m[TYPE7_COUNT as int]
    &&& o.type8@ == pairs(m, TYPE8 as int, m[TYPE8_COUNT as int] as int)
    &&& o.spawn_points@ == pairs(m, SPAWN_POINTS as int, m[SPAWN_POINT_COUNT as int] as int)
    &&& o.markers@ == markers_read(m)
    &&& o.teleport == (if entry == 0 {
        None
    } else {
        Some(((m[TELEPORT_POS as int], m[TELEPORT_POS + 1]), ((entry - 1 - TELEPORTERS) / 2) as usize))
    })
    &&& o.kind12 == (if k12 == 0 { None } else { Some(((k12 % 256) as u8, (k12 / 256) as u8)) })
}

/// Whether `s` holds the panel state of the memory image.
pub open spec fn status_read(m: Seq<u8>, s: Status) -> bool {
    &&& s.score@ == at(m, SCORE as int, 6)
    &&& s.pending@ == at(m, SCORE_PENDING as int, 6)
    &&& s.lives == m[LIVES as int]
    &&& s.bars@ == at(m, BARS as int, 3)
    &&& forall|i: int| 0 <= i < 4 ==> #[trigger] s.inventory[i] == (m[INVENTORY + i * 2], m[INVENTORY + i * 2 + 1])
    &&& s.incoming == (m[INVENTORY - 2], m[INVENTORY - 1])
    &&& s.outgoing == (m[INVENTORY + 8], m[INVENTORY + 9])
}

/// Whether `s` holds the spawner state of the memory image.
pub open spec fn spawner_read(m: Seq<u8>, s: Spawner) -> bool {
    &&& s.timer == m[SPAWN_TIMER as int]
    &&& s.last_room == word(m, SPAWN_LAST_ROOM as int)
    &&& s.count == m[SPAWN_COUNT as int]
    &&& s.room_before == word(m, SPAWN_ROOM_BEFORE as int)
    &&& s.count_before == m[SPAWN_COUNT_BEFORE as int]
    &&& s.masks@ == at(m, SPAWN_MASKS as int, 4)
    &&& s.params@ == at(m, SPAWN_PARAMS as int, 4)
    &&& s.seed == m[SPAWN_SEED as int]
    &&& s.tries == m[SPAWN_TRIES as int]
}

/// Whether the printer stands where the ROM's print position says, with
/// its temporary colours and flags, waiting for nothing.
pub open spec fn printer_read(m: Seq<u8>, p: Printer) -> bool {
    p == Printer {
        row: ((24 + 256 - m[S_POSN + 1]) % 256) as u8,
        col: ((33 + 256 - m[S_POSN as int]) % 256) as u8,
        attr_t: m[ATTR_T as int],
        mask_t: m[MASK_T as int],
        p_flag: m[P_FLAG as int],
        pending: Pending::Idle,
    }
}

/// Whether the generator holds the memory image's state.
pub open spec fn rng_read(m: Seq<u8>, r: Rng) -> bool {
    r == Rng {
        a: word(m, RNG as int) as u16,
        b: word(m, RNG + 2) as u16,
        c: word(m, RNG + 4) as u16,
        b_countdown: m[RNG_COUNTDOWNS as int],
        c_countdown: m[RNG_COUNTDOWNS + 1],
    }
}

/// Whether the game's plain bytes are those of the memory image.
pub open spec fn bytes_read(m: Seq<u8>, g: Game) -> bool {
    &&& g.colour == m[COLOUR as int]
    &&& g.room_colours@ == at(m, ROOM_COLOURS as int, 4)
    &&& g.restore_mem@ == at(m, RESTORE_LIST as int, RESTORE_LEN as int)
    &&& g.restore_ptr == word(m, RESTORE_PTR as int)
    &&& g.footstep_sound == m[FOOTSTEP as int]
    &&& g.room == word(m, ROOM as int)
    &&& g.teleporters@ == pairs(m, TELEPORTERS as int, 8)
    &&& forall|k: int| 0 <= k < SLOTS ==> #[trigger] g.entities[k].0@ == at(m, ENTITIES + k * 32, 32)
    &&& forall|k: int| 0 <= k < 4 ==> #[trigger] g.enemy_cache[k]@ == at(m, ENEMY_CACHE + k * 21, 21)
    &&& g.platforms@ == at(m, PLATFORMS as int, PLATFORMS_LEN as int)
    &&& g.platform_cursor == m[PLATFORM_CURSOR as int]
    &&& g.frames == word(m, FRAMES as int) + m[FRAMES + 2] * 65536
    &&& g.adventure == m[ADVENTURE as int]
    &&& g.score_digits@ == at(m, SCORE_DIGITS as int, 6)
    &&& g.high_scores@ == at(m, HIGH_SCORES as int, 80)
    &&& g.entry_reason == m[ENTRY_REASON as int]
    &&& g.saved_position == (m[SAVED_POSITION as int], m[SAVED_POSITION + 1])
    &&& g.saved_state == m[SAVED_STATE as int]
    &&& g.cores == m[CORES as int]
    &&& g.collision@ == at(m, COLLISION as int, 3)
    &&& g.sound@ == at(m, SOUND as int, 8)
    &&& g.enemy_cursor@ == at(m, ENEMY_CURSOR as int, 2)
    &&& g.core_slots@ == at(m, CORE_SLOTS as int, 9)
    &&& g.cores_left == m[CORES_LEFT as int]
    &&& g.var_d2bf == m[VAR_D2BF as int]
    &&& g.var_d2e9 == m[VAR_D2E9 as int]
    &&& g.var_d2ea == m[VAR_D2E9 + 1]
    &&& g.udk@ == at(m, UDK as int, 5)
    &&& g.udk_pause == m[UDK_PAUSE as int]
    &&& g.control_method == m[CONTROL_METHOD as int]
    &&& g.death_kind == m[DEATH_KIND as int]
    &&& g.core_grid == (m[DEATH_KIND as int], m[DEATH_KIND + 1])
    &&& g.death_ink == m[DEATH_INK as int]
    &&& g.screen_ink == m[SCREEN_INK as int]
    &&& g.flash_phase == m[FLASH_PHASE as int]
    &&& g.code_pos == (m[CODE_POS as int], m[CODE_POS + 1])
    &&& g.code_len == m[CODE_POS + 2]
    &&& g.code@ == at(m, CODE_POS + 3, 6)
    &&& g.offers@ == at(m, OFFERS as int, 5)
    &&& g.typed_code@ == at(m, TYPED_CODE as int, 5)
    &&& g.items@.len() == ITEM_COUNT
    &&& forall|k: int| 0 <= k < ITEM_COUNT ==> #[trigger] g.items@[k].0@ == at(m, ITEMS + k * 4, 4)
    &&& g.bonus_rooms.0@ == at(m, BONUS_ROOMS as int, 64)
    &&& g.unvisited_rooms.0@ == at(m, UNVISITED_ROOMS as int, 64)
    &&& g.seed == word(m, SEED as int)
    &&& g.bonus == (Bonus { col: m[BONUS as int], row: m[BONUS + 1], graphic: m[BONUS + 2], attr: m[BONUS + 3] })
    &&& g.pickups_in_room == m[PICKUPS_IN_ROOM as int]
    &&& g.last_spawn_index == m[LAST_SPAWN_INDEX as int]
}

/// Whether the parts of `g` that are not the original's state are as a
/// frontend first finds them: nothing requested, nothing seen, no input.
pub open spec fn fresh(g: Game) -> bool {
    &&& g.display.border == 0
    &&& g.effects@.len() == 0
    &&& g.tone is None
    &&& g.teleporters_seen@.len() == 0
    &&& g.scene == Scene::Loading
    &&& !g.play_work
    &&& g.pad == PadMeaning::both()
    &&& g.work == (Work { collisions: 0, vertical_collisions: 0, characters: 0, cells: 0, proximity_checks: 0 })
    &&& g.work_at_effect is None
    &&& g.music@.len() == 0
    &&& forall|r: int| 0 <= r < 8 ==> g.input.keys[r] == 0xFF
    &&& g.input.kempston == 0
    &&& g.input.pad == crate::controls::PadInput::rest()
    &&& !g.title_udg
}

/// Whether `g` is the state the memory image `m` holds.
pub open spec fn game_read(assets: Rc<Assets>, m: Seq<u8>, g: Game) -> bool {
    &&& g.assets == assets
    &&& g.display.mem@ == at(m, 0x4000, LEN as int)
    &&& printer_read(m, g.printer)
    &&& rng_read(m, g.rng)
    &&& controls_read(m, g.controls)
    &&& objects_read(m, g.objects)
    &&& status_read(m, g.status)
    &&& spawner_read(m, g.spawner)
    &&& bytes_read(m, g)
    &&& fresh(g)
}

/// The `N` bytes of `mem` from `a`.
pub(crate) fn bytes<const N: usize>(mem: &[u8], a: usize) -> (b: [u8; N])
    requires
        a + N <= mem@.len(),
    ensures
        b@ == mem@.subrange(a as int, a + N),
{
    let mut b: [u8; N] = [0u8; N];
    let len = mem.len();
    let mut i: usize = 0;
    while i < N
        invariant
            len == mem@.len(),
            i <= N,
            a + N <= mem@.len(),
            forall|k: int| 0 <= k < i ==> #[trigger] b[k] == mem@[a + k],
        decreases N - i,
    {
        b[i] = mem[a + i];
        i = i + 1;
    }
    assert(b@ =~= mem@.subrange(a as int, a + N));
    b
}

/// The `n` bytes of `mem` from `a`, as a vector.
fn byte_vec(mem: &[u8], a: usize, n: usize) -> (v: Vec<u8>)
    requires
        a + n <= mem@.len(),
    ensures
        v@ == mem@.subrange(a as int, a + n),
{
    let mut v: Vec<u8> = Vec::new();
    let len = mem.len();
    let mut i: usize = 0;
    while i < n
        invariant
            len == mem@.len(),
            i <= n,
            a + n <= mem@.len(),
            v@ == mem@.subrange(a as int, a + i),
        decreases n - i,
    {
        v.push(mem[a + i]);
        i = i + 1;
        assert(v@ =~= mem@.subrange(a as int, a + i));
    }
    v
}

/// The `count` byte pairs of `mem` from `start`.
fn pairs_of(mem: &[u8], start: usize, count: usize) -> (v: Vec<(u8, u8)>)
    requires
        start + count * 2 <= mem@.len(),
    ensures
        v@ == pairs(mem@, start as int, count as int),
{
    let mut v: Vec<(u8, u8)> = Vec::new();
    let len = mem.len();
    let mut i: usize = 0;
    while i < count
        invariant
            len == mem@.len(),
            i <= count,
            start + count * 2 <= mem@.len(),
            v@ == pairs(mem@, start as int, i as int),
        decreases count - i,
    {
        v.push((mem[start + i * 2], mem[start + i * 2 + 1]));
        i = i + 1;
        assert(v@ =~= pairs(mem@, start as int, i as int));
    }
    v
}

fn word_of(mem: &[u8], a: usize) -> (w: u16)
    requires
        a + 1 < mem@.len(),
    ensures
        w == word(mem@, a as int),
{
    mem[a] as u16 + (mem[a + 1] as u16) * 256
}

fn objects_from_memory(mem: &[u8]) -> (o: RoomObjects)
    requires
        mem@.len() == MEMORY,
        objects_readable(mem@),
    ensures
        objects_read(mem@, o),
{
    let end = word_of(mem, MARKERS_END) as usize;
    let mut markers: Vec<Marker> = Vec::new();
    let mut a: usize = MARKERS;
    let mut i: usize = 0;
    let ghost count = marker_count(mem@);
    while a < end
        invariant
            mem@.len() == MEMORY,
            objects_readable(mem@),
            count == marker_count(mem@),
            end == word(mem@, MARKERS_END as int),
            a == MARKERS + i * 3,
            i <= count,
            markers@.len() == i,
            forall|k: int| 0 <= k < i ==> #[trigger] markers@[k] == markers_read(mem@)[k],
        decreases count - i,
    {
        assert(i < count);
        markers.push(Marker { x: mem[a], y: mem[a + 1], kind: mem[a + 2] });
        a = a + 3;
        i = i + 1;
    }
    assert(i == count);
    assert(markers@ =~= markers_read(mem@));
    let entry = word_of(mem, TELEPORT_ENTRY) as usize;
    let k12 = word_of(mem, KIND12);
    let teleport = if entry != 0 {
        Some(((mem[TELEPORT_POS], mem[TELEPORT_POS + 1]), (entry - 1 - TELEPORTERS) / 2))
    } else {
        None
    };
    let kind12 = if k12 != 0 {
        Some(((k12 % 256) as u8, (k12 / 256) as u8))
    } else {
        None
    };
    RoomObjects {
        sparkle_table: byte_vec(mem, SPARKLES, SPARKLE_TABLE_LEN),
        sparkle_cursor: word_of(mem, SPARKLE_CURSOR),
        force_fields: byte_vec(mem, TYPE7, FORCE_FIELDS_LEN),
        force_field_cursor: mem[TYPE7_COUNT],
        type8: pairs_of(mem, TYPE8, mem[TYPE8_COUNT] as usize),
        spawn_points: pairs_of(mem, SPAWN_POINTS, mem[SPAWN_POINT_COUNT] as usize),
        markers,
        teleport,
        kind12,
    }
}

impl Game {
    /// Builds the game's state from the memory the original starts with:
    /// the player's snapshot at startup, or the reference machine when
    /// verifying.
    pub fn from_memory(assets: Rc<Assets>, mem: &[u8]) -> (g: Game)
        requires
            mem@.len() == MEMORY,
            objects_readable(mem@),
        ensures
            game_read(assets, mem@, g),
    {
        let mut entities: [Entity; 6] = [Entity([0u8; 32]); 6];
        let mut k: usize = 0;
        while k < SLOTS
            invariant
                k <= SLOTS,
                mem@.len() == MEMORY,
                forall|j: int| 0 <= j < k ==> #[trigger] entities[j].0@ == at(mem@, ENTITIES + j * 32, 32),
            decreases SLOTS - k,
        {
            entities[k] = Entity(bytes::<32>(mem, ENTITIES + k * 32));
            k = k + 1;
        }
        let mut enemy_cache: [[u8; 21]; 4] = [[0u8; 21]; 4];
        let mut k: usize = 0;
        while k < 4
            invariant
                k <= 4,
                mem@.len() == MEMORY,
                forall|j: int| 0 <= j < k ==> #[trigger] enemy_cache[j]@ == at(mem@, ENEMY_CACHE + j * 21, 21),
            decreases 4 - k,
        {
            enemy_cache[k] = bytes::<21>(mem, ENEMY_CACHE + k * 21);
            k = k + 1;
        }
        let mut items: Vec<Item> = Vec::new();
        let mut k: usize = 0;
        while k < ITEM_COUNT
            invariant
                k <= ITEM_COUNT,
                mem@.len() == MEMORY,
                items@.len() == k,
                forall|j: int| 0 <= j < k ==> #[trigger] items@[j].0@ == at(mem@, ITEMS + j * 4, 4),
            decreases ITEM_COUNT - k,
        {
            items.push(Item(bytes::<4>(mem, ITEMS + k * 4)));
            k = k + 1;
        }
        let mut inventory: [(u8, u8); 4] = [(0u8, 0u8); 4];
        let mut k: usize = 0;
        while k < 4
            invariant
                k <= 4,
                mem@.len() == MEMORY,
                forall|j: int| 0 <= j < k ==> #[trigger] inventory[j] == (mem@[INVENTORY + j * 2], mem@[INVENTORY + j * 2 + 1]),
            decreases 4 - k,
        {
            inventory[k] = (mem[INVENTORY + k * 2], mem[INVENTORY + k * 2 + 1]);
            k = k + 1;
        }
        let status = Status {
            score: bytes::<6>(mem, SCORE),
            pending: bytes::<6>(mem, SCORE_PENDING),
            lives: mem[LIVES],
            bars: bytes::<3>(mem, BARS),
            inventory,
            incoming: (mem[INVENTORY - 2], mem[INVENTORY - 1]),
            outgoing: (mem[INVENTORY + 8], mem[INVENTORY + 9]),
        };
        let spawner = Spawner {
            timer: mem[SPAWN_TIMER],
            last_room: word_of(mem, SPAWN_LAST_ROOM),
            count: mem[SPAWN_COUNT],
            room_before: word_of(mem, SPAWN_ROOM_BEFORE),
            count_before: mem[SPAWN_COUNT_BEFORE],
            masks: bytes::<4>(mem, SPAWN_MASKS),
            params: bytes::<4>(mem, SPAWN_PARAMS),
            seed: mem[SPAWN_SEED],
            tries: mem[SPAWN_TRIES],
        };
        let printer = Printer::at(
            ((24 + 256 - mem[S_POSN + 1] as u16) % 256) as u8,
            ((33 + 256 - mem[S_POSN] as u16) % 256) as u8,
            mem[ATTR_T],
            mem[MASK_T],
            mem[P_FLAG],
        );
        let rng = Rng {
            a: word_of(mem, RNG),
            b: word_of(mem, RNG + 2),
            c: word_of(mem, RNG + 4),
            b_countdown: mem[RNG_COUNTDOWNS],
            c_countdown: mem[RNG_COUNTDOWNS + 1],
        };
        let frames: u32 = word_of(mem, FRAMES) as u32 + mem[FRAMES + 2] as u32 * 65536;
        let g = Game {
            display: Display { mem: bytes::<6944>(mem, 0x4000), border: 0 },
            printer,
            rng,
            colour: mem[COLOUR],
            room_colours: bytes::<4>(mem, ROOM_COLOURS),
            restore_mem: byte_vec(mem, RESTORE_LIST, RESTORE_LEN),
            restore_ptr: word_of(mem, RESTORE_PTR),
            controls: Controls::from_memory(mem),
            footstep_sound: mem[FOOTSTEP],
            room: word_of(mem, ROOM),
            objects: objects_from_memory(mem),
            teleporters: pairs_of(mem, TELEPORTERS, 8),
            status,
            entities,
            enemy_cache,
            spawner,
            platforms: byte_vec(mem, PLATFORMS, PLATFORMS_LEN),
            platform_cursor: mem[PLATFORM_CURSOR],
            frames,
            adventure: mem[ADVENTURE],
            score_digits: bytes::<6>(mem, SCORE_DIGITS),
            high_scores: byte_vec(mem, HIGH_SCORES, 80),
            entry_reason: mem[ENTRY_REASON],
            saved_position: (mem[SAVED_POSITION], mem[SAVED_POSITION + 1]),
            saved_state: mem[SAVED_STATE],
            cores: mem[CORES],
            collision: bytes::<3>(mem, COLLISION),
            sound: bytes::<8>(mem, SOUND),
            enemy_cursor: bytes::<2>(mem, ENEMY_CURSOR),
            effects: Vec::new(),
            tone: None,
            scene: Scene::Loading,
            teleporters_seen: Vec::new(),
            play_work: false,
            pad: PadMeaning::default(),
            work: Work { collisions: 0, vertical_collisions: 0, characters: 0, cells: 0, proximity_checks: 0 },
            work_at_effect: None,
            music: Vec::new(),
            input: Input::default(),
            core_slots: bytes::<9>(mem, CORE_SLOTS),
            cores_left: mem[CORES_LEFT],
            var_d2bf: mem[VAR_D2BF],
            var_d2e9: mem[VAR_D2E9],
            var_d2ea: mem[VAR_D2E9 + 1],
            udk: bytes::<5>(mem, UDK),
            udk_pause: mem[UDK_PAUSE],
            control_method: mem[CONTROL_METHOD],
            title_udg: false,
            death_kind: mem[DEATH_KIND],
            core_grid: (mem[DEATH_KIND], mem[DEATH_KIND + 1]),
            death_ink: mem[DEATH_INK],
            screen_ink: mem[SCREEN_INK],
            flash_phase: mem[FLASH_PHASE],
            code_pos: (mem[CODE_POS], mem[CODE_POS + 1]),
            code_len: mem[CODE_POS + 2],
            code: bytes::<6>(mem, CODE_POS + 3),
            offers: bytes::<5>(mem, OFFERS),
            typed_code: bytes::<5>(mem, TYPED_CODE),
            items,
            bonus_rooms: RoomSet(bytes::<64>(mem, BONUS_ROOMS)),
            unvisited_rooms: RoomSet(bytes::<64>(mem, UNVISITED_ROOMS)),
            seed: word_of(mem, SEED),
            bonus: Bonus { col: mem[BONUS], row: mem[BONUS + 1], graphic: mem[BONUS + 2], attr: mem[BONUS + 3] },
            pickups_in_room: mem[PICKUPS_IN_ROOM],
            last_spawn_index: mem[LAST_SPAWN_INDEX],
            assets,
        };
        assert(printer_read(mem@, g.printer));
        assert(rng_read(mem@, g.rng));
        assert(status_read(mem@, g.status));
        assert(spawner_read(mem@, g.spawner));
        assert(bytes_read(mem@, g));
        assert(fresh(g));
        g
    }
}

} // verus!
