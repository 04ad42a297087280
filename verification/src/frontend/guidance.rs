//! How much help the player has asked for: the guidance level, training
//! mode, and the record of both for the game in progress.
//!
//! Nothing here reaches the game. The window and the game thread share it:
//! the window changes it from the keyboard and draws it, and the game thread
//! changes it from a gamepad and holds the game while the picker is open.

use vstd::prelude::*;
use crate::equal::{same_bytes, same_items};
use crate::frontend::gamepad::Layout;
use crate::game::{all_off, SeenTeleporter, Training, TRAINING_SWITCHES};
use crate::map::{Openings, Step};
use crate::pickups::{no_rooms, RoomSet, ROOM_COUNT};

verus! {

/// The number of rooms on the planet.
pub const ROOMS: usize = 512;

/// The levels, each including the ones before it. Levels 0 to 3 show only
/// what you could have written down yourself; 4 and up tell you what you
/// could not have known.
pub const LEVELS: [&'static str; 7] = [
    "Off",
    "Codes and the core",
    "The map you have walked",
    "What you have seen",
    "What you have not",
    "Routes",
    "Everything",
];

/// The highest level.
pub const TOP_LEVEL: u8 = 6;

/// The CORE OF HEROES table as the panel lists it beside the game's own
/// screen: each entry's initials, the guidance level its game had (`None`
/// for the tape's own entries), and which entry the last game put in.
#[derive(Clone, Copy, Debug)]
pub struct Heroes {
    pub names: [[u8; 3]; 8],
    pub levels: [Option<u8>; 8],
    pub this_game: Option<usize>,
}

impl PartialEq for Heroes {
    fn eq(&self, other: &Self) -> (same: bool) {
        let mut i: usize = 0;
        while i < 8
            invariant
                i <= 8,
                forall|k: int| 0 <= k < i ==> self.names[k] == other.names[k] && self.levels[k] == other.levels[k],
            decreases 8 - i,
        {
            if !same_bytes(&self.names[i], &other.names[i]) || self.levels[i] != other.levels[i] {
                return false;
            }
            i = i + 1;
        }
        assert(self.names =~= other.names);
        assert(self.levels =~= other.levels);
        self.this_game == other.this_game
    }
}

impl vstd::std_specs::cmp::PartialEqSpecImpl for Heroes {
    open spec fn obeys_eq_spec() -> bool {
        true
    }

    open spec fn eq_spec(&self, other: &Self) -> bool {
        self.names == other.names && self.levels == other.levels && self.this_game == other.this_game
    }
}

impl Eq for Heroes {}

/// An item lying out on the planet: the room, what it does (the game's own
/// number for it), whether the core wants it, its graphic from the game,
/// and whether it has been seen lying in a room walked through, which is
/// level 3's half of the map's items; the rest are level 4's.
#[derive(Clone, Copy, Debug)]
pub struct Found {
    pub room: u16,
    pub kind: u8,
    pub piece: bool,
    pub graphic: [u8; 32],
    pub seen: bool,
}

impl PartialEq for Found {
    fn eq(&self, other: &Self) -> (same: bool) {
        self.room == other.room && self.kind == other.kind && self.piece == other.piece && self.seen == other.seen
            && same_bytes(&self.graphic, &other.graphic)
    }
}

impl vstd::std_specs::cmp::PartialEqSpecImpl for Found {
    open spec fn obeys_eq_spec() -> bool {
        true
    }

    open spec fn eq_spec(&self, other: &Self) -> bool {
        self.room == other.room && self.kind == other.kind && self.piece == other.piece && self.seen == other.seen
            && self.graphic == other.graphic
    }
}

impl Eq for Found {}

/// A security door whose code is shown: its room, the three key code cards
/// it asks for in the game's own graphics, and which of them what is
/// carried answers.
#[derive(Clone, Copy, Debug)]
pub struct DoorCode {
    pub room: u16,
    /// The cards by graphic number, and their pictures.
    pub cards: [u8; 3],
    pub graphics: [[u8; 32]; 3],
    pub answered: [bool; 3],
}

impl PartialEq for DoorCode {
    fn eq(&self, other: &Self) -> (same: bool) {
        if self.room != other.room || !same_bytes(&self.cards, &other.cards) {
            return false;
        }
        let mut i: usize = 0;
        while i < 3
            invariant
                i <= 3,
                forall|k: int| 0 <= k < i ==> self.graphics[k] == other.graphics[k] && self.answered[k] == other.answered[k],
            decreases 3 - i,
        {
            if !same_bytes(&self.graphics[i], &other.graphics[i]) || self.answered[i] != other.answered[i] {
                return false;
            }
            i = i + 1;
        }
        assert(self.graphics =~= other.graphics);
        assert(self.answered =~= other.answered);
        true
    }
}

impl vstd::std_specs::cmp::PartialEqSpecImpl for DoorCode {
    open spec fn obeys_eq_spec() -> bool {
        true
    }

    open spec fn eq_spec(&self, other: &Self) -> bool {
        self.room == other.room && self.cards == other.cards && self.graphics == other.graphics && self.answered
            == other.answered
    }
}

impl Eq for DoorCode {}

/// One of the core's nine slots, for the square at the panel's top left:
/// the piece it takes, in the game's own graphic, whether it is still
/// wanted, and whether that piece is being carried.
#[derive(Clone, Copy, Debug)]
pub struct Hole {
    pub graphic: [u8; 32],
    pub open: bool,
    pub carried: bool,
}

impl PartialEq for Hole {
    fn eq(&self, other: &Self) -> (same: bool) {
        self.open == other.open && self.carried == other.carried && same_bytes(&self.graphic, &other.graphic)
    }
}

impl vstd::std_specs::cmp::PartialEqSpecImpl for Hole {
    open spec fn obeys_eq_spec() -> bool {
        true
    }

    open spec fn eq_spec(&self, other: &Self) -> bool {
        self.open == other.open && self.carried == other.carried && self.graphic == other.graphic
    }
}

impl Eq for Hole {}

/// How much help one game has had: the highest level in use at any point,
/// whether training mode was ever on, and which of its switches. It only
/// ever rises within a game.
#[derive(Clone, Copy, Debug, Default, PartialEq, Eq)]
pub struct Record {
    pub highest: u8,
    pub training: bool,
    pub switches: Training,
}

/// The rows of the picker, top to bottom: the guidance level, training
/// mode's five switches, then two actions.
#[derive(Clone, Copy, Debug, Default, PartialEq, Eq, Structural)]
pub enum Setting {
    #[default]
    Level,
    Switch(u8),
    EndGame,
    Exit,
}

/// Where "This will show on your score" stands: asked, or pressed once and
/// waiting for the second press that keeps the change, as the picker's
/// actions wait.
#[derive(Clone, Copy, Debug, PartialEq, Eq, Structural)]
pub enum Choice {
    Asked,
    Armed,
}

/// What the picker was asked to do, once confirmed.
#[derive(Clone, Copy, Debug, PartialEq, Eq, Structural)]
pub enum Action {
    /// Abandon the game in progress, as A S D F G does.
    EndGame,
    /// Close the program.
    Exit,
}

/// Everything [`Guidance`] holds, as values.
pub struct GuidanceView {
    pub level: u8,
    pub training: Training,
    pub record: Record,
    pub picker: bool,
    pub opened: (u8, Training),
    pub asking: Option<Choice>,
    pub focus: Setting,
    pub armed: Option<Setting>,
    pub playing: bool,
    pub requested: Option<Action>,
    pub teleporters: Seq<SeenTeleporter>,
    pub openings: Seq<Openings>,
    pub visited: Seq<bool>,
    pub room: Option<u16>,
    pub pieces: RoomSet,
    pub pad: Layout,
    pub paused: bool,
    pub heroes: Option<Heroes>,
    pub holes: Seq<Hole>,
    pub items: Seq<Found>,
    pub doors: Seq<DoorCode>,
    pub route: Option<Seq<Step>>,
    pub core_route: Option<Seq<Step>>,
    pub route_doors: [Option<u16>; 2],
    pub chosen_piece: Option<u16>,
    pub piece_choice: (u8, u8),
    pub switch: bool,
    pub every_teleporter: Seq<SeenTeleporter>,
    pub every_door: Seq<DoorCode>,
    pub version: u64,
}

/// A setting the picker can have highlighted: a switch training mode has.
pub open spec fn setting_ok(s: Setting) -> bool {
    match s {
        Setting::Switch(i) => i < TRAINING_SWITCHES,
        _ => true,
    }
}

/// The rows the picker shows: ending a game only while one is played.
pub open spec fn rows_spec(playing: bool) -> Seq<Setting> {
    let switches = seq![Setting::Switch(0), Setting::Switch(1), Setting::Switch(2), Setting::Switch(3), Setting::Switch(4)];
    let actions = if playing { seq![Setting::EndGame, Setting::Exit] } else { seq![Setting::Exit] };
    seq![Setting::Level] + switches + actions
}

/// The first row holding `s`, or 0.
pub open spec fn row_of(rows: Seq<Setting>, s: Setting) -> int {
    if exists|i: int| 0 <= i < rows.len() && rows[i] == s {
        choose|i: int| 0 <= i < rows.len() && rows[i] == s && forall|j: int| 0 <= j < i ==> rows[j] != s
    } else {
        0
    }
}

/// The picker has seven rows, or eight while a game is played, each one a
/// setting it can highlight.
pub proof fn rows_are_settings(playing: bool)
    ensures
        rows_spec(playing).len() == if playing { 8int } else { 7int },
        forall|i: int| 0 <= i < rows_spec(playing).len() ==> setting_ok(#[trigger] rows_spec(playing)[i]),
{
    let rows = rows_spec(playing);
    assert forall|i: int| 0 <= i < rows.len() implies setting_ok(#[trigger] rows[i]) by {
        if 1 <= i <= 5 {
            assert(rows[i] == Setting::Switch((i - 1) as u8));
        }
    }
}

/// The row found for a setting is one of the rows.
pub proof fn row_of_is_a_row(rows: Seq<Setting>, s: Setting)
    requires
        rows.len() > 0,
    ensures
        0 <= row_of(rows, s) < rows.len(),
{
    if exists|i: int| 0 <= i < rows.len() && rows[i] == s {
        let w = choose|i: int| 0 <= i < rows.len() && rows[i] == s;
        assert(exists|i: int| 0 <= i < rows.len() && rows[i] == s && forall|j: int| 0 <= j < i ==> rows[j] != s) by {
            first_of(rows, s, w);
        }
    }
}

/// Among the places `s` stands, there is a first.
proof fn first_of(rows: Seq<Setting>, s: Setting, w: int)
    requires
        0 <= w < rows.len(),
        rows[w] == s,
    ensures
        exists|i: int| 0 <= i < rows.len() && rows[i] == s && forall|j: int| 0 <= j < i ==> rows[j] != s,
    decreases w,
{
    if exists|j: int| 0 <= j < w && rows[j] == s {
        let j = choose|j: int| 0 <= j < w && rows[j] == s;
        first_of(rows, s, j);
    } else {
        assert(forall|j: int| 0 <= j < w ==> rows[j] != s);
    }
}

/// Whether the room set and the visited list agree on every room.
pub open spec fn unvisited_matches(visited: Seq<bool>, unvisited: RoomSet) -> bool {
    visited.len() == ROOMS && forall|r: int| 0 <= r < ROOMS ==> visited[r] != #[trigger] unvisited.has(r as u16)
}

/// How many of the values are true.
pub open spec fn count_true(s: Seq<bool>) -> nat
    decreases s.len(),
{
    if s.len() == 0 {
        0
    } else {
        count_true(s.drop_last()) + if s.last() { 1nat } else { 0 }
    }
}

/// The route in a list of steps, as values.
pub open spec fn route_view(r: Option<Vec<Step>>) -> Option<Seq<Step>> {
    match r {
        Some(v) => Some(v@),
        None => None,
    }
}

impl GuidanceView {
    /// The state a program starts in: no help, nothing known.
    pub open spec fn initial() -> GuidanceView {
        GuidanceView {
            level: 0,
            training: all_off(),
            record: Record { highest: 0, training: false, switches: all_off() },
            picker: false,
            opened: (0, all_off()),
            asking: None,
            focus: Setting::Level,
            armed: None,
            playing: false,
            requested: None,
            teleporters: Seq::empty(),
            openings: Seq::empty(),
            visited: Seq::empty(),
            room: None,
            pieces: no_rooms(),
            pad: Layout::Xbox,
            paused: false,
            heroes: None,
            holes: Seq::empty(),
            items: Seq::empty(),
            doors: Seq::empty(),
            route: None,
            core_route: None,
            route_doors: [None, None],
            chosen_piece: None,
            piece_choice: (0, 0),
            switch: false,
            every_teleporter: Seq::empty(),
            every_door: Seq::empty(),
            version: 0,
        }
    }

    /// The same, one change later.
    pub open spec fn bumped(self) -> GuidanceView {
        GuidanceView { version: (self.version + 1) as u64, ..self }
    }

    /// Keeping the settings as they are would add to this game's record: a
    /// level above the highest used, or a training switch not used yet.
    pub open spec fn raises(self) -> bool {
        self.level > self.record.highest || !self.training.within(self.record.switches)
    }

    /// The record once the settings in effect are taken into it.
    pub open spec fn recorded(self) -> Record {
        let switches = self.record.switches.union_spec(self.training);
        Record {
            highest: if self.level > self.record.highest { self.level } else { self.record.highest },
            training: switches.any_spec(),
            switches,
        }
    }

    /// Closing the picker: the settings kept and taken into the record.
    pub open spec fn closed(self) -> GuidanceView {
        GuidanceView { picker: false, asking: None, armed: None, record: self.recorded(), ..self }.bumped()
    }

    /// Leaving the picker: asked first when that would add to the record.
    pub open spec fn left(self) -> GuidanceView {
        if self.raises() {
            GuidanceView { asking: Some(Choice::Asked), armed: None, ..self }.bumped()
        } else {
            self.closed()
        }
    }

    /// With the question pressed once, back to asking.
    pub open spec fn disarmed(self) -> GuidanceView {
        if self.asking == Some(Choice::Armed) {
            GuidanceView { asking: Some(Choice::Asked), ..self }.bumped()
        } else {
            self
        }
    }

    /// The settings back to how they were when the picker opened.
    pub open spec fn undone(self) -> GuidanceView {
        GuidanceView { level: self.opened.0, training: self.opened.1, ..self }
    }

    /// The picker's highlight moved `by` rows, stopping at the ends.
    pub open spec fn moved(self, by: int) -> GuidanceView {
        if self.asking is Some {
            self.disarmed()
        } else {
            let rows = rows_spec(self.playing);
            let at = row_of(rows, self.focus);
            let to = if at + by < 0 { 0 } else if at + by > rows.len() - 1 { rows.len() - 1 } else { at + by };
            GuidanceView { focus: rows[to], armed: None, ..self }.bumped()
        }
    }

    /// The highlighted setting a step down or up.
    pub open spec fn changed(self, up: bool) -> GuidanceView {
        if self.asking is Some {
            self.disarmed()
        } else {
            match self.focus {
                Setting::Level => {
                    let level = if up {
                        if self.level + 1 > TOP_LEVEL { TOP_LEVEL } else { (self.level + 1) as u8 }
                    } else {
                        if self.level == 0 { 0u8 } else { (self.level - 1) as u8 }
                    };
                    GuidanceView { level, ..self }.bumped()
                },
                Setting::Switch(i) => GuidanceView {
                    training: Training(vstd::array::spec_array_update(self.training.0, i as int, up)),
                    ..self
                }.bumped(),
                _ => self,
            }
        }
    }

    /// Enter or A in the picker.
    pub open spec fn entered(self) -> GuidanceView {
        match self.asking {
            Some(Choice::Asked) => GuidanceView { asking: Some(Choice::Armed), ..self }.bumped(),
            Some(Choice::Armed) => self.closed(),
            None => match self.focus {
                Setting::Level | Setting::Switch(_) => self.left(),
                _ => {
                    let action = if self.focus == Setting::EndGame { Action::EndGame } else { Action::Exit };
                    if self.armed == Some(self.focus) {
                        let asked = GuidanceView { requested: Some(action), ..self };
                        (if asked.raises() { asked.undone() } else { asked }).closed()
                    } else {
                        GuidanceView { armed: Some(self.focus), ..self }.bumped()
                    }
                },
            },
        }
    }

    /// Whether anything of the game is still held.
    pub open spec fn holds_game(self) -> bool {
        self.teleporters.len() != 0 || self.visited.len() != 0 || self.room is Some || self.pieces != no_rooms() || self.holes.len() != 0 || self.items.len() != 0 || self.doors.len() != 0 || self.every_door.len() != 0
            || self.route is Some || self.core_route is Some
    }

    /// Everything of the game forgotten.
    pub open spec fn forgotten(self) -> GuidanceView {
        GuidanceView {
            teleporters: Seq::empty(),
            visited: Seq::empty(),
            room: None,
            pieces: no_rooms(),
            holes: Seq::empty(),
            items: Seq::empty(),
            doors: Seq::empty(),
            every_teleporter: Seq::empty(),
            every_door: Seq::empty(),
            route: None,
            core_route: None,
            route_doors: [None, None],
            chosen_piece: None,
            piece_choice: (0, 0),
            ..self
        }.bumped()
    }
}

#[derive(Debug)]
pub struct Guidance {
    level: u8,
    training: Training,
    record: Record,
    picker: bool,
    /// The level and training mode when the picker opened, which Undo goes
    /// back to.
    opened: (u8, Training),
    /// "Noted with your score", asked when leaving the picker would add to
    /// the record, and which answer is highlighted.
    asking: Option<Choice>,
    /// The row the picker has highlighted.
    focus: Setting,
    /// An action pressed once, waiting for the second press.
    armed: Option<Setting>,
    /// Whether a game is being played, which is when it can be ended.
    playing: bool,
    /// An action confirmed and not yet carried out.
    requested: Option<Action>,
    /// The teleporters seen this game: their codes for level 1, and their
    /// rooms for the map.
    teleporters: Vec<SeenTeleporter>,
    /// Every room's openings, for the map. Empty until they are found.
    openings: Vec<Openings>,
    /// The rooms visited in the game being played, or just ended; empty on
    /// the title screen.
    visited: Vec<bool>,
    /// The room BLOB is in, while a game is being played.
    room: Option<u16>,
    /// The rooms holding a core piece still needed, for level 3, in the game
    /// being played or just ended.
    pieces: RoomSet,
    /// The letters the connected pad carries, for the legends.
    pad: Layout,
    /// Whether the game is held by its pause key, for the notice.
    paused: bool,
    /// The high-score table, while the CORE OF HEROES screen shows it.
    heroes: Option<Heroes>,
    /// The core's nine slots in the game being played or just ended; empty
    /// on the title screen.
    holes: Vec<Hole>,
    /// The items lying out on the planet, in the game being played.
    items: Vec<Found>,
    /// The security doors whose codes have been shown, in the order seen.
    doors: Vec<DoorCode>,
    /// Level 5's routes: to the chosen of the nearest missing pieces, and to
    /// the core while a piece it needs is carried; the first door each has
    /// to pass; the piece chosen with Tab, and which of how many the route
    /// leads to; and a Tab pressed and not yet taken.
    route: Option<Vec<Step>>,
    core_route: Option<Vec<Step>>,
    route_doors: [Option<u16>; 2],
    chosen_piece: Option<u16>,
    piece_choice: (u8, u8),
    switch: bool,
    /// Every teleporter and every door on the planet, the seen ones first,
    /// for level 6.
    every_teleporter: Vec<SeenTeleporter>,
    every_door: Vec<DoorCode>,
    /// Bumped on every change, so a watcher can tell something changed.
    version: u64,
}

impl View for Guidance {
    type V = GuidanceView;

    closed spec fn view(&self) -> GuidanceView {
        GuidanceView {
            level: self.level,
            training: self.training,
            record: self.record,
            picker: self.picker,
            opened: self.opened,
            asking: self.asking,
            focus: self.focus,
            armed: self.armed,
            playing: self.playing,
            requested: self.requested,
            teleporters: self.teleporters@,
            openings: self.openings@,
            visited: self.visited@,
            room: self.room,
            pieces: self.pieces,
            pad: self.pad,
            paused: self.paused,
            heroes: self.heroes,
            holes: self.holes@,
            items: self.items@,
            doors: self.doors@,
            route: route_view(self.route),
            core_route: route_view(self.core_route),
            route_doors: self.route_doors,
            chosen_piece: self.chosen_piece,
            piece_choice: self.piece_choice,
            switch: self.switch,
            every_teleporter: self.every_teleporter@,
            every_door: self.every_door@,
            version: self.version,
        }
    }
}

impl Default for Guidance {
    fn default() -> (g: Guidance)
        ensures
            g@ == GuidanceView::initial(),
    {
        let off = Training::default();
        let g = Guidance {
            level: 0,
            training: off,
            record: Record { highest: 0, training: false, switches: off },
            picker: false,
            opened: (0, off),
            asking: None,
            focus: Setting::Level,
            armed: None,
            playing: false,
            requested: None,
            teleporters: Vec::new(),
            openings: Vec::new(),
            visited: Vec::new(),
            room: None,
            pieces: RoomSet::default(),
            pad: Layout::Xbox,
            paused: false,
            heroes: None,
            holes: Vec::new(),
            items: Vec::new(),
            doors: Vec::new(),
            route: None,
            core_route: None,
            route_doors: [None, None],
            chosen_piece: None,
            piece_choice: (0, 0),
            switch: false,
            every_teleporter: Vec::new(),
            every_door: Vec::new(),
            version: 0,
        };
        g
    }
}

impl Guidance {
    /// The picker highlights only rows it has, and levels stop at the top.
    #[verifier::type_invariant]
    spec fn inv(self) -> bool {
        &&& setting_ok(self.focus)
        &&& self.level <= TOP_LEVEL
        &&& self.opened.0 <= TOP_LEVEL
    }

    /// The guidance level in effect.
    pub fn level(&self) -> (l: u8)
        ensures
            l == self@.level,
            l <= TOP_LEVEL,
    {
        proof {
            use_type_invariant(self);
        }
        self.level
    }

    /// Training mode's switches in effect.
    pub fn training(&self) -> (t: Training)
        ensures
            t == self@.training,
    {
        self.training
    }

    pub fn record(&self) -> (r: Record)
        ensures
            r == self@.record,
    {
        self.record
    }

    pub fn picker_open(&self) -> (b: bool)
        ensures
            b == self@.picker,
    {
        self.picker
    }

    pub fn version(&self) -> (v: u64)
        ensures
            v == self@.version,
    {
        self.version
    }

    /// Whether the game is held by its pause key.
    pub fn paused(&self) -> (b: bool)
        ensures
            b == self@.paused,
    {
        self.paused
    }

    /// Notes whether the game is paused, redrawing when that changes.
    pub fn set_paused(&mut self, paused: bool)
        requires
            old(self)@.version < u64::MAX,
        ensures
            final(self)@ == if old(self)@.paused != paused {
                GuidanceView { paused, ..old(self)@ }.bumped()
            } else {
                old(self)@
            },
    {
        proof {
            use_type_invariant(&*self);
        }
        if self.paused != paused {
            self.paused = paused;
            self.version = self.version + 1;
        }
    }

    /// The route to the chosen missing piece, if there is one.
    pub fn route(&self) -> (r: Option<&[Step]>)
        ensures
            match r {
                Some(s) => self@.route == Some(s@),
                None => self@.route is None,
            },
    {
        match &self.route {
            Some(v) => Some(v.as_slice()),
            None => None,
        }
    }

    /// The route to the core, while a piece it needs is carried.
    pub fn core_route(&self) -> (r: Option<&[Step]>)
        ensures
            match r {
                Some(s) => self@.core_route == Some(s@),
                None => self@.core_route is None,
            },
    {
        match &self.core_route {
            Some(v) => Some(v.as_slice()),
            None => None,
        }
    }

    /// The first room with a security door each route has to pass: the
    /// piece route's, then the core route's.
    pub fn route_doors(&self) -> (d: [Option<u16>; 2])
        ensures
            d == self@.route_doors,
    {
        self.route_doors
    }

    pub fn set_routes(&mut self, route: Option<Vec<Step>>, core_route: Option<Vec<Step>>, doors: [Option<u16>; 2])
        requires
            old(self)@.version < u64::MAX,
        ensures
            final(self)@ == if old(self)@.route != route_view(route) || old(self)@.core_route != route_view(core_route)
                || old(self)@.route_doors != doors {
                GuidanceView {
                    route: route_view(route),
                    core_route: route_view(core_route),
                    route_doors: doors,
                    ..old(self)@
                }.bumped()
            } else {
                old(self)@
            },
    {
        proof {
            use_type_invariant(&*self);
        }
        let same = same_route(&self.route, &route) && same_route(&self.core_route, &core_route)
            && self.route_doors[0] == doors[0] && self.route_doors[1] == doors[1];
        proof {
            if self.route_doors[0] == doors[0] && self.route_doors[1] == doors[1] {
                assert(self.route_doors =~= doors);
            }
        }
        if !same {
            self.route = route;
            self.core_route = core_route;
            self.route_doors = doors;
            self.version = self.version + 1;
        }
    }

    /// The letters the connected pad carries.
    pub fn pad(&self) -> (l: Layout)
        ensures
            l == self@.pad,
    {
        self.pad
    }

    /// Notes the pad's letters, redrawing the legends when they change.
    pub fn set_pad(&mut self, layout: Layout)
        requires
            old(self)@.version < u64::MAX,
        ensures
            final(self)@ == if old(self)@.pad != layout {
                GuidanceView { pad: layout, ..old(self)@ }.bumped()
            } else {
                old(self)@
            },
    {
        proof {
            use_type_invariant(&*self);
        }
        if self.pad != layout {
            self.pad = layout;
            self.version = self.version + 1;
        }
    }

    /// The piece room chosen with Tab, if any.
    pub fn chosen_piece(&self) -> (c: Option<u16>)
        ensures
            c == self@.chosen_piece,
    {
        self.chosen_piece
    }

    /// Which of how many nearest pieces the route leads to, counting from 1.
    pub fn piece_choice(&self) -> (c: (u8, u8))
        ensures
            c == self@.piece_choice,
    {
        self.piece_choice
    }

    pub fn set_piece_choice(&mut self, chosen: Option<u16>, choice: (u8, u8))
        requires
            old(self)@.version < u64::MAX,
        ensures
            final(self)@ == if old(self)@.chosen_piece != chosen || old(self)@.piece_choice != choice {
                GuidanceView { chosen_piece: chosen, piece_choice: choice, ..old(self)@ }.bumped()
            } else {
                old(self)@
            },
    {
        proof {
            use_type_invariant(&*self);
        }
        if self.chosen_piece != chosen || self.piece_choice.0 != choice.0 || self.piece_choice.1 != choice.1 {
            self.chosen_piece = chosen;
            self.piece_choice = choice;
            self.version = self.version + 1;
        }
    }

    /// The high-score table, while the CORE OF HEROES screen shows it.
    pub fn heroes(&self) -> (h: Option<Heroes>)
        ensures
            h == self@.heroes,
    {
        self.heroes
    }

    pub fn set_heroes(&mut self, heroes: Option<Heroes>)
        requires
            old(self)@.version < u64::MAX,
        ensures
            final(self)@ == if old(self)@.heroes != heroes {
                GuidanceView { heroes, ..old(self)@ }.bumped()
            } else {
                old(self)@
            },
    {
        proof {
            use_type_invariant(&*self);
        }
        let same = match (&self.heroes, &heroes) {
            (Some(a), Some(b)) => *a == *b,
            (None, None) => true,
            _ => false,
        };
        if !same {
            self.heroes = heroes;
            self.version = self.version + 1;
        }
    }

    /// Tab was pressed: the next of the nearest pieces, at level 5 and up.
    pub fn request_switch(&mut self)
        ensures
            final(self)@ == if old(self)@.level >= 5 { GuidanceView { switch: true, ..old(self)@ } } else { old(self)@ },
    {
        proof {
            use_type_invariant(&*self);
        }
        if self.level >= 5 {
            self.switch = true;
        }
    }

    /// Whether Tab was pressed since this was last asked.
    pub fn take_switch(&mut self) -> (b: bool)
        ensures
            b == old(self)@.switch,
            final(self)@ == (GuidanceView { switch: false, ..old(self)@ }),
    {
        proof {
            use_type_invariant(&*self);
        }
        let b = self.switch;
        self.switch = false;
        b
    }

    /// The teleporters and doors whose codes the panel shows: those seen,
    /// or at level 6 every one there is.
    pub fn codes(&self) -> (c: (&[SeenTeleporter], &[DoorCode]))
        ensures
            c.0@ == if self@.level >= 6 { self@.every_teleporter } else { self@.teleporters },
            c.1@ == if self@.level >= 6 { self@.every_door } else { self@.doors },
    {
        if self.level >= 6 {
            (self.every_teleporter.as_slice(), self.every_door.as_slice())
        } else {
            (self.teleporters.as_slice(), self.doors.as_slice())
        }
    }

    pub fn set_every(&mut self, teleporters: Vec<SeenTeleporter>, doors: Vec<DoorCode>)
        requires
            old(self)@.version < u64::MAX,
        ensures
            final(self)@ == if old(self)@.every_teleporter != teleporters@ || old(self)@.every_door != doors@ {
                GuidanceView { every_teleporter: teleporters@, every_door: doors@, ..old(self)@ }.bumped()
            } else {
                old(self)@
            },
    {
        proof {
            use_type_invariant(&*self);
        }
        if !same_items(self.every_teleporter.as_slice(), teleporters.as_slice()) || !same_items(
            self.every_door.as_slice(),
            doors.as_slice(),
        ) {
            self.every_teleporter = teleporters;
            self.every_door = doors;
            self.version = self.version + 1;
        }
    }

    pub fn set_doors(&mut self, doors: Vec<DoorCode>)
        requires
            old(self)@.version < u64::MAX,
        ensures
            final(self)@ == if old(self)@.doors != doors@ {
                GuidanceView { doors: doors@, ..old(self)@ }.bumped()
            } else {
                old(self)@
            },
    {
        proof {
            use_type_invariant(&*self);
        }
        if !same_items(self.doors.as_slice(), doors.as_slice()) {
            self.doors = doors;
            self.version = self.version + 1;
        }
    }

    /// The items lying out on the planet, or none before a game.
    pub fn items(&self) -> (s: &[Found])
        ensures
            s@ == self@.items,
    {
        self.items.as_slice()
    }

    pub fn set_items(&mut self, items: Vec<Found>)
        requires
            old(self)@.version < u64::MAX,
        ensures
            final(self)@ == if old(self)@.items != items@ {
                GuidanceView { items: items@, ..old(self)@ }.bumped()
            } else {
                old(self)@
            },
    {
        proof {
            use_type_invariant(&*self);
        }
        if !same_items(self.items.as_slice(), items.as_slice()) {
            self.items = items;
            self.version = self.version + 1;
        }
    }

    /// The core's nine slots, or none before a game.
    pub fn core_holes(&self) -> (s: &[Hole])
        ensures
            s@ == self@.holes,
    {
        self.holes.as_slice()
    }

    pub fn set_core(&mut self, holes: &[Hole])
        requires
            old(self)@.version < u64::MAX,
        ensures
            final(self)@ == if old(self)@.holes != holes@ {
                GuidanceView { holes: holes@, ..old(self)@ }.bumped()
            } else {
                old(self)@
            },
    {
        proof {
            use_type_invariant(&*self);
        }
        if !same_items(self.holes.as_slice(), holes) {
            self.holes = vstd::slice::slice_to_vec(holes);
            self.version = self.version + 1;
        }
    }

    pub fn focus(&self) -> (s: Setting)
        ensures
            s == self@.focus,
            setting_ok(s),
    {
        proof {
            use_type_invariant(self);
        }
        self.focus
    }

    pub fn armed(&self) -> (s: Option<Setting>)
        ensures
            s == self@.armed,
    {
        self.armed
    }

    /// The level and training mode as they were when the picker opened,
    /// which Undo goes back to.
    pub fn opened(&self) -> (o: (u8, Training))
        ensures
            o == self@.opened,
    {
        self.opened
    }

    /// The question, if it is up, and whether it has been pressed once.
    pub fn asking(&self) -> (c: Option<Choice>)
        ensures
            c == self@.asking,
    {
        self.asking
    }

    /// Whether keeping the settings as they are would add to this game's
    /// record: a level above the highest used, or training mode for the
    /// first time. Lowering either never does.
    pub fn raises_record(&self) -> (b: bool)
        ensures
            b == self@.raises(),
    {
        let u = self.record.switches.union(self.training);
        let b = self.level > self.record.highest || u != self.record.switches;
        proof {
            if !self.training.within(self.record.switches) {
                let i = choose|i: int| 0 <= i < 5 && !(#[trigger] self.training.on(i) ==> self.record.switches.on(i));
                assert(u.on(i) != self.record.switches.on(i));
            } else {
                assert forall|i: int| 0 <= i < 5 implies u.0[i] == self.record.switches.0[i] by {
                    assert(u.on(i) == (self.record.switches.on(i) || self.training.on(i)));
                    assert(self.training.on(i) ==> self.record.switches.on(i));
                }
                assert(u.0 =~= self.record.switches.0);
            }
        }
        b
    }

    /// The doors seen this game.
    pub fn doors_for_test(&self) -> (s: &[DoorCode])
        ensures
            s@ == self@.doors,
    {
        self.doors.as_slice()
    }

    /// The teleporters seen this game.
    pub fn teleporters(&self) -> (s: &[SeenTeleporter])
        ensures
            s@ == self@.teleporters,
    {
        self.teleporters.as_slice()
    }

    /// Takes the game's list of teleporters seen, if it has changed.
    pub fn set_teleporters(&mut self, seen: &[SeenTeleporter])
        requires
            old(self)@.version < u64::MAX,
        ensures
            final(self)@ == if old(self)@.teleporters != seen@ {
                GuidanceView { teleporters: seen@, ..old(self)@ }.bumped()
            } else {
                old(self)@
            },
    {
        proof {
            use_type_invariant(&*self);
        }
        if !same_items(self.teleporters.as_slice(), seen) {
            self.teleporters = vstd::slice::slice_to_vec(seen);
            self.version = self.version + 1;
        }
    }

    /// Every room's openings, by room number; empty until they are found.
    pub fn openings(&self) -> (s: &[Openings])
        ensures
            s@ == self@.openings,
    {
        self.openings.as_slice()
    }

    /// Whether the openings have been found yet.
    pub fn has_openings(&self) -> (b: bool)
        ensures
            b == (self@.openings.len() != 0),
    {
        self.openings.len() != 0
    }

    /// Takes every room's openings, found once.
    pub fn set_openings(&mut self, openings: Vec<Openings>)
        requires
            old(self)@.version < u64::MAX,
        ensures
            final(self)@ == (GuidanceView { openings: openings@, ..old(self)@ }.bumped()),
    {
        proof {
            use_type_invariant(&*self);
        }
        self.openings = openings;
        self.version = self.version + 1;
    }

    /// Whether `room` has been visited.
    pub fn visited(&self, room: u16) -> (b: bool)
        ensures
            b == (room < self@.visited.len() && self@.visited[room as int]),
    {
        if (room as usize) < self.visited.len() {
            self.visited[room as usize]
        } else {
            false
        }
    }

    /// How many rooms have been visited.
    pub fn explored(&self) -> (n: usize)
        ensures
            n == count_true(self@.visited),
    {
        let mut n: usize = 0;
        let mut i: usize = 0;
        while i < self.visited.len()
            invariant
                i <= self.visited@.len(),
                n == count_true(self.visited@.take(i as int)),
                n <= i,
            decreases self.visited@.len() - i,
        {
            assert(self.visited@.take(i as int + 1).drop_last() =~= self.visited@.take(i as int));
            if self.visited[i] {
                n = n + 1;
            }
            i = i + 1;
        }
        assert(self.visited@.take(i as int) =~= self.visited@);
        n
    }

    /// The room BLOB is in, while a game is being played.
    pub fn room(&self) -> (r: Option<u16>)
        ensures
            r == self@.room,
    {
        self.room
    }

    /// Takes the room BLOB is in, or `None` outside a game, if it has
    /// changed. The number the game keeps after its end (512) is no room.
    pub fn set_room(&mut self, room: Option<u16>)
        requires
            old(self)@.version < u64::MAX,
        ensures
            ({
                let r = match room {
                    Some(x) => if x < ROOM_COUNT { Some(x) } else { None },
                    None => None,
                };
                final(self)@ == if old(self)@.room != r {
                    GuidanceView { room: r, ..old(self)@ }.bumped()
                } else {
                    old(self)@
                }
            }),
    {
        proof {
            use_type_invariant(&*self);
        }
        let room = match room {
            Some(r) => if (r as usize) < ROOMS {
                Some(r)
            } else {
                None
            },
            None => None,
        };
        if self.room != room {
            self.room = room;
            self.version = self.version + 1;
        }
    }

    /// Whether `room` holds a core piece still needed.
    pub fn piece(&self, room: u16) -> (b: bool)
        requires
            room < ROOM_COUNT,
        ensures
            b == self@.pieces.has(room),
    {
        self.pieces.contains(room)
    }

    /// Takes the rooms holding a core piece still needed, if they have
    /// changed.
    pub fn set_pieces(&mut self, rooms: &RoomSet)
        requires
            old(self)@.version < u64::MAX,
        ensures
            final(self)@ == if old(self)@.pieces != *rooms {
                GuidanceView { pieces: *rooms, ..old(self)@ }.bumped()
            } else {
                old(self)@
            },
    {
        proof {
            use_type_invariant(&*self);
        }
        if self.pieces != *rooms {
            self.pieces = RoomSet(rooms.0);
            self.version = self.version + 1;
        }
    }

    /// Takes the game's set of rooms not yet visited, if it has changed.
    pub fn set_unvisited(&mut self, unvisited: &RoomSet)
        requires
            old(self)@.version < u64::MAX,
        ensures
            final(self)@ == if unvisited_matches(old(self)@.visited, *unvisited) {
                old(self)@
            } else {
                GuidanceView {
                    visited: Seq::new(ROOMS as nat, |r: int| !unvisited.has(r as u16)),
                    ..old(self)@
                }.bumped()
            },
    {
        proof {
            use_type_invariant(&*self);
        }
        let same = matches_unvisited(self.visited.as_slice(), unvisited);
        if !same {
            let mut visited: Vec<bool> = Vec::new();
            let mut r: usize = 0;
            while r < ROOMS
                invariant
                    r <= ROOMS,
                    visited@.len() == r,
                    forall|k: int| 0 <= k < r ==> visited@[k] == !#[trigger] unvisited.has(k as u16),
                decreases ROOMS - r,
            {
                visited.push(!unvisited.contains(r as u16));
                r = r + 1;
            }
            assert(visited@ =~= Seq::new(ROOMS as nat, |r: int| !unvisited.has(r as u16)));
            self.visited = visited;
            self.version = self.version + 1;
        }
    }

    /// Forgets the game that has ended, its map, pieces and teleporter codes,
    /// once its game-over screens are done: the title screen shows none.
    pub fn forget_game(&mut self)
        requires
            old(self)@.version < u64::MAX,
        ensures
            final(self)@ == if old(self)@.holds_game() { old(self)@.forgotten() } else { old(self)@ },
    {
        proof {
            use_type_invariant(&*self);
        }
        let empty = RoomSet::default();
        if self.teleporters.len() != 0 || self.visited.len() != 0 || self.room.is_some() || self.pieces != empty
            || self.holes.len() != 0 || self.items.len() != 0 || self.doors.len() != 0 || self.every_door.len() != 0
            || self.route.is_some() || self.core_route.is_some() {
            self.teleporters = Vec::new();
            self.visited = Vec::new();
            self.room = None;
            self.pieces = empty;
            self.holes = Vec::new();
            self.items = Vec::new();
            self.doors = Vec::new();
            self.every_teleporter = Vec::new();
            self.every_door = Vec::new();
            self.route = None;
            self.core_route = None;
            self.route_doors = [None, None];
            self.chosen_piece = None;
            self.piece_choice = (0, 0);
            self.version = self.version + 1;
        }
    }

    /// The rows the picker shows: ending a game only while one is played.
    pub fn rows(&self) -> (rows: Vec<Setting>)
        ensures
            rows@ == rows_spec(self@.playing),
    {
        let mut rows = vec![Setting::Level];
        let mut i: u8 = 0;
        while i < 5
            invariant
                i <= 5,
                rows@ == seq![Setting::Level] + Seq::new(i as nat, |k: int| Setting::Switch(k as u8)),
            decreases 5 - i,
        {
            rows.push(Setting::Switch(i));
            i = i + 1;
            assert(rows@ =~= seq![Setting::Level] + Seq::new(i as nat, |k: int| Setting::Switch(k as u8)));
        }
        if self.playing {
            rows.push(Setting::EndGame);
        }
        rows.push(Setting::Exit);
        assert(rows@ =~= rows_spec(self@.playing));
        rows
    }

    /// Whether a game is being played, as the game thread sees it.
    pub fn set_playing(&mut self, playing: bool)
        requires
            old(self)@.version < u64::MAX,
        ensures
            final(self)@ == (GuidanceView {
                playing,
                focus: if !playing && old(self)@.focus == Setting::EndGame { Setting::Exit } else { old(self)@.focus },
                armed: if old(self)@.armed == Some(Setting::EndGame) { None } else { old(self)@.armed },
                ..old(self)@
            }.bumped()),
    {
        proof {
            use_type_invariant(&*self);
        }
        self.playing = playing;
        if !playing && self.focus == Setting::EndGame {
            self.focus = Setting::Exit;
        }
        if self.armed == Some(Setting::EndGame) {
            self.armed = None;
        }
        self.version = self.version + 1;
    }

    /// Opens the picker on its top row.
    pub fn open(&mut self)
        requires
            old(self)@.version < u64::MAX,
        ensures
            final(self)@ == (GuidanceView {
                picker: true,
                opened: (old(self)@.level, old(self)@.training),
                asking: None,
                focus: Setting::Level,
                armed: None,
                ..old(self)@
            }.bumped()),
    {
        proof {
            use_type_invariant(&*self);
        }
        self.picker = true;
        self.opened = (self.level, self.training);
        self.asking = None;
        self.focus = Setting::Level;
        self.armed = None;
        self.version = self.version + 1;
    }

    /// Esc, B or Select. With the question up, the change is undone and
    /// the picker closes. Otherwise leave it.
    pub fn back(&mut self)
        requires
            old(self)@.version < u64::MAX,
        ensures
            final(self)@ == if old(self)@.asking is Some { old(self)@.undone().closed() } else { old(self)@.left() },
    {
        proof {
            use_type_invariant(&*self);
        }
        if self.asking.is_some() {
            self.restore_opened();
            self.close();
        } else {
            self.leave();
        }
    }

    /// The level and training mode back to how they were when the picker
    /// opened.
    fn restore_opened(&mut self)
        ensures
            final(self)@ == old(self)@.undone(),
    {
        proof {
            use_type_invariant(&*self);
        }
        self.level = self.opened.0;
        self.training = self.opened.1;
    }

    /// Leaves the picker, asking first if that would add to the record. It
    /// takes two presses to keep, so a reflex press changes nothing.
    fn leave(&mut self)
        requires
            old(self)@.version < u64::MAX,
        ensures
            final(self)@ == old(self)@.left(),
    {
        proof {
            use_type_invariant(&*self);
        }
        if self.raises_record() {
            self.asking = Some(Choice::Asked);
            self.armed = None;
            self.version = self.version + 1;
        } else {
            self.close();
        }
    }

    /// Closes the picker, keeping what was set in it. The record takes the
    /// settings as they are now, so passing through a level on the way to
    /// another does not count as having used it.
    pub fn close(&mut self)
        requires
            old(self)@.version < u64::MAX,
        ensures
            final(self)@ == old(self)@.closed(),
    {
        proof {
            use_type_invariant(&*self);
        }
        self.picker = false;
        self.asking = None;
        self.armed = None;
        if self.level > self.record.highest {
            self.record.highest = self.level;
        }
        self.record.switches = self.record.switches.union(self.training);
        self.record.training = self.record.switches.any();
        self.version = self.version + 1;
    }

    /// Enter or A. With the question up, the first press asks for a second
    /// and the second keeps the change. On a setting it leaves the picker,
    /// as Esc does. On an action the first press asks for a second, and the
    /// second requests the action and closes the picker.
    pub fn enter(&mut self)
        requires
            old(self)@.version < u64::MAX,
        ensures
            final(self)@ == old(self)@.entered(),
    {
        proof {
            use_type_invariant(&*self);
        }
        match self.asking {
            Some(Choice::Asked) => {
                self.asking = Some(Choice::Armed);
                self.version = self.version + 1;
                return;
            },
            Some(Choice::Armed) => {
                self.close();
                return;
            },
            None => {},
        }
        let action = match self.focus {
            Setting::Level | Setting::Switch(_) => {
                self.leave();
                return;
            },
            Setting::EndGame => Action::EndGame,
            Setting::Exit => Action::Exit,
        };
        if self.armed == Some(self.focus) {
            self.requested = Some(action);
            // An action is not a decision about the settings: anything that
            // would add to the record without being confirmed is undone, so
            // an ended game's score note cannot pick it up by accident.
            if self.raises_record() {
                self.restore_opened();
            }
            self.close();
        } else {
            self.armed = Some(self.focus);
            self.version = self.version + 1;
        }
    }

    /// Up and down in the picker: which row is highlighted. Moving away
    /// from an action that was pressed once cancels it.
    pub fn focus_up(&mut self)
        requires
            old(self)@.version < u64::MAX,
        ensures
            final(self)@ == old(self)@.moved(-1),
    {
        proof {
            use_type_invariant(&*self);
        }
        self.move_focus(false);
    }

    pub fn focus_down(&mut self)
        requires
            old(self)@.version < u64::MAX,
        ensures
            final(self)@ == old(self)@.moved(1),
    {
        proof {
            use_type_invariant(&*self);
        }
        self.move_focus(true);
    }

    #[verifier::rlimit(30)]
    fn move_focus(&mut self, down: bool)
        requires
            old(self)@.version < u64::MAX,
        ensures
            final(self)@ == old(self)@.moved(if down { 1 } else { -1 }),
    {
        proof {
            use_type_invariant(&*self);
        }
        if self.asking.is_some() {
            self.disarm();
            return;
        }
        let rows = self.rows();
        let at = position(rows.as_slice(), self.focus);
        proof {
            rows_are_settings(self.playing);
            row_of_is_a_row(rows@, self.focus);
        }
        let last = rows.len() - 1;
        let to = if down {
            if at + 1 > last {
                last
            } else {
                at + 1
            }
        } else {
            if at == 0 {
                0
            } else {
                at - 1
            }
        };
        self.focus = rows[to];
        self.armed = None;
        self.version = self.version + 1;
    }

    /// With the question pressed once, anything but a second Enter or A
    /// takes it back to asking.
    fn disarm(&mut self)
        requires
            old(self)@.version < u64::MAX,
        ensures
            final(self)@ == old(self)@.disarmed(),
    {
        proof {
            use_type_invariant(&*self);
        }
        if self.asking == Some(Choice::Armed) {
            self.asking = Some(Choice::Asked);
            self.version = self.version + 1;
        }
    }

    /// Takes the confirmed action, if there is one and it is `which`.
    pub fn take(&mut self, which: Action) -> (b: bool)
        ensures
            b == (old(self)@.requested == Some(which)),
            final(self)@ == if b { GuidanceView { requested: None, ..old(self)@ } } else { old(self)@ },
    {
        proof {
            use_type_invariant(&*self);
        }
        if self.requested == Some(which) {
            self.requested = None;
            true
        } else {
            false
        }
    }

    /// Left and right in the picker: the highlighted setting down or up a
    /// step, in effect at once. It is recorded when the picker closes.
    pub fn change(&mut self, up: bool)
        requires
            old(self)@.version < u64::MAX,
        ensures
            final(self)@ == old(self)@.changed(up),
    {
        proof {
            use_type_invariant(&*self);
        }
        if self.asking.is_some() {
            self.disarm();
            return;
        }
        match self.focus {
            Setting::Level => {
                if up {
                    if self.level < TOP_LEVEL {
                        self.level = self.level + 1;
                    }
                } else if self.level > 0 {
                    self.level = self.level - 1;
                }
            },
            Setting::Switch(i) => {
                let mut t = self.training;
                t.0[i as usize] = up;
                self.training = t;
            },
            Setting::EndGame | Setting::Exit => return,
        }
        self.version = self.version + 1;
    }

    /// Puts a level into effect and records it, outside the picker: for a
    /// start from a setting without going through the picker.
    pub fn set_level(&mut self, level: u8)
        requires
            old(self)@.version < u64::MAX,
        ensures
            ({
                let l = if level > TOP_LEVEL { TOP_LEVEL } else { level };
                final(self)@ == (GuidanceView {
                    level: l,
                    record: Record {
                        highest: if l > old(self)@.record.highest { l } else { old(self)@.record.highest },
                        ..old(self)@.record
                    },
                    ..old(self)@
                }.bumped())
            }),
    {
        proof {
            use_type_invariant(&*self);
        }
        self.level = if level > TOP_LEVEL { TOP_LEVEL } else { level };
        if self.level > self.record.highest {
            self.record.highest = self.level;
        }
        self.version = self.version + 1;
    }

    /// Puts training mode into effect or out of it, every switch at once,
    /// and records it: for a start from a setting without going through the
    /// picker.
    pub fn set_training(&mut self, on: bool)
        requires
            old(self)@.version < u64::MAX,
        ensures
            ({
                let t = Training([on, on, on, on, on]);
                let switches = old(self)@.record.switches.union_spec(t);
                final(self)@ == (GuidanceView {
                    training: t,
                    record: Record { switches, training: switches.any_spec(), ..old(self)@.record },
                    ..old(self)@
                }.bumped())
            }),
    {
        proof {
            use_type_invariant(&*self);
        }
        self.training = Training([on; 5]);
        assert(self.training.0 =~= [on, on, on, on, on]);
        self.record.switches = self.record.switches.union(self.training);
        self.record.training = self.record.switches.any();
        self.version = self.version + 1;
    }

    /// A new game has started: its record begins with what is in use now.
    pub fn new_game(&mut self)
        requires
            old(self)@.version < u64::MAX,
        ensures
            final(self)@ == (GuidanceView {
                record: Record {
                    highest: old(self)@.level,
                    training: old(self)@.training.any_spec(),
                    switches: old(self)@.training,
                },
                ..old(self)@
            }.bumped()),
    {
        proof {
            use_type_invariant(&*self);
        }
        self.record = Record { highest: self.level, training: self.training.any(), switches: self.training };
        self.version = self.version + 1;
    }
}

/// Whether the visited list and the set of rooms not visited agree.
fn matches_unvisited(visited: &[bool], unvisited: &RoomSet) -> (same: bool)
    ensures
        same == unvisited_matches(visited@, *unvisited),
{
    if visited.len() != ROOMS {
        return false;
    }
    let mut r: usize = 0;
    while r < ROOMS
        invariant
            r <= ROOMS,
            visited@.len() == ROOMS,
            forall|k: int| 0 <= k < r ==> visited@[k] != #[trigger] unvisited.has(k as u16),
        decreases ROOMS - r,
    {
        if visited[r] == unvisited.contains(r as u16) {
            assert(visited@[r as int] == unvisited.has(r as u16));
            return false;
        }
        r = r + 1;
    }
    true
}

/// Where `s` first stands among the rows, or 0.
fn position(rows: &[Setting], s: Setting) -> (at: usize)
    ensures
        at == row_of(rows@, s),
{
    let mut i: usize = 0;
    while i < rows.len()
        invariant
            i <= rows@.len(),
            forall|j: int| 0 <= j < i ==> rows@[j] != s,
        decreases rows@.len() - i,
    {
        if rows[i] == s {
            proof {
                let rs = rows@;
                assert(rs[i as int] == s);
                let c = choose|k: int| 0 <= k < rs.len() && rs[k] == s && forall|j: int| 0 <= j < k ==> rs[j] != s;
                assert(c == i) by {
                    if c < i {
                        assert(rs[c] != s);
                    }
                    if c > i {
                        assert(rs[i as int] == s);
                    }
                }
            }
            return i;
        }
        i = i + 1;
    }
    0
}

/// Whether two lists of steps are the same.
fn same_steps(a: &[Step], b: &[Step]) -> (same: bool)
    ensures
        same == (a@ == b@),
{
    if a.len() != b.len() {
        return false;
    }
    let mut i: usize = 0;
    while i < a.len()
        invariant
            i <= a@.len(),
            a@.len() == b@.len(),
            forall|k: int| 0 <= k < i ==> a@[k] == b@[k],
        decreases a@.len() - i,
    {
        if a[i].room != b[i].room || a[i].teleport != b[i].teleport {
            return false;
        }
        i = i + 1;
    }
    assert(a@ =~= b@);
    true
}

/// Whether two routes are the same steps.
fn same_route(a: &Option<Vec<Step>>, b: &Option<Vec<Step>>) -> (same: bool)
    ensures
        same == (route_view(*a) == route_view(*b)),
{
    match (a, b) {
        (Some(x), Some(y)) => same_steps(x.as_slice(), y.as_slice()),
        (None, None) => true,
        _ => false,
    }
}

/// A record at least as high as another: no lower a level, and every
/// switch the other has.
pub open spec fn rises_from(before: Record, after: Record) -> bool {
    after.highest >= before.highest && before.switches.within(after.switches)
}

proof fn recorded_rises(v: GuidanceView)
    ensures
        rises_from(v.record, v.recorded()),
        v.raises() ==> v.recorded() != v.record,
        !v.raises() ==> v.recorded().highest == v.record.highest && v.recorded().switches == v.record.switches,
{
    let u = v.record.switches.union_spec(v.training);
    assert(v.record.switches.within(u));
    if !v.raises() {
        assert(u == v.record.switches) by {
            assert forall|i: int| 0 <= i < 5 implies u.0[i] == v.record.switches.0[i] by {
                assert(v.training.on(i) ==> v.record.switches.on(i));
            }
            assert(u.0 =~= v.record.switches.0);
        }
    } else if v.level <= v.record.highest {
        let i = choose|i: int| 0 <= i < 5 && !(v.training.on(i) ==> v.record.switches.on(i));
        assert(u.on(i) && !v.record.switches.on(i));
    }
}

/// The record of a game only ever rises: whatever is done in the picker,
/// or with the game's map, the record's level is never lowered and no
/// switch it names is dropped. Only a new game starts a new record.
pub proof fn record_only_rises(v: GuidanceView, by: int, up: bool)
    ensures
        rises_from(v.record, v.closed().record),
        rises_from(v.record, v.left().record),
        rises_from(v.record, v.undone().closed().record),
        rises_from(v.record, v.entered().record),
        rises_from(v.record, v.disarmed().record),
        rises_from(v.record, v.moved(by).record),
        rises_from(v.record, v.changed(up).record),
        rises_from(v.record, v.forgotten().record),
{
    recorded_rises(v);
    recorded_rises(v.undone());
    let action = if v.focus == Setting::EndGame { Action::EndGame } else { Action::Exit };
    let asked = GuidanceView { requested: Some(action), ..v };
    recorded_rises(asked);
    recorded_rises(asked.undone());
    assert(v.record.switches.within(v.record.switches));
}

/// Keeping a raise takes two presses: with the settings above the record,
/// Enter on a setting asks, a first press on the question only arms it,
/// and the second keeps the settings and takes them into the record. Until
/// then the record and the settings are as they were.
pub proof fn a_raise_takes_two_presses(v: GuidanceView)
    requires
        v.asking is None,
        v.focus is Level || v.focus is Switch,
        v.raises(),
    ensures
        ({
            let asked = v.entered();
            let armed = asked.entered();
            let kept = armed.entered();
            &&& asked.asking == Some(Choice::Asked) && asked.picker == v.picker && asked.record == v.record
            &&& asked.level == v.level && asked.training == v.training
            &&& armed.asking == Some(Choice::Armed) && armed.picker == v.picker && armed.record == v.record
            &&& armed.level == v.level && armed.training == v.training
            &&& !kept.picker && kept.asking is None && kept.record == v.recorded()
            &&& kept.level == v.level && kept.training == v.training
            &&& rises_from(v.record, kept.record) && kept.record != v.record
        }),
{
    recorded_rises(v);
}

/// Lowering or browsing never asks: when the settings add nothing to the
/// record, leaving the picker closes it at once and the record stays.
pub proof fn lowering_never_asks(v: GuidanceView)
    requires
        !v.raises(),
    ensures
        !v.left().picker,
        v.left().asking is None,
        v.left().level == v.level && v.left().training == v.training,
        v.left().record.highest == v.record.highest,
        v.left().record.switches == v.record.switches,
{
    recorded_rises(v);
}

/// Back from the question undoes and closes: the settings go back to
/// those the picker opened with, and the picker closes.
pub proof fn back_from_the_question_undoes(v: GuidanceView)
    requires
        v.asking is Some,
    ensures
        ({
            let after = v.undone().closed();
            &&& !after.picker && after.asking is None
            &&& after.level == v.opened.0 && after.training == v.opened.1
        }),
{
}

/// Anything but a second Enter takes a first press on the question back
/// to asking, and changes nothing else of the settings.
pub proof fn anything_else_disarms(v: GuidanceView, by: int, up: bool)
    requires
        v.asking == Some(Choice::Armed),
    ensures
        v.moved(by).asking == Some(Choice::Asked),
        v.changed(up).asking == Some(Choice::Asked),
        v.moved(by).level == v.level && v.moved(by).training == v.training && v.moved(by).focus == v.focus,
        v.changed(up).level == v.level && v.changed(up).training == v.training,
        v.moved(by).record == v.record && v.changed(up).record == v.record,
{
}

/// An action needs two presses: the first only arms it; the second
/// requests it and closes the picker, undoing settings that would have
/// added to the record unconfirmed. Moving away in between cancels the
/// first press.
pub proof fn an_action_takes_two_presses(v: GuidanceView, by: int)
    requires
        v.asking is None,
        v.focus is EndGame || v.focus is Exit,
        v.armed is None,
    ensures
        ({
            let action = if v.focus is EndGame { Action::EndGame } else { Action::Exit };
            let once = v.entered();
            let twice = once.entered();
            &&& once.requested == v.requested && once.armed == Some(v.focus) && once.picker == v.picker
            &&& once.record == v.record && once.level == v.level && once.training == v.training
            &&& twice.requested == Some(action) && !twice.picker && twice.armed is None
            &&& v.raises() ==> twice.level == v.opened.0 && twice.training == v.opened.1
            &&& !v.raises() ==> twice.level == v.level && twice.training == v.training
            &&& once.moved(by).armed is None
        }),
{
}

} // verus!
