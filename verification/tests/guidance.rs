use starquake::frontend::guidance::{Action, Choice, Guidance, Record, Setting};
use starquake::game::{SeenTeleporter, Training};
use starquake::pickups::RoomSet;

/// Moves the picker's focus down to `row`.
fn down_to(g: &mut Guidance, row: Setting) {
    while g.focus() != row {
        g.focus_down();
    }
}

#[test]
fn starts_with_no_help() {
    let g = Guidance::default();
    assert_eq!(g.level(), 0);
    assert!(!g.training().any());
    assert_eq!(g.record(), Record::default());
    assert!(!g.picker_open());
}

#[test]
fn the_record_only_rises() {
    let mut g = Guidance::default();
    g.set_level(3);
    g.set_level(1);
    assert_eq!(g.record().highest, 3);
    g.set_training(true);
    g.set_training(false);
    assert!(g.record().training);
}

#[test]
fn changes_are_in_effect_at_once_and_kept_on_closing() {
    let mut g = Guidance::default();
    g.open();
    g.change(true);
    g.change(true);
    assert_eq!(g.level(), 2, "in effect at once");
    g.focus_down();
    g.change(true);
    assert!(g.training().0[0], "the first switch, full energy");
    g.close();
    assert_eq!(g.level(), 2, "kept");
    assert!(g.training().0[0], "kept");
}

#[test]
fn only_what_is_in_effect_on_closing_is_recorded() {
    let mut g = Guidance::default();
    g.open();
    for _ in 0..5 {
        g.change(true);
    }
    assert_eq!(g.record().highest, 0, "not while the picker is open");
    for _ in 0..4 {
        g.change(false);
    }
    g.focus_down();
    g.change(true);
    g.change(false);
    g.close();
    assert_eq!(
        g.record(),
        Record {
            highest: 1,
            training: false,
            switches: Training::default(),
        }
    );
}

#[test]
fn lowering_or_browsing_never_asks() {
    let mut g = Guidance::default();
    g.set_level(3);
    g.open();
    g.change(false);
    g.back();
    assert!(!g.picker_open(), "a lower level: no question");
    assert_eq!(g.level(), 2);

    g.open();
    g.change(true);
    g.change(true);
    g.change(false);
    g.back();
    assert!(!g.picker_open(), "back to level 3, already recorded");
}

#[test]
fn raising_asks_and_one_press_keeps_nothing_yet() {
    let mut g = Guidance::default();
    g.open();
    g.change(true);
    g.change(true);
    g.back();
    assert!(g.picker_open());
    assert_eq!(g.asking(), Some(Choice::Asked));
    g.enter();
    assert!(g.picker_open(), "one press only asks again");
    assert_eq!(g.asking(), Some(Choice::Armed));
    assert_eq!(g.record(), Record::default());
}

#[test]
fn a_second_press_keeps_and_records() {
    let mut g = Guidance::default();
    g.open();
    g.focus_down();
    g.change(true);
    g.enter();
    assert_eq!(
        g.asking(),
        Some(Choice::Asked),
        "Enter on a setting asks too"
    );
    g.enter();
    g.enter();
    assert!(!g.picker_open());
    assert!(g.training().any());
    assert!(g.record().training);
}

#[test]
fn back_from_the_question_undoes_and_closes() {
    let mut g = Guidance::default();
    g.open();
    g.change(true);
    g.back();
    g.enter();
    g.back();
    assert!(!g.picker_open());
    assert_eq!(g.asking(), None);
    assert_eq!(g.level(), 0, "undone");
    assert_eq!(g.record(), Record::default());
}

#[test]
fn anything_else_takes_a_first_press_back() {
    let mut g = Guidance::default();
    g.open();
    g.change(true);
    g.back();
    for step in [
        |g: &mut Guidance| g.change(true),
        |g: &mut Guidance| g.change(false),
        |g: &mut Guidance| g.focus_up(),
        |g: &mut Guidance| g.focus_down(),
    ] {
        g.enter();
        assert_eq!(g.asking(), Some(Choice::Armed));
        step(&mut g);
        assert_eq!(g.asking(), Some(Choice::Asked), "disarmed");
        assert_eq!(g.level(), 1, "and nothing else changed");
    }
}

#[test]
fn ending_a_game_drops_unconfirmed_raises() {
    let mut g = Guidance::default();
    g.set_playing(true);
    g.open();
    g.change(true);
    down_to(&mut g, Setting::EndGame);
    g.enter();
    g.enter();
    assert!(g.take(Action::EndGame));
    assert_eq!(g.level(), 0);
    assert_eq!(g.record(), Record::default());
}

#[test]
fn levels_stop_at_the_ends() {
    let mut g = Guidance::default();
    g.open();
    g.change(false);
    assert_eq!(g.level(), 0);
    for _ in 0..10 {
        g.change(true);
    }
    assert_eq!(g.level(), 6, "the re-cut's top level, Everything");
}

#[test]
fn an_action_needs_two_presses() {
    let mut g = Guidance::default();
    g.set_playing(true);
    g.open();
    down_to(&mut g, Setting::EndGame);
    assert_eq!(g.focus(), Setting::EndGame);
    g.enter();
    assert_eq!(g.armed(), Some(Setting::EndGame));
    assert!(!g.take(Action::EndGame), "one press does nothing yet");
    g.enter();
    assert!(g.take(Action::EndGame));
    assert!(!g.picker_open(), "the picker closes");
}

#[test]
fn moving_away_cancels_a_first_press() {
    let mut g = Guidance::default();
    g.open();
    for _ in 0..10 {
        g.focus_down();
    }
    assert_eq!(g.focus(), Setting::Exit);
    g.enter();
    g.focus_up();
    g.focus_down();
    g.enter();
    assert!(!g.take(Action::Exit), "the first press was cancelled");
}

#[test]
fn the_picker_opens_on_its_top_row() {
    let mut g = Guidance::default();
    g.set_playing(true);
    g.open();
    for _ in 0..5 {
        g.focus_down();
    }
    g.close();
    g.open();
    assert_eq!(g.focus(), Setting::Level);
}

#[test]
fn ending_a_game_is_offered_only_while_playing() {
    let mut g = Guidance::default();
    let switches = (0..5).map(Setting::Switch);
    let rows: Vec<Setting> = std::iter::once(Setting::Level)
        .chain(switches.clone())
        .chain([Setting::Exit])
        .collect();
    assert_eq!(g.rows(), rows);
    g.set_playing(true);
    let rows: Vec<Setting> = std::iter::once(Setting::Level)
        .chain(switches)
        .chain([Setting::EndGame, Setting::Exit])
        .collect();
    assert_eq!(g.rows(), rows);
}

#[test]
fn each_switch_is_its_own_row_and_the_record_names_them() {
    let mut g = Guidance::default();
    g.open();
    for _ in 0..4 {
        g.focus_down();
    }
    assert_eq!(g.focus(), Setting::Switch(3), "endless lives");
    g.change(true);
    assert!(g.raises_record(), "a switch not used yet this game");
    g.close();
    assert_eq!(g.training(), Training([false, false, false, true, false]));
    assert!(g.record().training);
    assert_eq!(g.record().switches, g.training());
}

#[test]
fn teleporters_are_taken_only_when_they_change() {
    let mut g = Guidance::default();
    let before = g.version();
    g.set_teleporters(&[]);
    assert_eq!(g.version(), before, "nothing new, nothing to redraw");
    let seen = SeenTeleporter {
        room: 40,
        code: *b"ABCDE",
    };
    g.set_teleporters(&[seen]);
    assert_eq!(g.teleporters(), [seen]);
    assert!(g.version() > before);
}

#[test]
fn the_map_is_taken_only_when_it_changes() {
    let mut g = Guidance::default();
    assert_eq!(g.explored(), 0, "nothing explored before a game");
    let mut unvisited = RoomSet([0xFF; 64]);
    unvisited.set(97, false);
    unvisited.set(98, false);
    g.set_unvisited(&unvisited);
    g.set_room(Some(98));
    assert_eq!(g.explored(), 2);
    assert!(g.visited(97) && !g.visited(96));
    assert_eq!(g.room(), Some(98));

    let before = g.version();
    g.set_unvisited(&unvisited);
    g.set_room(Some(98));
    assert_eq!(g.version(), before, "nothing new, nothing to redraw");

    let mut pieces = RoomSet::default();
    pieces.set(300, true);
    g.set_pieces(&pieces);
    assert!(g.piece(300) && !g.piece(98));
    let after = g.version();
    assert!(after > before);
    g.set_pieces(&pieces);
    assert_eq!(g.version(), after, "the same pieces, nothing to redraw");

    g.set_room(Some(512));
    assert_eq!(
        g.room(),
        None,
        "512 is where the game leaves it, not a room"
    );
    assert!(g.version() > before);

    g.set_teleporters(&[SeenTeleporter {
        room: 40,
        code: *b"ABCDE",
    }]);
    g.forget_game();
    assert_eq!(g.explored(), 0, "the title screen shows no map");
    assert!(g.teleporters().is_empty(), "nor any codes");
    assert!(!g.piece(300), "nor any pieces");
    assert_eq!(g.room(), None);
    let forgotten = g.version();
    g.forget_game();
    assert_eq!(g.version(), forgotten, "nothing left to forget");
}

#[test]
fn a_new_game_starts_its_record_from_what_is_in_use() {
    let mut g = Guidance::default();
    g.set_level(4);
    g.set_training(true);
    g.set_level(2);
    g.set_training(false);
    g.new_game();
    assert_eq!(g.level(), 2, "the chosen level is kept");
    assert_eq!(
        g.record(),
        Record {
            highest: 2,
            training: false,
            switches: Training::default(),
        }
    );
}
