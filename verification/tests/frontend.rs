use starquake::controls::Input;
use starquake::frontend::{end_game, scripted_keys};
use starquake::game::Scene;

/// A S D F G, all held: what BLOB's control ends a game on.
fn ending(input: &Input) -> bool {
    input.keyboard(0xFD) & 0x1F == 0
}

#[test]
fn ending_a_game_holds_the_keys_on_frames_of_play_only() {
    let mut input = Input::default();
    assert!(end_game(Scene::Play, true, false, &mut input));
    assert!(ending(&input));
    assert_eq!(input.pad.bits, 0, "no move while playing");

    let mut input = Input::default();
    assert!(
        end_game(Scene::Play, false, false, &mut input),
        "still asked"
    );
    assert!(!ending(&input), "not during a death, a door or a booth");
}

#[test]
fn ending_a_paused_game_gives_the_move_that_resumes_it() {
    let mut input = Input::default();
    assert!(end_game(Scene::Play, false, true, &mut input));
    assert!(ending(&input));
    assert_ne!(
        input.pad.bits, 0,
        "a paused game reads nothing until a move"
    );
}

#[test]
fn the_request_ends_when_play_does() {
    let mut input = Input::default();
    assert!(!end_game(Scene::GameOver, true, false, &mut input));
    assert!(!ending(&input));
}

#[test]
fn an_unattended_run_presses_its_keys_on_schedule() {
    assert_eq!(scripted_keys(0), [0xFF; 8]);
    assert_eq!(scripted_keys(20)[4], 0xFE, "0 to leave the picture");
    assert_eq!(scripted_keys(60)[3], 0xFE, "1 for the joystick");
    assert_eq!(scripted_keys(100), [0xFF; 8]);
    assert_eq!(scripted_keys(112)[4], 0xFE);
    assert_eq!(scripted_keys(116)[4], 0xFF, "let go half the time");
}
