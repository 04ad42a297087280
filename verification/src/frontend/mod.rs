//! The frontend's own state and rules: the guidance picker, the booth's
//! code slots, the codes and scores kept between runs, the routes, and what
//! a gamepad means; and what the frontend does to the input it hands the
//! game.

pub mod booth;
pub mod codes;
pub mod gamepad;
pub mod guidance;
pub mod routes;
pub mod scores;

use vstd::prelude::*;
use crate::controls::Input;
use crate::game::Scene;

verus! {

/// The keyboard half-rows a run with nobody at the keys holds on `frame`.
pub open spec fn scripted_spec(frame: u64, row: int) -> u8 {
    if 20 <= frame < 40 {
        if row == 4 { 0xFEu8 } else { 0xFFu8 }
    } else if 60 <= frame < 80 {
        if row == 3 { 0xFEu8 } else { 0xFFu8 }
    } else if frame >= 110 && frame % 8 < 4 {
        if row == 4 { 0xFEu8 } else { 0xFFu8 }
    } else {
        0xFFu8
    }
}

/// Key presses that carry an unattended run past the loading screen and the
/// menu: any key to leave the picture, `1` to pick the joystick, then `0` to
/// start, which afterwards doubles as the any-key the waiting screens want.
pub fn scripted_keys(frame: u64) -> (keys: [u8; 8])
    ensures
        forall|r: int| 0 <= r < 8 ==> #[trigger] keys[r] == scripted_spec(frame, r),
{
    let mut keys = [0xFFu8; 8];
    if 20 <= frame && frame < 40 {
        keys[4] = 0xFE;
    } else if 60 <= frame && frame < 80 {
        keys[3] = 0xFE;
    } else if frame >= 110 && frame % 8 < 4 {
        keys[4] = 0xFE;
    }
    keys
}

/// "End this game": holds A, S, D, F and G, the original's own way to
/// abandon a game, and says whether the request still stands. BLOB's
/// control reads them on the play loop's own frames only (`play_work`), so
/// they are held on those frames and on no others: not during a death, a
/// door or a teleporter booth, which reads letters for its code. A paused
/// game waits for a move before it reads them, so while it is paused a move
/// is given with them: play goes on for the one frame in which BLOB's
/// control sees the keys and ends the game, before anything moves. The
/// request lasts until the game has left play, however long that takes.
pub fn end_game(scene: Scene, play_work: bool, paused: bool, input: &mut Input) -> (stands: bool)
    ensures
        stands == (scene == Scene::Play),
        final(input).kempston == old(input).kempston,
        final(input).pad.start == old(input).pad.start,
        final(input).pad.meaning == old(input).pad.meaning,
        final(input).keys@ == if stands && (play_work || paused) {
            old(input).keys@.update(1, old(input).keys[1] & !0x1Fu8)
        } else {
            old(input).keys@
        },
        final(input).pad.bits == if stands && paused { old(input).pad.bits | 0x01 } else { old(input).pad.bits },
{
    if scene != Scene::Play {
        return false;
    }
    if play_work || paused {
        input.keys[1] = input.keys[1] & !0x1Fu8;
    }
    if paused {
        input.pad.bits = input.pad.bits | 0x01;
    }
    true
}

} // verus!
