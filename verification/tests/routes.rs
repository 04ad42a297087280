use starquake::frontend::routes::{choose_route, walked_steps};
use starquake::map::Step;

#[test]
fn a_switch_goes_through_the_three_and_back_to_the_nearest() {
    let ends = [101, 102, 103];
    assert_eq!(choose_route(&ends, None, false), (0, None), "the nearest");
    assert_eq!(choose_route(&ends, None, true), (1, Some(102)));
    assert_eq!(choose_route(&ends, Some(102), false), (1, Some(102)), "kept");
    assert_eq!(choose_route(&ends, Some(102), true), (2, Some(103)));
    assert_eq!(choose_route(&ends, Some(103), true), (0, None), "round again");
    // The chosen room moved nearer: it stays chosen.
    assert_eq!(choose_route(&[102, 101, 103], Some(102), false), (0, Some(102)));
    // The chosen room is gone: back to the nearest.
    assert_eq!(choose_route(&[101, 103, 104], Some(102), false), (0, None));
    assert_eq!(choose_route(&[101, 103, 104], Some(102), true), (1, Some(103)));
    assert_eq!(
        choose_route(&[101], None, true),
        (0, None),
        "one: nothing to switch to"
    );
    assert_eq!(choose_route(&[], Some(102), true), (0, None), "none");
}

#[test]
fn walked_steps_leave_out_the_jumps() {
    let route = [
        Step {
            room: 11,
            teleport: false,
        },
        Step {
            room: 300,
            teleport: true,
        },
        Step {
            room: 316,
            teleport: false,
        },
    ];
    assert_eq!(walked_steps(10, Some(&route)), [(10, 11), (300, 316)]);
    assert!(walked_steps(10, None).is_empty());
}
