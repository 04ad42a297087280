use starquake::frontend::gamepad::{Gamepad, Layout, Pad, Reading};

#[test]
fn the_maker_decides_the_letters() {
    assert_eq!(Layout::of(Some(0x057E)), Layout::Nintendo);
    assert_eq!(Layout::of(Some(0x054C)), Layout::PlayStation);
    assert_eq!(Layout::of(Some(0x045E)), Layout::Xbox, "Microsoft's");
    assert_eq!(Layout::of(None), Layout::Xbox, "unknown: Xbox letters");
}

#[test]
fn what_closed_the_picker_is_kept_from_the_game_until_let_go() {
    let mut pad = Gamepad::none();
    let held = |bits: u8| Pad {
        bits,
        ..Pad::default()
    };
    pad.hold_back_held();
    let mut down = held(0x04);
    pad.hold_back(&mut down);
    assert_eq!(down.bits, 0, "the bottom button that closed it");
    let mut down_and_left = held(0x04 | 0x02);
    pad.hold_back(&mut down_and_left);
    assert_eq!(down_and_left.bits, 0x02, "a new press gets through");
    let mut let_go = held(0);
    pad.hold_back(&mut let_go);
    let mut down_again = held(0x04);
    pad.hold_back(&mut down_again);
    assert_eq!(down_again.bits, 0x04, "pressed again after letting go");
}

#[test]
fn a_confirms_wherever_it_is() {
    let bottom = Pad {
        south: true,
        ..Pad::default()
    };
    let right = Pad {
        east: true,
        ..Pad::default()
    };
    for layout in [Layout::Xbox, Layout::PlayStation] {
        assert!(Pad { layout, ..bottom }.confirm(), "{layout:?}");
        assert!(Pad { layout, ..right }.cancel(), "{layout:?}");
    }
    let nintendo = Layout::Nintendo;
    assert!(
        Pad {
            layout: nintendo,
            ..right
        }
        .confirm()
    );
    assert!(
        Pad {
            layout: nintendo,
            ..bottom
        }
        .cancel()
    );
    assert!(
        !Pad {
            layout: nintendo,
            ..bottom
        }
        .confirm()
    );
}

#[test]
fn a_press_is_a_button_down_now_and_not_before() {
    let mut pad = Gamepad::none();
    let mut now = [false; 7];
    now[0] = true;
    now[5] = true;
    let reading = Reading { dirs: 0x01, buttons: 0x04, start: false, now, layout: Layout::Xbox };
    let first = pad.read(reading);
    assert!(first.select && first.south);
    assert_eq!(first.bits, 0x05);
    let second = pad.read(reading);
    assert!(!second.select && !second.south, "held, not pressed again");
    assert_eq!(second.bits, 0x05, "the bits stay while held");
}
