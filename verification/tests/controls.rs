use starquake::controls::{any_key, key_code, key_position, Controls, Input, KEY_CODES, KEY_NAMES};

/// Controls in the shape every method has: Kempston values on five
/// distinct keys. The positions are made up, spread over several rows.
fn keyboard() -> Controls {
    Controls {
        kempston: false,
        initial: 0,
        keys: [
            (0xFB, 0, 0x02),
            (0xFD, 2, 0x04),
            (0xFD, 3, 0x08),
            (0xDF, 1, 0x01),
            (0x7F, 4, 0x10),
        ],
        pause: (0x7F, 0),
    }
}

#[test]
fn a_pad_moves_and_fires_in_every_kind_of_method() {
    for c in [
        keyboard(),
        Controls {
            kempston: true,
            ..keyboard()
        },
    ] {
        for bits in 0..0x20 {
            let mut input = Input::default();
            input.pad.bits = bits;
            assert_eq!(c.read(&input), bits, "bits {bits:#04x}");
        }
    }
}

#[test]
fn a_pad_types_nothing() {
    let mut input = Input::default();
    input.pad.bits = 0x1F;
    input.pad.start = true;
    assert!(!any_key(&input), "no key is held");
    assert!(input.pad.any(), "but the pad is");
}

#[test]
fn the_pad_adds_to_the_methods_own_keys() {
    let c = keyboard();
    let mut input = Input::default();
    input.press_key((0xFB, 0));
    input.pad.bits = 0x01;
    assert_eq!(
        c.read(&input),
        0x03,
        "left from the keys, right from the pad"
    );
}

#[test]
fn pause_is_the_methods_own_key_or_start() {
    let c = keyboard();
    let mut input = Input::default();
    assert!(!c.pause_pressed(&input));
    input.press_key(c.pause);
    assert!(c.pause_pressed(&input));
    let mut input = Input::default();
    input.pad.start = true;
    assert!(c.pause_pressed(&input));
}

#[test]
fn rows_whose_line_is_low_are_combined() {
    let mut input = Input::default();
    input.press_key((0xFE, 0));
    input.press_key((0xFD, 3));
    assert_eq!(input.keyboard(0xFE), 0x1E);
    assert_eq!(input.keyboard(0xFD), 0x17);
    assert_eq!(input.keyboard(0xFC), 0x16);
    assert_eq!(input.keyboard(0xFF), 0x1F, "no row selected");
    assert!(any_key(&input));
}

/// A memory image whose key tables name and code every key by its place.
fn ram() -> Vec<u8> {
    let mut ram = vec![0u8; 0x10000];
    for k in 0..40 {
        ram[KEY_NAMES + k] = b'a' + k as u8;
        ram[KEY_CODES + k] = 0x40 + k as u8;
    }
    ram
}

#[test]
fn one_key_held_gives_its_code_and_two_give_none() {
    let ram = ram();
    let mut input = Input::default();
    assert_eq!(key_code(&ram, &input), 0, "none held");
    input.press_key((0xFB, 2));
    assert_eq!(key_code(&ram, &input), 0x40 + 12);
    input.press_key((0x7F, 4));
    assert_eq!(key_code(&ram, &input), 0, "two held");
}

#[test]
fn a_key_is_found_by_its_name() {
    let ram = ram();
    assert_eq!(key_position(&ram, b'a'), Some((0xFE, 0)));
    assert_eq!(key_position(&ram, b'a' + 12), Some((0xFB, 2)));
    assert_eq!(key_position(&ram, b'a' + 39), Some((0x7F, 4)));
    assert_eq!(key_position(&ram, b'Z'), None);
}

#[test]
fn keys_are_set_by_name_in_the_tables_order() {
    let ram = ram();
    let mut c = keyboard();
    c.set_keys(&ram, [b'a', b'a' + 1, b'a' + 2, b'a' + 3, b'a' + 4], b'a' + 39);
    assert_eq!(c.keys[0], (0xFE, 0, 0x02), "left");
    assert_eq!(c.keys[3], (0xFE, 1, 0x01), "right");
    assert_eq!(c.keys[1], (0xFE, 2, 0x04), "down");
    assert_eq!(c.keys[2], (0xFE, 3, 0x08), "up");
    assert_eq!(c.keys[4], (0xFE, 4, 0x10), "fire");
    assert_eq!(c.pause, (0x7F, 4));
}

#[test]
fn controls_are_read_from_the_operands() {
    let mut mem = vec![0u8; 0x10000];
    mem[0xC567] = 1;
    mem[0xC57A] = 0xFB;
    mem[0xC57E] = 0x42 + (3 << 3);
    mem[0xC582] = 0x02;
    mem[0xC55C] = 0x7F;
    mem[0xC560] = 0x47 + (2 << 3);
    let c = Controls::from_memory(&mem);
    assert!(c.kempston);
    assert_eq!(c.keys[0], (0xFB, 3, 0x02));
    assert_eq!(c.pause, (0x7F, 2));
}
