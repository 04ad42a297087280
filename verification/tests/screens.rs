use starquake::screens::{answered, code_items, match_slot, DOOR_CODE_AT, MASTER_KEY, WILDCARD};

#[test]
fn each_card_answers_one_slot_and_the_access_card_every_one() {
    let (two, four, eight) = (11, 12, 13);
    let none = [0; 4];
    assert_eq!(answered(&[two, four, eight], none), [false; 3]);
    assert_eq!(answered(&[two, four, eight], [four, 0, 0, 0]), [false, true, false]);
    assert_eq!(answered(&[two, two, eight], [two, 0, 0, 0]), [true, false, false], "one card answers one slot");
    assert_eq!(answered(&[two, four, eight], [MASTER_KEY, 0, 0, 0]), [true; 3]);
    assert_eq!(
        answered(&[two, four, eight], [WILDCARD, four, 0, 0]),
        [true, true, false],
        "the ? card stands in for the first card nothing else answers"
    );
}

#[test]
fn a_code_is_made_of_numbered_cards() {
    for seed in [0, 0x1234, 0xFFFF] {
        for room in [176, 210, 429] {
            let cards = code_items(seed, room, DOOR_CODE_AT.0, DOOR_CODE_AT.1);
            assert!(cards.iter().all(|c| (9..=13).contains(c)), "{cards:?}");
        }
    }
}

#[test]
fn a_code_mixes_the_seed_the_room_and_the_place() {
    // seed 0x1234: low 0x34, high 0x12; room 176 = 0xB0; row 0x11, col 0x0B.
    // first = 0x11 ^ 0x12 ^ 0xB0 = 0xB3; second = 0xB3 ^ 0x34 ^ 0x0B = 0x8C;
    // third = 0x8C ^ 0x12 ^ 0x11 = 0x8F.
    // cards: (0x33 % 5) + 9 = 1 + 9; (0x0C % 5) + 9 = 2 + 9; (0x0F % 5) + 9 = 0 + 9.
    assert_eq!(code_items(0x1234, 176, 0x11, 0x0B), [10, 11, 9]);
}

#[test]
fn the_access_card_stays_and_a_card_is_used_up() {
    assert_eq!(match_slot(11, [0, MASTER_KEY, 11, 0], 0), Some((1, false)));
    assert_eq!(match_slot(11, [0, MASTER_KEY, 11, 0], 4), Some((2, true)), "the access card's slot is taken");
    assert_eq!(match_slot(11, [WILDCARD, 0, 11, 0], 0), Some((2, true)), "the card before the ? card");
    assert_eq!(match_slot(12, [WILDCARD, 0, 11, 0], 0), Some((0, true)));
    assert_eq!(match_slot(12, [WILDCARD, 0, 11, 0], 8), None);
}
