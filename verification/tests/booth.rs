use starquake::frontend::booth::Entry;

#[test]
fn letters_go_round_from_either_end() {
    let mut e = Entry::default();
    e.step(true);
    assert_eq!(e.slots[0], Some(b'A'));
    e.step(false);
    assert_eq!(e.slots[0], Some(b'Z'), "A down is Z");
    e.step(true);
    assert_eq!(e.slots[0], Some(b'A'), "Z up is A");
    let mut e = Entry::default();
    e.step(false);
    assert_eq!(e.slots[0], Some(b'Z'), "empty going down starts at Z");
}

#[test]
fn slots_stop_at_the_ends() {
    let mut e = Entry::default();
    e.move_to(false);
    assert_eq!(e.at, 0);
    for _ in 0..9 {
        e.move_to(true);
    }
    assert_eq!(e.at, 4);
}

#[test]
fn a_code_enters_only_when_full() {
    let mut e = Entry::default();
    e.step(true);
    assert_eq!(e.enter(), None, "four slots empty");
    for _ in 0..4 {
        e.move_to(true);
        e.step(true);
        e.step(true);
    }
    assert_eq!(e.enter(), Some(*b"ABBBB"));
    assert_eq!(e.enter(), None, "once");
    e.step(true);
    assert_eq!(e.slots[4], Some(b'B'), "nothing changes once entered");
}

#[test]
fn x_steps_through_the_seen_codes() {
    let seen = [*b"ABCDE", *b"FGHIJ"];
    let mut e = Entry::default();
    e.next_seen(&seen);
    assert_eq!(e.enter().map(|_| ()), Some(()));
    let mut e = Entry::default();
    e.next_seen(&seen);
    e.next_seen(&seen);
    assert_eq!(e.slots, seen[1].map(Some));
    e.next_seen(&seen);
    assert_eq!(e.slots, seen[0].map(Some), "round again");
    let mut e = Entry::default();
    e.next_seen(&[]);
    assert_eq!(e, Entry::default(), "nothing seen, nothing filled");
}

#[test]
fn b_clears() {
    let mut e = Entry::default();
    e.next_seen(&[*b"ABCDE"]);
    e.clear();
    assert_eq!(e, Entry::default());
}

#[test]
fn a_step_forgets_which_seen_code_was_filled_in() {
    let mut e = Entry::default();
    e.next_seen(&[*b"ABCDE"]);
    assert_eq!(e.seen, Some(0));
    e.step(true);
    assert_eq!(e.seen, None);
    assert_eq!(e.slots[4], Some(b'F'), "the last slot, where X leaves it");
}
