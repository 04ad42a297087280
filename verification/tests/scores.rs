use starquake::frontend::guidance::{Record, LEVELS};
use starquake::frontend::scores::{Keeper, Kept, ENTRY, HEROES};
use starquake::game::Training;

/// A table of eight entries, AAA down to HHH, scores 8000 down to 1000.
fn shipped() -> Vec<u8> {
    (0..HEROES)
        .flat_map(|i| {
            let c = b'A' + i as u8;
            let mut e = vec![c, c, c];
            e.extend_from_slice(format!("00{}000", 8 - i).as_bytes());
            e.push(10 * i as u8);
            e
        })
        .collect()
}

/// `table` with an entry put in at `at`, as the game does.
fn with_entry(table: &[u8], at: usize, name: &[u8; 3]) -> Vec<u8> {
    let mut t = table[..at * ENTRY].to_vec();
    t.extend_from_slice(name);
    t.extend_from_slice(b"005500");
    t.push(42);
    t.extend_from_slice(&table[at * ENTRY..(HEROES - 1) * ENTRY]);
    t
}

const PLAYED: Record = Record {
    highest: 3,
    training: false,
    switches: Training([false; 5]),
};

#[test]
fn the_file_holds_the_table_and_its_levels() {
    let mut keeper = Keeper::new(None, &shipped());
    let now = with_entry(&shipped(), 3, b"J N");
    let saved = keeper.heroes(&now, Some(3), PLAYED).unwrap().clone();
    assert_eq!(saved.levels[3], Some(3));
    assert_eq!(saved.levels[2], None, "the tape's own");
    let read = Kept::parse(&saved.text()).unwrap();
    assert_eq!(read, saved, "{}", saved.text());
    assert_eq!(&read.name(3), b"J N", "a space in the initials");
}

#[test]
fn levels_move_down_with_their_entries() {
    let mut keeper = Keeper::new(None, &shipped());
    let first = with_entry(&shipped(), 5, b"ONE");
    keeper.heroes(&first, Some(5), PLAYED);
    let second = with_entry(&first, 1, b"TWO");
    let top = Record {
        highest: (LEVELS.len() - 1) as u8,
        training: false,
        switches: Training::default(),
    };
    let saved = keeper.heroes(&second, Some(1), top).unwrap().clone();
    assert_eq!(saved.levels[1], Some(top.highest));
    assert_eq!(saved.levels[6], Some(3), "ONE moved down one");
    assert!(
        Kept::parse(&saved.text()).is_some(),
        "the top level reads back"
    );
}

#[test]
fn a_game_with_training_is_shown_and_then_put_back() {
    let mut keeper = Keeper::new(None, &shipped());
    let now = with_entry(&shipped(), 0, b"TRN");
    let training = Record {
        highest: 0,
        training: true,
        switches: Training([true, false, false, false, false]),
    };
    assert!(
        keeper.heroes(&now, Some(0), training).is_none(),
        "not saved"
    );
    assert_eq!(keeper.shown(), Some(shipped()), "put back");
    assert_eq!(keeper.shown(), None);
}

#[test]
fn a_damaged_file_is_left_alone() {
    let mut keeper = Keeper::new(Some("not a table"), &shipped());
    assert_eq!(keeper.kept.table, shipped(), "the tape's own table");
    let now = with_entry(&shipped(), 0, b"NEW");
    assert!(
        keeper.heroes(&now, Some(0), PLAYED).is_none(),
        "never written"
    );
}

#[test]
fn a_file_with_a_level_this_program_does_not_have_is_not_a_table() {
    let mut text = Kept::from_tape(&shipped()).text();
    text = text.replacen(" -\n", " 99\n", 1);
    assert!(Kept::parse(&text).is_none());
}

#[test]
fn the_file_reads_as_it_is_written() {
    let text = Kept::from_tape(&shipped()).text();
    assert!(text.starts_with("AAA 008000 0 -\nBBB 007000 10 -\n"), "{text}");
    let read = Kept::parse(&format!("\n{text}\n  \n")).unwrap();
    assert_eq!(read.table, shipped(), "blank lines are not entries");
    assert!(Kept::parse(&text.replacen("008000", "8000", 1)).is_none(), "six digits a score");
    assert!(Kept::parse(&text.replacen(" -\n", " - x\n", 1)).is_none(), "nothing after the level");
}
