use starquake::frontend::codes::Kept;
use starquake::game::SeenTeleporter;

#[test]
fn the_file_holds_each_code_and_its_room() {
    let mut kept = Kept::default();
    assert!(kept.add(190, *b"ABCDE"));
    assert!(kept.add(252, *b"FGHIJ"));
    assert_eq!(kept.text(), "ABCDE 190\nFGHIJ 252\n");
    assert_eq!(Kept::parse(&kept.text()), kept);
}

#[test]
fn a_code_is_kept_once() {
    let mut kept = Kept::default();
    assert!(kept.add(190, *b"ABCDE"));
    assert!(!kept.add(190, *b"ABCDE"), "not new");
    assert_eq!(kept.codes.len(), 1);
}

#[test]
fn a_broken_line_loses_only_itself() {
    let kept = Kept::parse("ABCDE 190\nABC 1\nFGHIJ x\n\nKLMNO 300\n");
    let rooms: Vec<u16> = kept.codes.iter().map(|t| t.room).collect();
    assert_eq!(rooms, [190, 300]);
}

#[test]
fn seen_codes_come_first_and_kept_ones_are_not_listed_twice() {
    let mut kept = Kept::default();
    kept.add(190, *b"ABCDE");
    kept.add(252, *b"FGHIJ");
    let seen = [SeenTeleporter {
        room: 252,
        code: *b"FGHIJ",
    }];
    let all = kept.with_seen(&seen);
    let rooms: Vec<u16> = all.iter().map(|t| t.room).collect();
    assert_eq!(rooms, [252, 190]);
}

#[test]
fn lines_are_read_as_the_standard_library_reads_them() {
    let kept = Kept::parse("  ABCDE   +0190 \r\nFGHIJ 65536\nKLM\u{e9} 1\nPQRST 7");
    let rooms: Vec<u16> = kept.codes.iter().map(|t| t.room).collect();
    assert_eq!(rooms, [190, 7], "a sign, spaces and a CR are read; too big a room and a letter past ASCII are not");
    assert_eq!(&kept.codes[1].code, b"PQRST", "the last line needs no newline");
}

#[test]
fn a_code_that_is_not_ascii_is_written_as_the_lossy_text_of_its_bytes() {
    let kept = Kept { codes: vec![SeenTeleporter { room: 1, code: [b'A', 0xFF, b'B', b'C', b'D'] }] };
    assert_eq!(kept.text(), "A\u{fffd}BCD 1\n");
}
