use starquake::analysis::analyze;
use starquake::config::{Analysis as Hints, Config, Game, Trace as TraceConfig};
use starquake::listing::listing;
use starquake::trace::Trace;

fn config() -> Config {
    Config {
        game: Game {
            name: "test".to_string(),
            snapshot: "test.z80".to_string(),
            snapshot_sha1: None,
            rom: None,
            rom_sha1: None,
        },
        analysis: Hints::default(),
        trace: TraceConfig::default(),
    }
}

/// `CALL 8010h; JP 8000h` at 8000h, data, and `RET` at 8010h.
fn program() -> Vec<u8> {
    let mut mem = vec![0u8; 0x10000];
    mem[0x8000..0x8006].copy_from_slice(&[0xCD, 0x10, 0x80, 0xC3, 0x00, 0x80]);
    mem[0x8006..0x8009].copy_from_slice(b"HI!");
    mem[0x8010] = 0xC9;
    mem
}

#[test]
fn code_is_labelled_and_data_dumped() {
    let a = analyze(&config(), &program(), 0x8000, false, &Trace::new(), &[]);
    let mut expected = String::new();
    expected += "\nl_8000:  ; from 8003\n";
    expected += &format!("8000   {:<12} call $8010\n", "cd 10 80");
    expected += "\nl_8003:\n";
    expected += &format!("8003   {:<12} jp $8000\n", "c3 00 80");
    expected += &format!("8006   db {:<47} ; HI!.......\n", "48 49 21 00 00 00 00 00 00 00");
    expected += "\nsub_8010:  ; from 8000\n";
    expected += &format!("8010   {:<12} ret\n", "c9");
    expected += &format!("8011   db {:<47} ; ..\n", "00 00");
    assert_eq!(listing(&a, &Trace::new(), 0x8000, 0x8012), expected);
}

#[test]
fn the_trace_marks_what_ran_and_what_changed() {
    let a = analyze(&config(), &program(), 0x8000, false, &Trace::new(), &[]);
    let mut t = Trace::new();
    t.executed[0x8010] = Some((1, [0xC9, 0, 0, 0]));
    t.self_modified[0x8010] = true;
    t.written_code[0x8012] = true;
    let mut expected = String::new();
    expected += "\nsub_8010:  ; from 8000\n";
    expected += &format!("8010 * {:<12} ret  ; SELF-MODIFIED\n", "c9");
    expected += &format!("8011   db {:<47} ; ..... (written)\n", "00 00 00 00 00");
    assert_eq!(listing(&a, &t, 0x8010, 0x8015), expected);
}

#[test]
fn an_empty_range_lists_nothing() {
    let a = analyze(&config(), &program(), 0x8000, false, &Trace::new(), &[]);
    assert_eq!(listing(&a, &Trace::new(), 0x8001, 0x8000), "");
}
