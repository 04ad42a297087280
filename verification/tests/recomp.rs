use starquake::analysis::{Analysis, Stats};
use starquake::recomp::{misses_of, report};

#[test]
fn the_report_counts_and_lists_self_modifying_code() {
    let a = Analysis {
        image: Vec::new(),
        rom_loaded: false,
        blocks: Vec::new(),
        stats: Stats {
            traced_entries: 7,
            traced_instrs: 1234,
            self_modifying: vec![0x8000, 0xbeef],
            entries: 12,
            instrs: 345,
        },
        code_starts: Vec::new(),
        call_targets: Vec::new(),
        entries: Vec::new(),
    };
    assert_eq!(
        report(&a),
        "traced instructions:   1234\n\
         traced entry points:   7\n\
         blocks generated:      12\n\
         instructions compiled: 345\n\
         self-modifying instrs: 2\n  8000\n  beef\n"
    );
}

#[test]
fn the_miss_log_gives_one_address_a_line() {
    assert_eq!(misses_of("8000\n0x9abc seen 3 times\n\n  0XFF\nzz\n+ff\n10000\n0x0x12\r\n"), [0x8000, 0x9abc, 0xff, 0x12]);
    assert_eq!(misses_of(""), Vec::<u16>::new());
}
