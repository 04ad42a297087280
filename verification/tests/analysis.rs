use starquake::analysis::{analyze, Exit};
use starquake::config::{Analysis as Hints, Config, Game, Trace as TraceConfig};
use starquake::trace::Trace;

fn config(hints: Hints) -> Config {
    Config {
        game: Game {
            name: "test".to_string(),
            snapshot: "test.z80".to_string(),
            snapshot_sha1: None,
            rom: None,
            rom_sha1: None,
        },
        analysis: hints,
        trace: TraceConfig::default(),
    }
}

/// `CALL 8010h; JP 8000h` at 8000h, and `RET` at 8010h.
fn program() -> Vec<u8> {
    let mut mem = vec![0u8; 0x10000];
    mem[0x8000..0x8006].copy_from_slice(&[0xCD, 0x10, 0x80, 0xC3, 0x00, 0x80]);
    mem[0x8010] = 0xC9;
    mem
}

#[test]
fn calls_their_returns_and_jumps_become_blocks() {
    let cfg = config(Hints::default());
    let a = analyze(&cfg, &program(), 0x8000, false, &Trace::new(), &[]);
    let starts: Vec<u16> = a.blocks.iter().map(|b| b.start).collect();
    assert_eq!(starts, [0x8000, 0x8003, 0x8010]);
    assert!(a.call_targets[0x8010]);
    assert!(a.code_starts[0x8003] && a.code_starts[0x8010] && !a.code_starts[0x8001]);
    assert!(a.blocks.iter().all(|b| b.exit == Exit::Terminated && b.instrs.len() == 1));
    assert_eq!(a.stats.entries, 3);
    assert_eq!(a.stats.instrs, 3);
    assert_eq!(a.stats.traced_instrs, 0);
}

#[test]
fn a_call_that_never_returns_ends_the_walk() {
    let mut hints = Hints::default();
    hints.noreturn.push(0x8010);
    let cfg = config(hints);
    let a = analyze(&cfg, &program(), 0x8000, false, &Trace::new(), &[]);
    let starts: Vec<u16> = a.blocks.iter().map(|b| b.start).collect();
    assert_eq!(starts, [0x8000, 0x8010], "nothing after the call");
    assert!(!a.code_starts[0x8003]);
}

#[test]
fn rom_code_is_left_alone_without_the_rom() {
    let cfg = config(Hints::default());
    let a = analyze(&cfg, &program(), 0x0100, false, &Trace::new(), &[0x8000]);
    assert!(!a.entries[0x0100], "the snapshot's PC is in the ROM");
    assert!(a.entries[0x8000], "an extra entry point is walked");
}

#[test]
fn long_runs_are_split() {
    let mut mem = vec![0u8; 0x10000];
    mem[0x8005] = 0xC9;
    let mut hints = Hints::default();
    hints.max_block_instrs = 2;
    let cfg = config(hints);
    let a = analyze(&cfg, &mem, 0x8000, false, &Trace::new(), &[]);
    let starts: Vec<u16> = a.blocks.iter().map(|b| b.start).collect();
    assert_eq!(starts, [0x8000, 0x8002], "split points are found in one pass");
    assert_eq!(a.blocks[0].exit, Exit::FallInto(0x8002));
    assert_eq!(a.blocks[1].exit, Exit::FallInto(0x8004), "left to the dispatcher");
}

#[test]
fn traced_bytes_are_what_is_compiled() {
    let mut trace = Trace::new();
    trace.executed[0x8000] = Some((1, [0xC9, 0, 0, 0]));
    trace.entries[0x8000] = true;
    let cfg = config(Hints::default());
    let a = analyze(&cfg, &vec![0u8; 0x10000], 0x8000, false, &trace, &[]);
    assert_eq!(a.image[0x8000], 0xC9);
    assert_eq!(a.stats.traced_instrs, 1);
    assert_eq!(a.stats.traced_entries, 1);
    assert_eq!(a.blocks.len(), 1);
}
