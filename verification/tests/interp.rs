use starquake::interp::step;
use starquake::machine::Zx;
use starquake::snapshot::Snapshot;
use starquake::run::{Misses, NoCode};

fn machine(code: &[u8]) -> Zx {
    let snap = Snapshot {
        a: 0, f: 0, b: 0, c: 0, d: 0, e: 0, h: 0x12, l: 0x34,
        a_: 0, f_: 0, b_: 0, c_: 0, d_: 0, e_: 0, h_: 0, l_: 0,
        ix: 0x6000, iy: 0, sp: 0xFF00, pc: 0x8000, i: 0x3F, r: 0,
        iff1: false, iff2: false, im: 1, border: 0,
        ram: vec![0; 0xC000],
    };
    let mut z = Zx::new(&snap, None);
    for (i, &b) in code.iter().enumerate() {
        z.mem[0x8000 + i] = b;
    }
    z
}

#[test]
fn loads_and_arithmetic_change_what_they_name() {
    // LD A,5; ADD A,3; LD (8100h),A; PUSH AF; POP BC; INC HL; EX DE,HL
    let mut z = machine(&[0x3E, 0x05, 0xC6, 0x03, 0x32, 0x00, 0x81, 0xF5, 0xC1, 0x23, 0xEB]);
    step(&mut z);
    assert_eq!((z.a, z.pc, z.t), (5, 0x8002, 7));
    step(&mut z);
    assert_eq!(z.a, 8);
    assert_eq!(z.f, 0x08, "no flags but the copy of bit 3");
    step(&mut z);
    assert_eq!(z.mem[0x8100], 8);
    step(&mut z);
    assert_eq!(z.sp, 0xFEFE);
    assert_eq!((z.mem[0xFEFF], z.mem[0xFEFE]), (8, 0x08));
    step(&mut z);
    assert_eq!((z.b, z.c, z.sp), (8, 0x08, 0xFF00));
    step(&mut z);
    assert_eq!((z.h, z.l), (0x12, 0x35));
    step(&mut z);
    assert_eq!((z.d, z.e, z.h, z.l), (0x12, 0x35, 0, 0));
    assert_eq!(z.pc, 0x800B);
}

#[test]
fn a_taken_jump_costs_more() {
    // DJNZ back to itself, twice round with B = 2.
    let mut z = machine(&[0x10, 0xFE]);
    z.b = 2;
    step(&mut z);
    assert_eq!((z.b, z.pc, z.t), (1, 0x8000, 13));
    step(&mut z);
    assert_eq!((z.b, z.pc, z.t), (0, 0x8002, 21));
}

#[test]
fn writes_to_the_rom_are_lost() {
    // LD (0010h),A, with a ROM loaded and without one.
    let mut with_rom = machine(&[0x32, 0x10, 0x00]);
    with_rom.rom_loaded = true;
    with_rom.a = 0x55;
    step(&mut with_rom);
    assert_eq!(with_rom.mem[0x0010], 0);
    let mut without = machine(&[0x32, 0x10, 0x00]);
    without.a = 0x55;
    step(&mut without);
    assert_eq!(without.mem[0x0010], 0x55, "no ROM: the bottom 16K is plain memory");
}

#[test]
fn a_decimal_adjust_after_an_add_gives_the_decimal_sum() {
    let mut z = machine(&[0x00]);
    for (x, y, sum, carry) in [(0x45u8, 0x38u8, 0x83u8, false), (0x99, 0x01, 0x00, true), (0x50, 0x50, 0x00, true), (0x12, 0x34, 0x46, false)] {
        z.a = x;
        z.alu_add(y);
        z.daa();
        assert_eq!(z.a, sum);
        assert_eq!(z.f & 0x01 != 0, carry);
        assert_eq!(z.f & 0x02, 0);
        assert_eq!(z.f & 0x40 != 0, sum == 0);
    }
}

#[test]
fn a_frame_runs_its_instructions_and_counts_the_miss() {
    // A loop of NOPs: the frame runs it until its T-states are spent.
    let mut z = machine(&[0x00, 0x00, 0x18, 0xFC]);
    z.iff1 = false;
    let mut misses = Misses::default();
    let frame = z.frame;
    z.run_frame(&NoCode, &mut misses);
    assert_eq!(z.frame, frame + 1);
    assert!(z.t < 23, "what is left is the last instruction's overshoot");
    assert_eq!(misses.counts.len(), 1, "one interpreted run, counted where it started");
}

#[test]
fn a_run_to_an_address_takes_at_least_one_instruction() {
    let mut z = machine(&[0x00, 0x00, 0x18, 0xFC]);
    z.iff1 = false;
    let start = z.pc;
    assert!(z.run_until(start, 1));
    assert_eq!(z.pc, start);
    assert!(z.t > 0, "the loop went round once before it stopped");
}
