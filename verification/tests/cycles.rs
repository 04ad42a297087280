use starquake::bus::{Cycle, Cycles, Kind};
use starquake::cycles::cycles;
use starquake::decode::decode;
use starquake::machine::Zx;
use starquake::snapshot::Snapshot;

fn machine(code: &[u8]) -> Zx {
    let snap = Snapshot {
        a: 0, f: 0, b: 0, c: 0, d: 0, e: 0, h: 0, l: 0,
        a_: 0, f_: 0, b_: 0, c_: 0, d_: 0, e_: 0, h_: 0, l_: 0,
        ix: 0x6000, iy: 0, sp: 0xFF00, pc: 0x8000, i: 0x3F, r: 0,
        iff1: false, iff2: false, im: 1, border: 0,
        ram: vec![0; 0xC000],
    };
    let mut z = Zx::new(&snap, None);
    for (i, &b) in code.iter().enumerate() {
        z.mem[0x8000 + i] = b;
    }
    z
}

fn kinds(code: &[u8]) -> Vec<(u16, u32, Kind)> {
    let z = machine(code);
    let d = decode(&z.mem, 0x8000);
    cycles(&z, &d, 0x8000).as_slice().iter().map(|c: &Cycle| (c.at, c.len, c.kind)).collect()
}

#[test]
fn a_nop_is_one_fetch() {
    assert_eq!(kinds(&[0x00]), [(0x8000, 4, Kind::Read)]);
}

#[test]
fn an_immediate_load_reads_its_operand() {
    assert_eq!(kinds(&[0x3E, 0x12]), [(0x8000, 4, Kind::Read), (0x8001, 3, Kind::Read)]);
}

#[test]
fn the_cycles_of_an_indexed_store_add_up_to_its_time() {
    let z = machine(&[0xDD, 0x36, 0x05, 0x99]);
    let d = decode(&z.mem, 0x8000);
    let c = cycles(&z, &d, 0x8000);
    let total: u32 = c.as_slice().iter().map(|c| c.len).sum();
    assert_eq!(total, d.t as u32);
    assert_eq!(c.len(), 7, "two fetches, the displacement, the byte, two to add, the write");
}

#[test]
fn djnz_waits_only_when_it_jumps() {
    let mut z = machine(&[0x10, 0xFE]);
    z.b = 2;
    let d = decode(&z.mem, 0x8000);
    let taken: u32 = cycles(&z, &d, 0x8000).as_slice().iter().map(|c| c.len).sum();
    assert_eq!(taken, d.t as u32 + d.t_extra as u32);
    z.b = 1;
    let not: u32 = cycles(&z, &d, 0x8000).as_slice().iter().map(|c| c.len).sum();
    assert_eq!(not, d.t as u32);
}

#[test]
fn a_cycle_list_holds_at_most_twenty() {
    let mut c = Cycles::default();
    assert_eq!(c.len(), 0);
    for i in 0..25u16 {
        c.push(Cycle { at: i, len: 3, kind: Kind::Read });
    }
    assert_eq!(c.len(), Cycles::MAX);
    assert_eq!(c.as_slice()[19].at, 19, "the pushes past the capacity are dropped");
}
