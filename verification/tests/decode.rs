use starquake::decode::{decode, Decoded};

fn dec(bytes: &[u8]) -> Decoded {
    let mut mem = [0u8; 8];
    mem[..bytes.len()].copy_from_slice(bytes);
    decode(&mem, 0)
}

fn dis(bytes: &[u8]) -> (String, u8, u8) {
    let d = dec(bytes);
    (d.instr.text(), d.len, d.t)
}

#[test]
fn main_table() {
    assert_eq!(dis(&[0x00]), ("nop".into(), 1, 4));
    assert_eq!(dis(&[0x7e]), ("ld a,(hl)".into(), 1, 7));
    assert_eq!(dis(&[0x36, 0x12]), ("ld (hl),$12".into(), 2, 10));
    assert_eq!(dis(&[0x21, 0x34, 0x12]), ("ld hl,$1234".into(), 3, 10));
    assert_eq!(dis(&[0x2a, 0x34, 0x12]), ("ld hl,($1234)".into(), 3, 16));
    assert_eq!(dis(&[0x18, 0xfe]), ("jr $0000".into(), 2, 12));
    assert_eq!(dis(&[0x10, 0x02]), ("djnz $0004".into(), 2, 8));
    assert_eq!(dis(&[0xcd, 0xa9, 0x30]), ("call $30a9".into(), 3, 17));
    assert_eq!(dis(&[0xc9]), ("ret".into(), 1, 10));
    assert_eq!(dis(&[0xe6, 0x0f]), ("and $0f".into(), 2, 7));
    assert_eq!(dis(&[0xff]), ("rst $38".into(), 1, 11));
}

#[test]
fn index_prefixes() {
    assert_eq!(dis(&[0xdd, 0x7e, 0x05]), ("ld a,(ix+$05)".into(), 3, 19));
    assert_eq!(dis(&[0xfd, 0x66, 0xfe]), ("ld h,(iy-$02)".into(), 3, 19));
    assert_eq!(dis(&[0xdd, 0x36, 0x01, 0x99]), ("ld (ix+$01),$99".into(), 4, 19));
    assert_eq!(dis(&[0xdd, 0x34, 0x01]), ("inc (ix+$01)".into(), 3, 23));
    assert_eq!(dis(&[0xdd, 0x7c]), ("ld a,ixh".into(), 2, 8));
    assert_eq!(dis(&[0xdd, 0x21, 0, 0x60]), ("ld ix,$6000".into(), 4, 14));
    assert_eq!(dis(&[0xdd, 0xe9]), ("jp (ix)".into(), 2, 8));
    assert_eq!(dis(&[0xdd, 0xeb]), ("ex de,hl".into(), 2, 8));
    assert_eq!(dis(&[0xdd, 0xdd]), ("nop".into(), 1, 4));
}

#[test]
fn cb_ed() {
    assert_eq!(dis(&[0xcb, 0x46]), ("bit 0,(hl)".into(), 2, 12));
    assert_eq!(dis(&[0xcb, 0x11]), ("rl c".into(), 2, 8));
    assert_eq!(dis(&[0xdd, 0xcb, 0x03, 0xc6]), ("set 0,(ix+$03)".into(), 4, 23));
    assert_eq!(dis(&[0xfd, 0xcb, 0x03, 0x00]), ("rlc (iy+$03),b".into(), 4, 23));
    assert_eq!(dis(&[0xed, 0xb0]), ("ldir".into(), 2, 16));
    assert_eq!(dis(&[0xed, 0x52]), ("sbc hl,de".into(), 2, 15));
    assert_eq!(dis(&[0xed, 0x5f]), ("ld a,r".into(), 2, 9));
    assert_eq!(dis(&[0xed, 0x73, 0x00, 0x80]), ("ld ($8000),sp".into(), 4, 20));
    assert_eq!(dis(&[0xed, 0x00]), ("nop".into(), 2, 8));
}
