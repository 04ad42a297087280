//! `.tap` tape loader: the blocks a Spectrum would load from cassette.
//!
//! A tape is a sequence of blocks, each a two-byte length followed by that
//! many bytes: a flag (0x00 for a header, 0xFF for data), the payload, and
//! a checksum. A header says what the block after it is and, for code,
//! where it loads.

use vstd::prelude::*;
use vstd::string::StringExecFns;
use crate::snapshot::{memory_from, with_rom_zeroed};
use crate::text::{hex4, hex_min, push_hex4, push_hex_min};

verus! {

/// Bytes of a Spectrum screen: bitmap then attributes.
pub const SCREEN_LEN: usize = 6912;

pub const HEADER: u8 = 0x00;
pub const DATA: u8 = 0xFF;
pub const CODE: u8 = 3;
pub const SCREEN_ADDR: u16 = 0x4000;

/// A loaded tape.
pub struct Tape {
    /// Contents of 0x4000..=0xFFFF, as the code blocks left it.
    pub ram: Vec<u8>,
    /// The picture shown while the rest of the tape loaded, if it has one.
    pub loading_screen: Option<Vec<u8>>,
}

impl Tape {
    /// Full 64K address space with the RAM in place and zeros for the ROM.
    pub fn memory(&self) -> (mem: Vec<u8>)
        requires
            self.ram@.len() <= 0xC000,
        ensures
            mem@ == with_rom_zeroed(self.ram@),
    {
        memory_from(&self.ram)
    }
}

/// Where the reading has got to: the RAM so far, the loading screen if one
/// has been seen, where the block after the last header loads (start and
/// length), and how many bytes have been loaded.
pub ghost struct TapState {
    pub ram: Seq<u8>,
    pub screen: Option<Seq<u8>>,
    pub pending: Option<(int, int)>,
    pub loaded: int,
}

/// Why a tape cannot be loaded.
pub ghost enum TapError {
    /// A block's length runs past the end of the tape, or is too short to
    /// hold a flag and a checksum; the offset of its bytes.
    Truncated(int),
    /// A code block would load outside RAM; where it would start.
    Outside(int),
    /// Nothing was loaded.
    NoCode,
}

/// `ram` with `data` written over it from `at`.
pub open spec fn splice(ram: Seq<u8>, at: int, data: Seq<u8>) -> Seq<u8> {
    ram.take(at) + data + ram.skip(at + data.len())
}

pub open spec fn le16(b: Seq<u8>, i: int) -> int {
    b[i] as int + 256 * b[i + 1] as int
}

/// What one block does to the reading.
pub open spec fn apply_block(block: Seq<u8>, s: TapState) -> Result<TapState, TapError> {
    if block[0] == HEADER && block.len() >= 19 {
        Ok(
            TapState {
                pending: if block[1] == CODE {
                    Some((le16(block, 14), le16(block, 12)))
                } else {
                    None
                },
                ..s
            },
        )
    } else if block[0] == DATA {
        match s.pending {
            None => Ok(s),
            Some((start, length)) => {
                let data = block.subrange(1, block.len() - 1);
                let n = if length < data.len() { length } else { data.len() as int };
                if start < 0x4000 || start + n > 0x10000 {
                    Err(TapError::Outside(start))
                } else {
                    Ok(
                        TapState {
                            ram: splice(s.ram, start - 0x4000, data.take(n)),
                            screen: if start == SCREEN_ADDR && n == SCREEN_LEN && s.screen is None {
                                Some(data.take(n))
                            } else {
                                s.screen
                            },
                            pending: None,
                            loaded: s.loaded + n,
                        },
                    )
                }
            },
        }
    } else {
        Ok(TapState { pending: None, ..s })
    }
}

/// Reads the blocks from offset `i` on.
pub open spec fn tap_run(bytes: Seq<u8>, i: int, s: TapState) -> Result<TapState, TapError>
    decreases bytes.len() - i,
{
    if i < 0 || i + 2 > bytes.len() {
        Ok(s)
    } else {
        let len = le16(bytes, i);
        let j = i + 2;
        if len < 2 || j + len > bytes.len() {
            Err(TapError::Truncated(j))
        } else {
            match apply_block(bytes.subrange(j, j + len), s) {
                Err(e) => Err(e),
                Ok(s2) => tap_run(bytes, j + len, s2),
            }
        }
    }
}

/// The state before the first block: 48K of zeros.
pub open spec fn tap_start() -> TapState {
    TapState { ram: Seq::new(0xC000, |i: int| 0u8), screen: None, pending: None, loaded: 0 }
}

/// What a tape loads: the RAM and loading screen, or why it cannot.
pub open spec fn tap_spec(bytes: Seq<u8>) -> Result<(Seq<u8>, Option<Seq<u8>>), TapError> {
    match tap_run(bytes, 0, tap_start()) {
        Err(e) => Err(e),
        Ok(s) => if s.loaded == 0 {
            Err(TapError::NoCode)
        } else {
            Ok((s.ram, s.screen))
        },
    }
}

/// The message for an error.
pub open spec fn tap_error_text(e: TapError) -> Seq<char> {
    match e {
        TapError::Truncated(at) => "truncated tape block at 0x"@ + hex_min(at as nat),
        TapError::Outside(at) => "tape block loads outside RAM at 0x"@ + hex4(at),
        TapError::NoCode => "no code blocks on the tape"@,
    }
}

pub open spec fn screen_view(s: Option<Vec<u8>>) -> Option<Seq<u8>> {
    match s {
        Some(v) => Some(v@),
        None => None,
    }
}

/// Loads every code block on a `.tap`, in the order the Spectrum would.
#[verifier::rlimit(60)]
pub fn load_tap(bytes: &[u8]) -> (r: Result<Tape, String>)
    requires
        bytes@.len() + 0x20000 <= usize::MAX,
    ensures
        match tap_spec(bytes@) {
            Ok((ram, screen)) => r is Ok && r->Ok_0.ram@ == ram && screen_view(r->Ok_0.loading_screen)
                == screen,
            Err(e) => r is Err && r->Err_0@ == tap_error_text(e),
        },
        r is Ok ==> r->Ok_0.ram@.len() == 0xC000,
{
    let mut ram: Vec<u8> = Vec::new();
    let mut z: usize = 0;
    while z < 0xC000
        invariant
            z <= 0xC000,
            ram@ == Seq::new(z as nat, |i: int| 0u8),
        decreases 0xC000 - z,
    {
        ram.push(0);
        z = z + 1;
        assert(ram@ =~= Seq::new(z as nat, |i: int| 0u8));
    }
    let mut loading_screen: Option<Vec<u8>> = None;
    let mut pending: Option<(u16, usize)> = None;
    let mut loaded: usize = 0;
    let mut i: usize = 0;

    while i + 2 <= bytes.len()
        invariant
            bytes@.len() + 0x20000 <= usize::MAX,
            i <= bytes@.len(),
            ram@.len() == 0xC000,
            loaded <= i,
            tap_run(bytes@, 0, tap_start()) == tap_run(
                bytes@,
                i as int,
                TapState {
                    ram: ram@,
                    screen: screen_view(loading_screen),
                    pending: match pending {
                        Some((s, l)) => Some((s as int, l as int)),
                        None => None,
                    },
                    loaded: loaded as int,
                },
            ),
        decreases bytes@.len() - i,
    {
        let ghost s0 = TapState {
            ram: ram@,
            screen: screen_view(loading_screen),
            pending: match pending {
                Some((s, l)) => Some((s as int, l as int)),
                None => None,
            },
            loaded: loaded as int,
        };
        let len = bytes[i] as usize + 256 * (bytes[i + 1] as usize);
        let j = i + 2;
        if len < 2 || j + len > bytes.len() {
            let mut msg = String::new();
            msg.append("truncated tape block at 0x");
            push_hex_min(&mut msg, j as u64);
            return Err(msg);
        }
        let ghost block = bytes@.subrange(j as int, (j + len) as int);
        assert(block[0] == bytes@[j as int]);
        let flag = bytes[j];
        if flag == HEADER && len >= 19 {
            if bytes[j + 1] == CODE {
                let length = bytes[j + 12] as usize + 256 * (bytes[j + 13] as usize);
                let start = bytes[j + 14] as u16 + 256 * (bytes[j + 15] as u16);
                pending = Some((start, length));
            } else {
                pending = None;
            }
        } else if flag == DATA {
            match pending {
                None => {},
                Some((start, length)) => {
                    pending = None;
                    let dlen = len - 2;
                    let n = if length < dlen { length } else { dlen };
                    let at = start as usize;
                    if at < 0x4000 || at + n > 0x10000 {
                        let mut msg = String::new();
                        msg.append("tape block loads outside RAM at 0x");
                        push_hex4(&mut msg, start);
                        return Err(msg);
                    }
                    let ghost data = block.subrange(1, block.len() - 1);
                    if at == SCREEN_ADDR as usize && n == SCREEN_LEN && loading_screen.is_none() {
                        let mut shot: Vec<u8> = Vec::new();
                        let mut k: usize = 0;
                        while k < n
                            invariant
                                k <= n,
                                n <= dlen,
                                dlen == len - 2,
                                j + len <= bytes@.len(),
                                bytes@.len() + 0x20000 <= usize::MAX,
                                data == bytes@.subrange(j + 1, j + len - 1),
                                shot@ == data.take(k as int),
                            decreases n - k,
                        {
                            shot.push(bytes[j + 1 + k]);
                            k = k + 1;
                            assert(shot@ =~= data.take(k as int));
                        }
                        loading_screen = Some(shot);
                    }
                    let ghost ram0 = ram@;
                    let off = at - 0x4000;
                    let mut k: usize = 0;
                    while k < n
                        invariant
                            k <= n,
                            n <= dlen,
                            dlen == len - 2,
                            j + len <= bytes@.len(),
                            bytes@.len() + 0x20000 <= usize::MAX,
                            off + n <= 0xC000,
                            ram0.len() == 0xC000,
                            data == bytes@.subrange(j + 1, j + len - 1),
                            ram@ == ram0.take(off as int) + data.take(k as int) + ram0.skip(off + k),
                        decreases n - k,
                    {
                        ram.set(off + k, bytes[j + 1 + k]);
                        k = k + 1;
                        assert(ram@ =~= ram0.take(off as int) + data.take(k as int) + ram0.skip(off + k));
                    }
                    loaded = loaded + n;
                },
            }
        } else {
            pending = None;
        }
        i = j + len;
        proof {
            let s1 = TapState {
                ram: ram@,
                screen: screen_view(loading_screen),
                pending: match pending {
                    Some((s, l)) => Some((s as int, l as int)),
                    None => None,
                },
                loaded: loaded as int,
            };
            assert(apply_block(block, s0) == Ok::<TapState, TapError>(s1));
        }
    }
    if loaded == 0 {
        let mut msg = String::new();
        msg.append("no code blocks on the tape");
        return Err(msg);
    }
    Ok(Tape { ram, loading_screen })
}

/// A block as it stands on the tape: its two-byte length, then its bytes.
pub open spec fn framed(block: Seq<u8>) -> Seq<u8> {
    seq![(block.len() % 256) as u8, ((block.len() / 256) % 256) as u8] + block
}

/// A CODE header says in its bytes 12-13 how long the block after it is
/// and in bytes 14-15 where it loads: a tape of such a header followed by
/// a data block of that many bytes loads, and those bytes stand in RAM
/// from the start address on, with the rest of RAM still zero. A block of
/// exactly a screen's bytes loaded at the screen is the loading screen.
pub proof fn code_block_loads_where_its_header_says(header: Seq<u8>, data: Seq<u8>, sum: u8)
    requires
        header.len() == 19,
        header[0] == HEADER,
        header[1] == CODE,
        le16(header, 12) == data.len(),
        le16(header, 14) >= 0x4000,
        le16(header, 14) + data.len() <= 0x10000,
        data.len() > 0,
    ensures
        ({
            let start = le16(header, 14) - 0x4000;
            let tape = framed(header) + framed(seq![DATA] + data + seq![sum]);
            &&& tap_spec(tape) is Ok
            &&& tap_spec(tape)->Ok_0.0.len() == 0xC000
            &&& tap_spec(tape)->Ok_0.0.subrange(start, start + data.len()) == data
            &&& forall|i: int| 0 <= i < 0xC000 && !(start <= i < start + data.len())
                ==> tap_spec(tape)->Ok_0.0[i] == 0
            &&& tap_spec(tape)->Ok_0.1 == if start == 0 && data.len() == SCREEN_LEN {
                Some(data)
            } else {
                None
            }
        }),
{
    let start = le16(header, 14) - 0x4000;
    let block = seq![DATA] + data + seq![sum];
    let first = framed(header);
    let tape = first + framed(block);
    let n = data.len() as int;
    assert(le16(tape, 0) == 19);
    assert(tape.subrange(2, 21) =~= header);
    let s1 = TapState { pending: Some((le16(header, 14), le16(header, 12))), ..tap_start() };
    assert(apply_block(header, tap_start()) == Ok::<TapState, TapError>(s1));
    assert(le16(tape, 21) == n + 2);
    assert(tape.subrange(23, 23 + n + 2) =~= block);
    assert(block.subrange(1, block.len() - 1) =~= data);
    assert(data.take(n) =~= data);
    let ram = splice(tap_start().ram, start, data);
    let s2 = TapState { ram, screen: s1.screen, pending: None, loaded: n };
    assert(apply_block(block, s1) == Ok::<TapState, TapError>(
        TapState {
            screen: if le16(header, 14) == SCREEN_ADDR && n == SCREEN_LEN { Some(data) } else { None },
            ..s2
        },
    ));
    let s3 = TapState {
        screen: if le16(header, 14) == SCREEN_ADDR && n == SCREEN_LEN { Some(data) } else { None },
        ..s2
    };
    assert(tape.len() == 23 + n + 2);
    assert(tap_run(tape, 23 + n + 2, s3) == Ok::<TapState, TapError>(s3));
    assert(tap_run(tape, 21, s1) == Ok::<TapState, TapError>(s3));
    assert(tap_run(tape, 0, tap_start()) == Ok::<TapState, TapError>(s3));
    assert(tap_spec(tape) == Ok::<(Seq<u8>, Option<Seq<u8>>), TapError>((ram, s3.screen)));
    assert(ram.subrange(start, start + n) =~= data);
}

/// A CODE header whose block would start below RAM or run past the top of
/// memory has the tape refused, naming where the block would start (the
/// block's length fitting its two-byte frame).
pub proof fn code_block_outside_ram_is_refused(header: Seq<u8>, data: Seq<u8>, sum: u8)
    requires
        header.len() == 19,
        header[0] == HEADER,
        header[1] == CODE,
        le16(header, 12) == data.len(),
        data.len() + 2 < 0x10000,
        le16(header, 14) < 0x4000 || le16(header, 14) + data.len() > 0x10000,
    ensures
        tap_spec(framed(header) + framed(seq![DATA] + data + seq![sum])) == Err::<
            (Seq<u8>, Option<Seq<u8>>),
            TapError,
        >(TapError::Outside(le16(header, 14))),
{
    let block = seq![DATA] + data + seq![sum];
    let tape = framed(header) + framed(block);
    let n = data.len() as int;
    assert(le16(tape, 0) == 19);
    assert(tape.subrange(2, 21) =~= header);
    let s1 = TapState { pending: Some((le16(header, 14), le16(header, 12))), ..tap_start() };
    assert(apply_block(header, tap_start()) == Ok::<TapState, TapError>(s1));
    assert(le16(tape, 21) == n + 2);
    assert(tape.subrange(23, 23 + n + 2) =~= block);
    assert(block.subrange(1, block.len() - 1) =~= data);
    assert(apply_block(block, s1) == Err::<TapState, TapError>(TapError::Outside(le16(header, 14))));
    assert(tap_run(tape, 21, s1) == Err::<TapState, TapError>(TapError::Outside(le16(header, 14))));
    assert(tap_run(tape, 0, tap_start()) == Err::<TapState, TapError>(TapError::Outside(le16(header, 14))));
}

} // verus!
