//! The Spectrum 48K machine state: Z80 registers, memory and ULA I/O, plus
//! the helpers shared by recompiled code and the fallback interpreter.
//!
//! Recompiled code manipulates this struct directly, so everything it
//! touches is public and kept flat.

use vstd::prelude::*;
use crate::bus::{charge, charge_spec, Cycle, IO_MAX};
use crate::decode::{Cond, Reg16, Reg8};
use crate::snapshot::Snapshot;
use crate::trace::Trace;
use crate::block::pushed;

verus! {

pub const CF: u8 = 0x01;
pub const NF: u8 = 0x02;
pub const PF: u8 = 0x04;
pub const XF: u8 = 0x08;
pub const HF: u8 = 0x10;
pub const YF: u8 = 0x20;
pub const ZF: u8 = 0x40;
pub const SF: u8 = 0x80;

/// How long the ULA holds /INT low at the start of each frame.
pub const INT_LEN: u32 = 32;

/// What a port read returns when the ULA is not the one answering.
#[derive(Clone, Copy, Debug, PartialEq, Eq, Structural)]
pub enum PortHook {
    /// The port's high byte, as the Z80 conformance tests' harness answers.
    HighByte,
}

#[derive(Clone)]
pub struct Zx {
    pub a: u8,
    pub f: u8,
    pub b: u8,
    pub c: u8,
    pub d: u8,
    pub e: u8,
    pub h: u8,
    pub l: u8,
    pub a_: u8,
    pub f_: u8,
    pub b_: u8,
    pub c_: u8,
    pub d_: u8,
    pub e_: u8,
    pub h_: u8,
    pub l_: u8,
    pub ix: u16,
    pub iy: u16,
    pub sp: u16,
    pub pc: u16,
    pub i: u8,
    pub r: u8,
    pub iff1: bool,
    pub iff2: bool,
    pub im: u8,
    pub halted: bool,
    /// Set when the last executed instruction was EI: interrupts are not
    /// accepted until one more instruction has run.
    pub ei_delay: bool,
    /// T-states since the start of the current frame.
    pub t: u32,
    /// The 64K address space.
    pub mem: Vec<u8>,
    pub rom_loaded: bool,
    pub border: u8,
    /// Current level of the beeper (EAR output, bit 4 of port 0xFE).
    pub ear: bool,
    /// Keyboard half-rows, one byte per address line A8..A15; a 0 bit is a
    /// pressed key.
    pub keys: [u8; 8],
    /// Kempston joystick state (bit 0 right, 1 left, 2 down, 3 up, 4 fire).
    pub kempston: u8,
    pub int_pending: bool,
    pub frame: u64,
    /// Execution/write tracing used by the recompiler's analysis pass.
    pub trace: Option<Trace>,
    /// Replaces the ULA for port reads; `None`, the normal case, is the
    /// real ULA.
    pub port_in_hook: Option<PortHook>,
}

// ---------------------------------------------------------------------------
// Flags.

pub open spec fn sz53_spec(v: u8) -> u8 {
    (v & (SF | YF | XF)) | if v == 0 { ZF } else { 0 }
}

/// How many of the byte's bits are set.
pub open spec fn bits_set(v: u8) -> int {
    (v & 1) as int + ((v >> 1) & 1) as int + ((v >> 2) & 1) as int + ((v >> 3) & 1) as int
        + ((v >> 4) & 1) as int + ((v >> 5) & 1) as int + ((v >> 6) & 1) as int + ((v >> 7) & 1) as int
}

/// The parity flag: set when an even number of bits is.
pub open spec fn parity_spec(v: u8) -> u8 {
    if bits_set(v) % 2 == 0 { PF } else { 0 }
}

pub open spec fn sz53p_spec(v: u8) -> u8 {
    sz53_spec(v) | parity_spec(v)
}

pub fn sz53(v: u8) -> (r: u8)
    ensures
        r == sz53_spec(v),
{
    (v & (SF | YF | XF)) | if v == 0 { ZF } else { 0 }
}

pub fn parity(v: u8) -> (r: u8)
    ensures
        r == parity_spec(v),
{
    let n: u32 = (v & 1) as u32 + ((v >> 1) & 1) as u32 + ((v >> 2) & 1) as u32 + ((v >> 3) & 1) as u32
        + ((v >> 4) & 1) as u32 + ((v >> 5) & 1) as u32 + ((v >> 6) & 1) as u32 + ((v >> 7) & 1) as u32;
    if n % 2 == 0 { PF } else { 0 }
}

pub fn sz53p(v: u8) -> (r: u8)
    ensures
        r == sz53p_spec(v),
{
    sz53(v) | parity(v)
}

/// R after `m1` more opcode fetches: the low seven bits count, the top
/// one stays.
pub open spec fn r_after(r: u8, m1: u8) -> u8 {
    (r & 0x80) | ((((r as int + m1 as int) % 256) as u8) & 0x7F)
}

pub open spec fn pair(hi: u8, lo: u8) -> u16 {
    (hi as int * 256 + lo as int) as u16
}

pub open spec fn hi_of(v: u16) -> u8 {
    (v / 256) as u8
}

pub open spec fn lo_of(v: u16) -> u8 {
    (v % 256) as u8
}

pub open spec fn add16w(a: u16, b: int) -> u16 {
    ((a as int + b) % 65536) as u16
}

/// The keyboard bits a read of port 0xFE with high byte `high` sees, over
/// the first `n` half-rows: a row is combined when its address line is
/// low.
pub open spec fn keyboard_bits(keys: Seq<u8>, high: u8, n: int) -> u8
    decreases n,
{
    if n <= 0 {
        0x1F
    } else {
        let prev = keyboard_bits(keys, high, n - 1);
        if high & (1u8 << ((n - 1) as u8)) == 0 {
            prev & keys[n - 1]
        } else {
            prev
        }
    }
}

impl Zx {
    /// Memory covers the address space and the trace, if any, its tables.
    pub open spec fn wf(&self) -> bool {
        &&& self.mem@.len() == 0x10000
        &&& match self.trace {
            Some(t) => t.wf(),
            None => true,
        }
    }

    pub open spec fn bc_spec(&self) -> u16 {
        pair(self.b, self.c)
    }

    pub open spec fn de_spec(&self) -> u16 {
        pair(self.d, self.e)
    }

    pub open spec fn hl_spec(&self) -> u16 {
        pair(self.h, self.l)
    }

    pub open spec fn af_spec(&self) -> u16 {
        pair(self.a, self.f)
    }

    pub open spec fn r8_spec(&self, r: Reg8) -> u8 {
        match r {
            Reg8::B => self.b,
            Reg8::C => self.c,
            Reg8::D => self.d,
            Reg8::E => self.e,
            Reg8::H => self.h,
            Reg8::L => self.l,
            Reg8::A => self.a,
            Reg8::IXH => hi_of(self.ix),
            Reg8::IXL => lo_of(self.ix),
            Reg8::IYH => hi_of(self.iy),
            Reg8::IYL => lo_of(self.iy),
        }
    }

    pub open spec fn with_r8(self, r: Reg8, v: u8) -> Zx {
        match r {
            Reg8::B => Zx { b: v, ..self },
            Reg8::C => Zx { c: v, ..self },
            Reg8::D => Zx { d: v, ..self },
            Reg8::E => Zx { e: v, ..self },
            Reg8::H => Zx { h: v, ..self },
            Reg8::L => Zx { l: v, ..self },
            Reg8::A => Zx { a: v, ..self },
            Reg8::IXH => Zx { ix: pair(v, lo_of(self.ix)), ..self },
            Reg8::IXL => Zx { ix: pair(hi_of(self.ix), v), ..self },
            Reg8::IYH => Zx { iy: pair(v, lo_of(self.iy)), ..self },
            Reg8::IYL => Zx { iy: pair(hi_of(self.iy), v), ..self },
        }
    }

    pub open spec fn r16_spec(&self, r: Reg16) -> u16 {
        match r {
            Reg16::BC => self.bc_spec(),
            Reg16::DE => self.de_spec(),
            Reg16::HL => self.hl_spec(),
            Reg16::SP => self.sp,
            Reg16::AF => self.af_spec(),
            Reg16::IX => self.ix,
            Reg16::IY => self.iy,
        }
    }

    pub open spec fn with_r16(self, r: Reg16, v: u16) -> Zx {
        match r {
            Reg16::BC => Zx { b: hi_of(v), c: lo_of(v), ..self },
            Reg16::DE => Zx { d: hi_of(v), e: lo_of(v), ..self },
            Reg16::HL => Zx { h: hi_of(v), l: lo_of(v), ..self },
            Reg16::SP => Zx { sp: v, ..self },
            Reg16::AF => Zx { a: hi_of(v), f: lo_of(v), ..self },
            Reg16::IX => Zx { ix: v, ..self },
            Reg16::IY => Zx { iy: v, ..self },
        }
    }

    pub open spec fn cond_spec(&self, c: Cond) -> bool {
        match c {
            Cond::NZ => self.f & ZF == 0,
            Cond::Z => self.f & ZF != 0,
            Cond::NC => self.f & CF == 0,
            Cond::C => self.f & CF != 0,
            Cond::PO => self.f & PF == 0,
            Cond::PE => self.f & PF != 0,
            Cond::P => self.f & SF == 0,
            Cond::M => self.f & SF != 0,
        }
    }

    /// Whether a write to `addr` lands: the bottom 16K is the ROM, and
    /// ignores writes, but only when a ROM was loaded.
    pub open spec fn writable(&self, addr: u16) -> bool {
        addr >= 0x4000 || !self.rom_loaded
    }

    /// Memory after writing `v` to `addr`.
    pub open spec fn mem_written(&self, addr: u16, v: u8) -> Seq<u8> {
        if self.writable(addr) {
            self.mem@.update(addr as int, v)
        } else {
            self.mem@
        }
    }

    pub open spec fn read_spec(&self, addr: u16) -> u8 {
        self.mem@[addr as int]
    }

    pub open spec fn read16_spec(&self, addr: u16) -> u16 {
        pair(self.mem@[add16w(addr, 1) as int], self.mem@[addr as int])
    }

    /// `next` is `self` after a write of `v` to `addr`: memory changed if
    /// the address is writable, the trace told of it, nothing else.
    pub open spec fn wrote(self, next: Zx, addr: u16, v: u8) -> bool {
        &&& next == (Zx { mem: next.mem, trace: next.trace, ..self })
        &&& next.mem@ == self.mem_written(addr, v)
        &&& match (self.trace, next.trace) {
            (None, None) => true,
            (Some(t0), Some(t1)) => {
                &&& t1.written_code@ == (if self.writable(addr) { t0.marks_write(addr) } else { t0.written_code@ })
                &&& t1.executed == t0.executed
                &&& t1.self_modified == t0.self_modified
                &&& t1.entries == t0.entries
                &&& t1.code == t0.code
                &&& t1.fallthrough == t0.fallthrough
            },
            _ => false,
        }
    }

    /// `next` is `self` after the registers and memory outside the ROM
    /// are left alone: only the trace's written-code table may differ.
    pub open spec fn same_but_trace(self, next: Zx) -> bool {
        &&& next == (Zx { trace: next.trace, ..self })
        &&& match (self.trace, next.trace) {
            (None, None) => true,
            (Some(t0), Some(t1)) => {
                &&& t1.executed == t0.executed
                &&& t1.self_modified == t0.self_modified
                &&& t1.entries == t0.entries
                &&& t1.code == t0.code
                &&& t1.fallthrough == t0.fallthrough
            },
            _ => false,
        }
    }

    /// A machine from a snapshot and, if there is one, a ROM. A short ROM
    /// is used as far as it goes; the rest stays zero.
    pub fn new(snap: &Snapshot, rom: Option<&[u8]>) -> (z: Zx)
        requires
            snap.ram@.len() == 0xC000,
        ensures
            z.wf(),
            z.mem@.subrange(0x4000, 0x10000) == snap.ram@,
            forall|i: int| 0 <= i < 0x4000 ==> z.mem@[i] == match rom {
                Some(r) => if i < r@.len() { r@[i] } else { 0u8 },
                None => 0u8,
            },
            z.rom_loaded == rom is Some,
            z.a == snap.a && z.f == snap.f && z.b == snap.b && z.c == snap.c,
            z.d == snap.d && z.e == snap.e && z.h == snap.h && z.l == snap.l,
            z.a_ == snap.a_ && z.f_ == snap.f_ && z.b_ == snap.b_ && z.c_ == snap.c_,
            z.d_ == snap.d_ && z.e_ == snap.e_ && z.h_ == snap.h_ && z.l_ == snap.l_,
            z.ix == snap.ix && z.iy == snap.iy && z.sp == snap.sp && z.pc == snap.pc,
            z.i == snap.i && z.r == snap.r && z.iff1 == snap.iff1 && z.iff2 == snap.iff2,
            z.im == snap.im && z.border == snap.border,
            !z.halted && !z.ei_delay && z.t == 0 && !z.ear && z.kempston == 0,
            z.keys@ == seq![0xFFu8; 8],
            !z.int_pending && z.frame == 0 && z.trace is None && z.port_in_hook is None,
    {
        let mut mem: Vec<u8> = Vec::new();
        let mut i: usize = 0;
        while i < 0x4000
            invariant
                i <= 0x4000,
                mem@.len() == i,
                forall|k: int| 0 <= k < i ==> mem@[k] == match rom {
                    Some(r) => if k < r@.len() { r@[k] } else { 0u8 },
                    None => 0u8,
                },
            decreases 0x4000 - i,
        {
            let v = match rom {
                Some(r) => if i < r.len() { r[i] } else { 0 },
                None => 0,
            };
            mem.push(v);
            i = i + 1;
        }
        let mut j: usize = 0;
        while j < 0xC000
            invariant
                j <= 0xC000,
                snap.ram@.len() == 0xC000,
                mem@.len() == 0x4000 + j,
                forall|k: int| 0 <= k < 0x4000 ==> mem@[k] == match rom {
                    Some(r) => if k < r@.len() { r@[k] } else { 0u8 },
                    None => 0u8,
                },
                forall|k: int| 0 <= k < j ==> mem@[0x4000 + k] == snap.ram@[k],
            decreases 0xC000 - j,
        {
            mem.push(snap.ram[j]);
            j = j + 1;
        }
        assert(mem@.subrange(0x4000, 0x10000) =~= snap.ram@);
        Zx {
            a: snap.a,
            f: snap.f,
            b: snap.b,
            c: snap.c,
            d: snap.d,
            e: snap.e,
            h: snap.h,
            l: snap.l,
            a_: snap.a_,
            f_: snap.f_,
            b_: snap.b_,
            c_: snap.c_,
            d_: snap.d_,
            e_: snap.e_,
            h_: snap.h_,
            l_: snap.l_,
            ix: snap.ix,
            iy: snap.iy,
            sp: snap.sp,
            pc: snap.pc,
            i: snap.i,
            r: snap.r,
            iff1: snap.iff1,
            iff2: snap.iff2,
            im: snap.im,
            halted: false,
            ei_delay: false,
            t: 0,
            mem,
            rom_loaded: rom.is_some(),
            border: snap.border,
            ear: false,
            keys: [0xFF; 8],
            kempston: 0,
            int_pending: false,
            frame: 0,
            trace: None,
            port_in_hook: None,
        }
    }

    // --- timing -------------------------------------------------------------

    /// Accounts for one instruction: `t` T-states and `m1` opcode fetches.
    pub fn step(&mut self, t: u8, m1: u8)
        requires
            old(self).t as int + t <= u32::MAX,
        ensures
            *final(self) == (Zx { t: (old(self).t + t) as u32, r: r_after(old(self).r, m1), ..*old(self) }),
    {
        self.t = self.t + t as u32;
        self.r = (self.r & 0x80) | ((((self.r as u16 + m1 as u16) % 256) as u8) & 0x7F);
    }

    // --- register pairs -----------------------------------------------------

    pub fn bc(&self) -> (v: u16)
        ensures
            v == self.bc_spec(),
    {
        self.b as u16 * 256 + self.c as u16
    }

    pub fn de(&self) -> (v: u16)
        ensures
            v == self.de_spec(),
    {
        self.d as u16 * 256 + self.e as u16
    }

    pub fn hl(&self) -> (v: u16)
        ensures
            v == self.hl_spec(),
    {
        self.h as u16 * 256 + self.l as u16
    }

    pub fn af(&self) -> (v: u16)
        ensures
            v == self.af_spec(),
    {
        self.a as u16 * 256 + self.f as u16
    }

    pub fn set_bc(&mut self, v: u16)
        ensures
            *final(self) == old(self).with_r16(Reg16::BC, v),
    {
        self.b = (v / 256) as u8;
        self.c = (v % 256) as u8;
    }

    pub fn set_de(&mut self, v: u16)
        ensures
            *final(self) == old(self).with_r16(Reg16::DE, v),
    {
        self.d = (v / 256) as u8;
        self.e = (v % 256) as u8;
    }

    pub fn set_hl(&mut self, v: u16)
        ensures
            *final(self) == old(self).with_r16(Reg16::HL, v),
    {
        self.h = (v / 256) as u8;
        self.l = (v % 256) as u8;
    }

    pub fn set_af(&mut self, v: u16)
        ensures
            *final(self) == old(self).with_r16(Reg16::AF, v),
    {
        self.a = (v / 256) as u8;
        self.f = (v % 256) as u8;
    }

    pub fn ixh(&self) -> (v: u8)
        ensures
            v == hi_of(self.ix),
    {
        (self.ix / 256) as u8
    }

    pub fn ixl(&self) -> (v: u8)
        ensures
            v == lo_of(self.ix),
    {
        (self.ix % 256) as u8
    }

    pub fn iyh(&self) -> (v: u8)
        ensures
            v == hi_of(self.iy),
    {
        (self.iy / 256) as u8
    }

    pub fn iyl(&self) -> (v: u8)
        ensures
            v == lo_of(self.iy),
    {
        (self.iy % 256) as u8
    }

    pub fn set_ixh(&mut self, v: u8)
        ensures
            *final(self) == old(self).with_r8(Reg8::IXH, v),
    {
        self.ix = self.ix % 256 + v as u16 * 256;
    }

    pub fn set_ixl(&mut self, v: u8)
        ensures
            *final(self) == old(self).with_r8(Reg8::IXL, v),
    {
        self.ix = (self.ix / 256) * 256 + v as u16;
    }

    pub fn set_iyh(&mut self, v: u8)
        ensures
            *final(self) == old(self).with_r8(Reg8::IYH, v),
    {
        self.iy = self.iy % 256 + v as u16 * 256;
    }

    pub fn set_iyl(&mut self, v: u8)
        ensures
            *final(self) == old(self).with_r8(Reg8::IYL, v),
    {
        self.iy = (self.iy / 256) * 256 + v as u16;
    }

    pub fn ex_de_hl(&mut self)
        ensures
            *final(self) == (Zx { d: old(self).h, e: old(self).l, h: old(self).d, l: old(self).e, ..*old(self) }),
    {
        let (d, e) = (self.d, self.e);
        self.d = self.h;
        self.e = self.l;
        self.h = d;
        self.l = e;
    }

    pub fn ex_af(&mut self)
        ensures
            *final(self) == (Zx { a: old(self).a_, f: old(self).f_, a_: old(self).a, f_: old(self).f, ..*old(self) }),
    {
        let (a, f) = (self.a, self.f);
        self.a = self.a_;
        self.f = self.f_;
        self.a_ = a;
        self.f_ = f;
    }

    pub fn exx(&mut self)
        ensures
            *final(self) == (Zx {
                b: old(self).b_,
                c: old(self).c_,
                d: old(self).d_,
                e: old(self).e_,
                h: old(self).h_,
                l: old(self).l_,
                b_: old(self).b,
                c_: old(self).c,
                d_: old(self).d,
                e_: old(self).e,
                h_: old(self).h,
                l_: old(self).l,
                ..*old(self)
            }),
    {
        let (b, c, d, e, h, l) = (self.b, self.c, self.d, self.e, self.h, self.l);
        self.b = self.b_;
        self.c = self.c_;
        self.d = self.d_;
        self.e = self.e_;
        self.h = self.h_;
        self.l = self.l_;
        self.b_ = b;
        self.c_ = c;
        self.d_ = d;
        self.e_ = e;
        self.h_ = h;
        self.l_ = l;
    }

    // --- generic operand access ---------------------------------------------

    pub fn r8(&self, r: Reg8) -> (v: u8)
        ensures
            v == self.r8_spec(r),
    {
        match r {
            Reg8::B => self.b,
            Reg8::C => self.c,
            Reg8::D => self.d,
            Reg8::E => self.e,
            Reg8::H => self.h,
            Reg8::L => self.l,
            Reg8::A => self.a,
            Reg8::IXH => self.ixh(),
            Reg8::IXL => self.ixl(),
            Reg8::IYH => self.iyh(),
            Reg8::IYL => self.iyl(),
        }
    }

    pub fn set_r8(&mut self, r: Reg8, v: u8)
        ensures
            *final(self) == old(self).with_r8(r, v),
    {
        match r {
            Reg8::B => self.b = v,
            Reg8::C => self.c = v,
            Reg8::D => self.d = v,
            Reg8::E => self.e = v,
            Reg8::H => self.h = v,
            Reg8::L => self.l = v,
            Reg8::A => self.a = v,
            Reg8::IXH => self.set_ixh(v),
            Reg8::IXL => self.set_ixl(v),
            Reg8::IYH => self.set_iyh(v),
            Reg8::IYL => self.set_iyl(v),
        }
    }

    pub fn r16(&self, r: Reg16) -> (v: u16)
        ensures
            v == self.r16_spec(r),
    {
        match r {
            Reg16::BC => self.bc(),
            Reg16::DE => self.de(),
            Reg16::HL => self.hl(),
            Reg16::SP => self.sp,
            Reg16::AF => self.af(),
            Reg16::IX => self.ix,
            Reg16::IY => self.iy,
        }
    }

    pub fn set_r16(&mut self, r: Reg16, v: u16)
        ensures
            *final(self) == old(self).with_r16(r, v),
    {
        match r {
            Reg16::BC => self.set_bc(v),
            Reg16::DE => self.set_de(v),
            Reg16::HL => self.set_hl(v),
            Reg16::SP => self.sp = v,
            Reg16::AF => self.set_af(v),
            Reg16::IX => self.ix = v,
            Reg16::IY => self.iy = v,
        }
    }

    pub fn cond(&self, c: Cond) -> (b: bool)
        ensures
            b == self.cond_spec(c),
    {
        match c {
            Cond::NZ => self.f & ZF == 0,
            Cond::Z => self.f & ZF != 0,
            Cond::NC => self.f & CF == 0,
            Cond::C => self.f & CF != 0,
            Cond::PO => self.f & PF == 0,
            Cond::PE => self.f & PF != 0,
            Cond::P => self.f & SF == 0,
            Cond::M => self.f & SF != 0,
        }
    }

    // --- ULA contention -----------------------------------------------------

    /// Charges one machine cycle, the ULA's delay included.
    pub fn charge(&mut self, c: Cycle)
        requires
            old(self).t as int + IO_MAX + 6 + c.len <= u32::MAX,
        ensures
            *final(self) == (Zx { t: final(self).t, ..*old(self) }),
            final(self).t as int == charge_spec(old(self).t as int, c),
    {
        let mut t = self.t;
        charge(&mut t, c);
        self.t = t;
    }

    // --- memory -------------------------------------------------------------

    pub fn read(&self, addr: u16) -> (v: u8)
        requires
            self.wf(),
        ensures
            v == self.read_spec(addr),
    {
        self.mem[addr as usize]
    }

    /// Writes a byte. The bottom 16K is the ROM and ignores writes, but
    /// only when a ROM was actually loaded; with none, it is just memory.
    pub fn write(&mut self, addr: u16, v: u8)
        requires
            old(self).wf(),
        ensures
            final(self).wf(),
            old(self).wrote(*final(self), addr, v),
    {
        if addr >= 0x4000 || !self.rom_loaded {
            self.mem.set(addr as usize, v);
            match &mut self.trace {
                Some(trace) => trace.on_write(addr),
                None => {},
            }
        }
    }

    pub fn read16(&self, addr: u16) -> (v: u16)
        requires
            self.wf(),
        ensures
            v == self.read16_spec(addr),
    {
        let lo = self.read(addr) as u16;
        let hi = self.read(((addr as u32 + 1) % 65536) as u16) as u16;
        lo + 256 * hi
    }

    /// Writes a word, low byte first.
    pub fn write16(&mut self, addr: u16, v: u16)
        requires
            old(self).wf(),
        ensures
            final(self).wf(),
            exists|mid: Zx| #[trigger] old(self).wrote(mid, addr, lo_of(v)) && mid.wrote(*final(self), add16w(addr, 1), hi_of(v)),
    {
        self.write(addr, (v % 256) as u8);
        let ghost mid = *self;
        self.write(((addr as u32 + 1) % 65536) as u16, (v / 256) as u8);
        assert(old(self).wrote(mid, addr, lo_of(v)));
    }

    pub fn push(&mut self, v: u16)
        requires
            old(self).wf(),
        ensures
            final(self).wf(),
            exists|mid: Zx| #[trigger] old(self).wrote(mid, add16w(old(self).sp, -2), lo_of(v))
                && (Zx { sp: add16w(old(self).sp, -2), ..mid }).wrote(*final(self), add16w(old(self).sp, -1), hi_of(v)),
            final(self).sp == add16w(old(self).sp, -2),
    {
        self.sp = ((self.sp as u32 + 65534) % 65536) as u16;
        let ghost pushed = *self;
        let sp = self.sp;
        self.write16(sp, v);
        proof {
            let mid = choose|mid: Zx| #[trigger] pushed.wrote(mid, sp, lo_of(v)) && mid.wrote(*final(self), add16w(sp, 1), hi_of(v));
            let mid0 = Zx { sp: old(self).sp, ..mid };
            assert(old(self).wrote(mid0, add16w(old(self).sp, -2), lo_of(v)));
            assert((Zx { sp: add16w(old(self).sp, -2), ..mid0 }) == mid);
        }
    }

    pub fn pop(&mut self) -> (v: u16)
        requires
            old(self).wf(),
        ensures
            v == old(self).read16_spec(old(self).sp),
            *final(self) == (Zx { sp: add16w(old(self).sp, 2), ..*old(self) }),
    {
        let v = self.read16(self.sp);
        self.sp = ((self.sp as u32 + 2) % 65536) as u16;
        v
    }

    /// Whether memory at `addr` still holds the bytes a block was compiled
    /// from: they fit below the top of memory and each matches.
    pub fn code_ok(&self, addr: u16, bytes: &[u8]) -> (ok: bool)
        requires
            self.wf(),
        ensures
            ok == (addr as int + bytes@.len() <= 0x10000 && forall|k: int|
                0 <= k < bytes@.len() ==> #[trigger] bytes@[k] == self.mem@[addr as int + k]),
    {
        let start = addr as usize;
        if bytes.len() > 0x10000 - start {
            return false;
        }
        let mut i: usize = 0;
        while i < bytes.len()
            invariant
                self.wf(),
                start == addr,
                start + bytes@.len() <= 0x10000,
                i <= bytes@.len(),
                forall|k: int| 0 <= k < i ==> #[trigger] bytes@[k] == self.mem@[start + k],
            decreases bytes@.len() - i,
        {
            if self.mem[start + i] != bytes[i] {
                return false;
            }
            i = i + 1;
        }
        true
    }

    // --- I/O ----------------------------------------------------------------

    /// What a read of `port` returns, as the machine answers it.
    pub open spec fn port_in_spec(&self, port: u16) -> u8 {
        if self.port_in_hook is Some {
            hi_of(port)
        } else if port & 1 == 0 {
            0xA0 | (if self.ear { 0x40u8 } else { 0 }) | keyboard_bits(self.keys@, hi_of(port), 8)
        } else if port & 0x20 == 0 {
            self.kempston
        } else {
            0xFF
        }
    }

    /// Reads a port: the ULA's keyboard and EAR for an even port, the
    /// Kempston interface where address line 5 is low, else a floating
    /// bus.
    pub fn port_in(&mut self, port: u16) -> (v: u8)
        ensures
            v == old(self).port_in_spec(port),
            *final(self) == *old(self),
    {
        if let Some(_) = self.port_in_hook {
            return (port / 256) as u8;
        }
        if port & 1 == 0 {
            let high = (port / 256) as u8;
            let mut keys: u8 = 0x1F;
            let mut row: u8 = 0;
            while row < 8
                invariant
                    row <= 8,
                    keys == keyboard_bits(self.keys@, high, row as int),
                decreases 8 - row,
            {
                if high & (1u8 << row) == 0 {
                    keys = keys & self.keys[row as usize];
                }
                row = row + 1;
            }
            // Issue 3 behaviour: bit 6 follows the EAR output.
            let ear: u8 = if self.ear { 0x40 } else { 0 };
            0xA0 | ear | keys
        } else if port & 0x20 == 0 {
            self.kempston
        } else {
            0xFF
        }
    }

    /// A write to an even port sets the border colour and the beeper.
    pub fn port_out(&mut self, port: u16, v: u8)
        ensures
            *final(self) == if port & 1 == 0 {
                Zx { border: v & 7, ear: v & 0x10 != 0, ..*old(self) }
            } else {
                *old(self)
            },
    {
        if port & 1 == 0 {
            self.border = v & 7;
            self.ear = v & 0x10 != 0;
        }
    }

    // --- misc ---------------------------------------------------------------

    pub fn ei(&mut self)
        ensures
            *final(self) == (Zx { iff1: true, iff2: true, ..*old(self) }),
    {
        self.iff1 = true;
        self.iff2 = true;
    }

    pub fn di(&mut self)
        ensures
            *final(self) == (Zx { iff1: false, iff2: false, ..*old(self) }),
    {
        self.iff1 = false;
        self.iff2 = false;
    }
}

// ---------------------------------------------------------------------------
// What the register and memory operations keep.

/// A pair written is a pair read back.
pub proof fn set_r16_reads_back(z: Zx, r: Reg16, v: u16)
    ensures
        z.with_r16(r, v).r16_spec(r) == v,
{
}

/// An 8-bit register written is read back, the index halves included.
pub proof fn set_r8_reads_back(z: Zx, r: Reg8, v: u8)
    ensures
        z.with_r8(r, v).r8_spec(r) == v,
{
}

/// Exchanging twice changes nothing.
pub proof fn exchanges_undo_themselves(z: Zx)
    ensures
        (Zx { d: (Zx { d: z.h, e: z.l, h: z.d, l: z.e, ..z }).h, e: (Zx { d: z.h, e: z.l, h: z.d, l: z.e, ..z }).l,
            h: (Zx { d: z.h, e: z.l, h: z.d, l: z.e, ..z }).d, l: (Zx { d: z.h, e: z.l, h: z.d, l: z.e, ..z }).e,
            ..(Zx { d: z.h, e: z.l, h: z.d, l: z.e, ..z }) }) == z,
{
}

/// A byte written to writable memory is what a read then gives back, and
/// no other byte changes.
pub proof fn read_gives_back_write(z0: Zx, z1: Zx, addr: u16, v: u8, other: u16)
    requires
        z0.wf(),
        z0.wrote(z1, addr, v),
        z0.writable(addr),
    ensures
        z1.read_spec(addr) == v,
        other != addr ==> z1.read_spec(other) == z0.read_spec(other),
{
}

/// A word written where both its bytes land reads back.
pub proof fn read16_gives_back_write16(z0: Zx, mid: Zx, z1: Zx, addr: u16, v: u16)
    requires
        z0.wf(),
        z0.wrote(mid, addr, lo_of(v)),
        mid.wrote(z1, add16w(addr, 1), hi_of(v)),
        z0.writable(addr),
        z0.writable(add16w(addr, 1)),
    ensures
        z1.read16_spec(addr) == v,
{
    assert(add16w(addr, 1) != addr);
}

/// What a push puts on the stack a pop takes back off: after pushing `v`
/// (where both its bytes land), SP is two lower, the word on top of the
/// stack is `v`, and popping it into a pair gives the pair `v` and SP back.
pub proof fn pop_takes_back_what_push_put(z: Zx, z1: Zx, v: u16, r: Reg16)
    requires
        z.wf(),
        pushed(z, z1, v),
        z.writable(add16w(z.sp, -2)),
        z.writable(add16w(z.sp, -1)),
        r != Reg16::SP,
    ensures
        z1.sp == add16w(z.sp, -2),
        z1.read16_spec(z1.sp) == v,
        ({
            let popped = (Zx { sp: add16w(z1.sp, 2), ..z1 }).with_r16(r, z1.read16_spec(z1.sp));
            popped.r16_spec(r) == v && popped.sp == z.sp
        }),
{
    let mid = choose|mid: Zx| #[trigger] z.wrote(mid, add16w(z.sp, -2), lo_of(v))
        && (Zx { sp: add16w(z.sp, -2), ..mid }).wrote(z1, add16w(z.sp, -1), hi_of(v));
    let mid2 = Zx { sp: add16w(z.sp, -2), ..mid };
    let low = Zx { sp: add16w(z.sp, -2), ..z };
    assert(low.wrote(mid2, add16w(z.sp, -2), lo_of(v)));
    assert(add16w(add16w(z.sp, -2), 1) == add16w(z.sp, -1));
    read16_gives_back_write16(low, mid2, z1, add16w(z.sp, -2), v);
    assert(add16w(add16w(z.sp, -2), 1) == add16w(z.sp, -1));
    assert(add16w(add16w(z.sp, -2), 2) == z.sp);
    set_r16_reads_back(Zx { sp: add16w(z1.sp, 2), ..z1 }, r, v);
}

} // verus!
