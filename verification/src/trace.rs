//! Execution tracing for the recompiler's analysis pass.
//!
//! While the interpreter runs the game headless, this records which
//! addresses were executed, which addresses control arrived at other than
//! by falling through (block entry points), and which instructions were
//! executed with different bytes at different times (self-modifying code).

use vstd::prelude::*;

verus! {

#[derive(Clone)]
pub struct Trace {
    /// Bytes of the instruction starting at each address, as first executed.
    pub executed: Vec<Option<(u8, [u8; 4])>>,
    /// Instruction starts whose bytes changed between executions.
    pub self_modified: Vec<bool>,
    /// Addresses reached other than by falling through from the previous
    /// instruction.
    pub entries: Vec<bool>,
    /// Address the next instruction is expected at if execution falls
    /// through.
    pub fallthrough: Option<u16>,
    /// Addresses that are part of some executed instruction.
    pub code: Vec<bool>,
    /// Code bytes written after they were executed.
    pub written_code: Vec<bool>,
}

/// `n` copies of `v`.
pub fn filled<T: Copy>(v: T, n: usize) -> (out: Vec<T>)
    ensures
        out@ == Seq::new(n as nat, |i: int| v),
{
    let mut out: Vec<T> = Vec::new();
    let mut i: usize = 0;
    while i < n
        invariant
            i <= n,
            out@ == Seq::new(i as nat, |k: int| v),
        decreases n - i,
    {
        out.push(v);
        i = i + 1;
        assert(out@ =~= Seq::new(i as nat, |k: int| v));
    }
    out
}

/// What `on_exec` records of a given byte slot.
pub open spec fn byte_of(mem: Seq<u8>, pc: u16, len: u8, i: int) -> u8 {
    if i < len {
        mem[(pc as int + i) % 65536]
    } else {
        0
    }
}

/// Whether address `a` is one of the `n` starting at `pc`, round the top of
/// memory.
pub open spec fn covers(pc: u16, n: int, a: int) -> bool {
    (a - pc as int) % 65536 < n
}

proof fn lemma_covers_step(pc: u16, k: int, x: int)
    requires
        0 <= k < 4,
        0 <= x < 0x10000,
    ensures
        covers(pc, k + 1, x) == (covers(pc, k, x) || x == (pc as int + k) % 65536),
{
}

/// What recording the execution of the `len`-byte instruction at `pc`
/// does to the trace: the entry marked unless execution fell through to
/// it, the next fall-through expected, and the bytes kept the first time
/// or compared with the kept ones after.
pub open spec fn exec_recorded(t0: Trace, t1: Trace, pc: u16, mem: Seq<u8>, len: u8) -> bool {
    &&& t1.entries@ == (if t0.fallthrough == Some(pc) {
        t0.entries@
    } else {
        t0.entries@.update(pc as int, true)
    })
    &&& t1.fallthrough == Some(((pc as int + len) % 65536) as u16)
    &&& t1.written_code@ == t0.written_code@
    &&& ({
        let seen = t0.executed@[pc as int];
        let now = |b: [u8; 4]| b@ == Seq::new(4, |i: int| byte_of(mem, pc, len, i));
        match seen {
            Some((l, b)) => {
                &&& t1.executed@ == t0.executed@
                &&& t1.code@ == t0.code@
                &&& t1.self_modified@ == if l == len && now(b) {
                    t0.self_modified@
                } else {
                    t0.self_modified@.update(pc as int, true)
                }
            },
            None => {
                &&& t1.self_modified@ == t0.self_modified@
                &&& t1.executed@[pc as int] matches Some((l2, b2)) && l2 == len && now(b2)
                &&& t1.executed@ == t0.executed@.update(pc as int, t1.executed@[pc as int])
                &&& t1.code@ == Seq::new(0x10000, |a: int|
                    t0.code@[a] || covers(pc, len as int, a))
            },
        }
    })
}

impl Trace {
    /// Every table covers the 64K address space.
    pub open spec fn wf(&self) -> bool {
        &&& self.executed@.len() == 0x10000
        &&& self.self_modified@.len() == 0x10000
        &&& self.entries@.len() == 0x10000
        &&& self.code@.len() == 0x10000
        &&& self.written_code@.len() == 0x10000
    }

    /// Nothing recorded yet.
    pub fn new() -> (t: Trace)
        ensures
            t.wf(),
            t.executed@ == Seq::new(0x10000, |i: int| None::<(u8, [u8; 4])>),
            t.self_modified@ == Seq::new(0x10000, |i: int| false),
            t.entries@ == Seq::new(0x10000, |i: int| false),
            t.code@ == Seq::new(0x10000, |i: int| false),
            t.written_code@ == Seq::new(0x10000, |i: int| false),
            t.fallthrough is None,
    {
        Trace {
            executed: filled(None, 0x10000),
            self_modified: filled(false, 0x10000),
            entries: filled(false, 0x10000),
            fallthrough: None,
            code: filled(false, 0x10000),
            written_code: filled(false, 0x10000),
        }
    }

    /// The written-code table after a write to `addr`: marked if the byte
    /// there has been executed.
    pub open spec fn marks_write(&self, addr: u16) -> Seq<bool> {
        if self.code@[addr as int] {
            self.written_code@.update(addr as int, true)
        } else {
            self.written_code@
        }
    }

    /// Records the execution of the `len`-byte instruction at `pc`.
    pub fn on_exec(&mut self, pc: u16, mem: &[u8], len: u8)
        requires
            old(self).wf(),
            mem@.len() == 0x10000,
            len <= 4,
        ensures
            final(self).wf(),
            exec_recorded(*old(self), *final(self), pc, mem@, len),
    {
        if self.fallthrough != Some(pc) {
            self.entries.set(pc as usize, true);
        }
        self.fallthrough = Some(((pc as u32 + len as u32) % 65536) as u16);

        let mut bytes = [0u8; 4];
        let mut i: usize = 0;
        while i < len as usize
            invariant
                i <= len,
                len <= 4,
                mem@.len() == 0x10000,
                forall|k: int| 0 <= k < 4 ==> bytes@[k] == (if k < i { byte_of(mem@, pc, len, k) } else { 0 }),
            decreases len - i,
        {
            bytes[i] = mem[((pc as usize) + i) % 65536];
            i = i + 1;
        }
        assert(bytes@ =~= Seq::new(4, |k: int| byte_of(mem@, pc, len, k)));
        match self.executed[pc as usize] {
            Some((l, b)) => {
                let same = l == len && b[0] == bytes[0] && b[1] == bytes[1] && b[2] == bytes[2]
                    && b[3] == bytes[3];
                if !same {
                    self.self_modified.set(pc as usize, true);
                }
                proof {
                    if same {
                        assert(b@ =~= bytes@);
                    } else if b@ == bytes@ {
                        assert(b@[0] == bytes@[0] && b@[1] == bytes@[1] && b@[2] == bytes@[2] && b@[3] == bytes@[3]);
                    }
                }
            },
            None => {
                self.executed.set(pc as usize, Some((len, bytes)));
                let ghost code0 = self.code@;
                let ghost before = *self;
                let mut k: u16 = 0;
                while k < len as u16
                    invariant
                        k <= len,
                        self.entries == before.entries,
                        self.executed == before.executed,
                        self.self_modified == before.self_modified,
                        self.written_code == before.written_code,
                        self.fallthrough == before.fallthrough,
                        len <= 4,
                        self.code@.len() == 0x10000,
                        forall|a: int| 0 <= a < 0x10000 ==> #[trigger] self.code@[a] == (code0[a]
                            || covers(pc, k as int, a)),
                    decreases len - k,
                {
                    let a = ((pc as u32 + k as u32) % 65536) as usize;
                    self.code.set(a, true);
                    k = k + 1;
                    assert forall|x: int| 0 <= x < 0x10000 implies #[trigger] self.code@[x] == (code0[x]
                        || covers(pc, k as int, x)) by {
                        lemma_covers_step(pc, (k - 1) as int, x);
                    }
                }
                assert(self.code@ =~= Seq::new(0x10000, |a: int| code0[a] || covers(pc, len as int, a)));
            },
        }
    }

    /// Called when control is transferred by something other than an
    /// instruction (an interrupt): nothing falls through to the next.
    pub fn on_interrupt(&mut self)
        ensures
            final(self).fallthrough is None,
            final(self).executed == old(self).executed,
            final(self).self_modified == old(self).self_modified,
            final(self).entries == old(self).entries,
            final(self).code == old(self).code,
            final(self).written_code == old(self).written_code,
    {
        self.fallthrough = None;
    }

    /// Records a write to `addr`: code written after it ran.
    pub fn on_write(&mut self, addr: u16)
        requires
            old(self).wf(),
        ensures
            final(self).wf(),
            final(self).written_code@ == old(self).marks_write(addr),
            final(self).fallthrough == old(self).fallthrough,
            final(self).executed == old(self).executed,
            final(self).self_modified == old(self).self_modified,
            final(self).entries == old(self).entries,
            final(self).code == old(self).code,
    {
        if self.code[addr as usize] {
            self.written_code.set(addr as usize, true);
        }
    }
}

} // verus!
