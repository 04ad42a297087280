//! The music player's instructions that the ULA can charge for, each
//! spelled out as the machine cycles it really makes.
//!
//! The rest of the player is register work and reads of its own tables, all
//! above 0x8000 where the ULA does not reach, so it costs what the manual
//! says and is added plainly. These are the exceptions, and they are charged
//! through [`crate::bus`], the same functions the reference interpreter uses.

use vstd::prelude::*;
use crate::bus::{charge_io, charge_io_spec, IO_MAX};

verus! {

/// The port a speaker or keyboard byte goes out or comes in on: the byte in
/// the high half, 0xFE in the low.
pub open spec fn port_of(high: u8) -> u16 {
    (high as int * 256 + 0xFE) as u16
}

/// `OUT (n),A`: the opcode and the port number, then the I/O cycle.
///
/// The port is A in the high byte and 0xFE in the low, and A holds the
/// speaker byte here, so the high byte is never in the ULA's own range:
/// the processor gets one free T-state and then waits three.
pub fn out_n_a(t: &mut u32, a: u8)
    requires
        *old(t) as int + 7 + IO_MAX <= u32::MAX,
    ensures
        *final(t) as int == charge_io_spec(*old(t) + 7, port_of(a)),
{
    *t = *t + 4 + 3;
    charge_io(t, (a as u16) * 256 + 0xFE);
}

/// `IN r,(C)`: two opcode fetches, then the I/O cycle.
///
/// The port is BC, and B is the keyboard half-row, which the player
/// rotates every half-cycle. Seven of the eight rows have a high byte
/// outside the ULA's own range, but `0x7F` is inside it, and a port in
/// that range is held up at the start of the cycle as well as in the
/// middle. So one half-cycle in eight costs more than its neighbours.
pub fn in_r_c(t: &mut u32, row: u8)
    requires
        *old(t) as int + 8 + IO_MAX <= u32::MAX,
    ensures
        *final(t) as int == charge_io_spec(*old(t) + 8, port_of(row)),
{
    *t = *t + 4 + 4;
    charge_io(t, (row as u16) * 256 + 0xFE);
}

} // verus!
