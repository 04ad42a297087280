//! Input: the Spectrum keyboard matrix and Kempston joystick, and the
//! game's configurable controls.

use vstd::prelude::*;

verus! {

/// The state of the input devices, as the original would read them.
#[derive(Clone, Copy, Debug, PartialEq, Eq)]
pub struct Input {
    /// Keyboard half-rows (address lines A8–A15); a 0 bit is a pressed key.
    pub keys: [u8; 8],
    /// Kempston joystick (bit 0 right, 1 left, 2 down, 3 up, 4 fire).
    pub kempston: u8,
    /// A gamepad, as its own input rather than as keys. Not part of what the
    /// original reads: at rest, it is the original.
    pub pad: PadInput,
}

impl Default for Input {
    fn default() -> (i: Input)
        ensures
            forall|r: int| 0 <= r < 8 ==> i.keys[r] == 0xFF,
            i.kempston == 0,
            i.pad == PadInput::rest(),
    {
        Input { keys: [0xFF; 8], kempston: 0, pad: PadInput::default() }
    }
}

/// A gamepad. It moves and fires whatever control method is chosen, pauses
/// with Start, starts a game from the title screen and ends a "press any
/// key" wait, but it never types: whatever the game reads as letters and
/// digits (initials, teleporter codes, the menu) hears the keyboard only.
#[derive(Clone, Copy, Debug, PartialEq, Eq, Structural)]
pub struct PadInput {
    /// Directions and fire, in the joystick's bits (1 right, 2 left, 4 down,
    /// 8 up, 0x10 fire).
    pub bits: u8,
    /// Start: pause in play, and start a game from the title screen.
    pub start: bool,
    /// Which of up's and down's meanings its press carries.
    pub meaning: PadMeaning,
}

impl Default for PadInput {
    fn default() -> (p: PadInput)
        ensures
            p == PadInput::rest(),
    {
        PadInput { bits: 0, start: false, meaning: PadMeaning::default() }
    }
}

impl PadInput {
    /// A pad with nothing pressed.
    pub open spec fn rest() -> PadInput {
        PadInput { bits: 0, start: false, meaning: PadMeaning::both() }
    }

    /// Whether anything on it is pressed: what ends a "press any key" wait.
    pub fn any(&self) -> (b: bool)
        ensures
            b == (self.bits != 0 || self.start),
    {
        self.bits != 0 || self.start
    }
}

/// In the original, up means both picking up an item and boarding or
/// flying the hover platform, and down both building a platform and flying
/// down. A gamepad splits them: the D-pad's up and down only board and fly;
/// the button that is up only picks up, the button that is down only
/// builds. All off, up and down mean both.
#[derive(Clone, Copy, Debug, PartialEq, Eq, Structural)]
pub struct PadMeaning {
    /// Up comes from the D-pad alone: it boards and flies, never picks up.
    pub up_moves_only: bool,
    /// Up comes from its button alone: it picks up, never boards or flies.
    pub up_picks_only: bool,
    /// Down comes from its button alone: it builds, never flies down.
    pub down_builds_only: bool,
    /// Down comes from the D-pad alone: it flies down, never builds.
    pub down_moves_only: bool,
}

impl Default for PadMeaning {
    fn default() -> (m: PadMeaning)
        ensures
            m == PadMeaning::both(),
    {
        PadMeaning { up_moves_only: false, up_picks_only: false, down_builds_only: false, down_moves_only: false }
    }
}

impl PadMeaning {
    /// Up and down each meaning both, as in the original.
    pub open spec fn both() -> PadMeaning {
        PadMeaning { up_moves_only: false, up_picks_only: false, down_builds_only: false, down_moves_only: false }
    }
}

/// Whether address line `row` (A8 + `row`) is low in the high byte `hi`.
pub open spec fn selects(hi: u8, row: int) -> bool {
    hi & (1u8 << (row as u8)) == 0
}

/// The keyboard bits of the first `n` half-rows that `hi` selects, ANDed.
pub open spec fn keyboard_rows(keys: Seq<u8>, hi: u8, n: int) -> u8
    decreases n,
{
    if n <= 0 {
        0x1F
    } else if selects(hi, n - 1) {
        keyboard_rows(keys, hi, n - 1) & keys[n - 1]
    } else {
        keyboard_rows(keys, hi, n - 1)
    }
}

/// The high address byte that selects half-row `row` alone.
pub open spec fn row_port(row: int) -> u8 {
    if row == 0 { 0xFE } else if row == 1 { 0xFD } else if row == 2 { 0xFB } else if row == 3 { 0xF7 }
    else if row == 4 { 0xEF } else if row == 5 { 0xDF } else if row == 6 { 0xBF } else { 0x7F }
}

/// The first half-row `port` selects, if any.
pub open spec fn first_row(port: u8, n: int) -> Option<int>
    decreases n,
{
    if n <= 0 {
        None
    } else {
        match first_row(port, n - 1) {
            Some(r) => Some(r),
            None => if selects(port, n - 1) { Some(n - 1) } else { None },
        }
    }
}

/// Key names in keyboard-matrix order (5 per half-row, from `0xFE` to
/// `0x7F`), in the original.
pub const KEY_NAMES: usize = 0x62D3;
/// Key codes for typing, same order.
pub const KEY_CODES: usize = 0xD5A0;

/// Key `k` of the matrix, half-row `k / 5`, bit `k % 5`, is held.
pub open spec fn held(keys: Seq<u8>, k: int) -> bool {
    keys[k / 5] & (1u8 << ((k % 5) as u8)) == 0
}

/// How many of the first `n` keys of the matrix are held.
pub open spec fn held_count(keys: Seq<u8>, n: int) -> int
    decreases n,
{
    if n <= 0 {
        0
    } else {
        held_count(keys, n - 1) + if held(keys, n - 1) { 1int } else { 0 }
    }
}

/// The code of the last held key among the first `n`, or 0.
pub open spec fn last_code(ram: Seq<u8>, keys: Seq<u8>, n: int) -> u8
    decreases n,
{
    if n <= 0 {
        0
    } else if held(keys, n - 1) {
        ram[KEY_CODES + n - 1]
    } else {
        last_code(ram, keys, n - 1)
    }
}

/// The first key of the matrix among the first `n` whose name is `name`.
pub open spec fn named_key(ram: Seq<u8>, name: u8, n: int) -> Option<int>
    decreases n,
{
    if n <= 0 {
        None
    } else {
        match named_key(ram, name, n - 1) {
            Some(k) => Some(k),
            None => if ram[KEY_NAMES + n - 1] == name { Some(n - 1) } else { None },
        }
    }
}

/// Where the key the game calls `name` is: port high byte and bit.
pub open spec fn key_position_spec(ram: Seq<u8>, name: u8) -> Option<(u8, u8)> {
    match named_key(ram, name, 40) {
        Some(k) => Some((row_port(k / 5), (k % 5) as u8)),
        None => None,
    }
}

proof fn row_port_selects(row: int)
    requires
        0 <= row < 8,
    ensures
        forall|r: int| 0 <= r < 8 ==> (#[trigger] selects(row_port(row), r) <==> r == row),
{
    assert forall|r: int| 0 <= r < 8 implies (#[trigger] selects(row_port(row), r) <==> r == row) by {
        let p = row_port(row);
        let s = r as u8;
        let q = row as u8;
        assert(p & (1u8 << s) == 0 <==> s == q) by (bit_vector)
            requires
                s < 8,
                (q == 0 && p == 0xFE) || (q == 1 && p == 0xFD) || (q == 2 && p == 0xFB) || (q == 3
                    && p == 0xF7) || (q == 4 && p == 0xEF) || (q == 5 && p == 0xDF) || (q == 6 && p
                    == 0xBF) || (q == 7 && p == 0x7F),
        ;
    }
}

/// Reading half-row `row` alone gives its own keys.
proof fn keyboard_one_row(keys: Seq<u8>, row: int, n: int)
    requires
        0 <= row < 8,
        0 <= n <= 8,
    ensures
        keyboard_rows(keys, row_port(row), n) == if row < n { 0x1F & keys[row] } else { 0x1Fu8 },
    decreases n,
{
    row_port_selects(row);
    if n > 0 {
        keyboard_one_row(keys, row, n - 1);
        let k = keyboard_rows(keys, row_port(row), n - 1);
        assert(selects(row_port(row), n - 1) <==> n - 1 == row);
        if n - 1 < row {
            let v = keys[row];
            assert(0x1Fu8 & 0x1Fu8 == 0x1Fu8) by (bit_vector);
        }
    }
}

const ROW_PORTS: [u8; 8] = [0xFE, 0xFD, 0xFB, 0xF7, 0xEF, 0xDF, 0xBF, 0x7F];

impl Input {
    pub open spec fn keyboard_spec(&self, hi: u8) -> u8 {
        keyboard_rows(self.keys@, hi, 8)
    }

    /// Holds down the key at `port`, the high address byte that selects its
    /// half-row, and `bit`.
    pub fn press_key(&mut self, key: (u8, u8))
        requires
            key.1 < 8,
        ensures
            final(self).kempston == old(self).kempston,
            final(self).pad == old(self).pad,
            match first_row(key.0, 8) {
                Some(r) => final(self).keys@ == old(self).keys@.update(r, old(self).keys[r] & !(1u8 << key.1)),
                None => final(self).keys@ == old(self).keys@,
            },
    {
        let (port, bit) = key;
        let mut r: usize = 0;
        while r < 8
            invariant
                r <= 8,
                bit < 8,
                port == key.0,
                bit == key.1,
                *self == *old(self),
                first_row(port, r as int) is None,
            decreases 8 - r,
        {
            if port & (1u8 << (r as u8)) == 0 {
                assert(first_row(port, r as int + 1) == Some(r as int));
                proof {
                    lemma_first_row_stays(port, r as int + 1, 8);
                }
                self.keys[r] = self.keys[r] & !(1u8 << bit);
                return;
            }
            r = r + 1;
        }
        assert(self.keys@ =~= old(self).keys@);
    }

    /// Keyboard bits for port `0xFE` with high address byte `hi`: rows
    /// whose address line is low are combined.
    pub fn keyboard(&self, hi: u8) -> (v: u8)
        ensures
            v == self.keyboard_spec(hi),
    {
        let mut v: u8 = 0x1F;
        let mut row: usize = 0;
        while row < 8
            invariant
                row <= 8,
                v == keyboard_rows(self.keys@, hi, row as int),
            decreases 8 - row,
        {
            if hi & (1u8 << (row as u8)) == 0 {
                v = v & self.keys[row];
            }
            row = row + 1;
        }
        v
    }
}

/// Once the first selected row is found among the first `n`, looking
/// further finds the same.
proof fn lemma_first_row_stays(port: u8, n: int, m: int)
    requires
        first_row(port, n) is Some,
        n <= m,
    ensures
        first_row(port, m) == first_row(port, n),
    decreases m - n,
{
    if m > n {
        lemma_first_row_stays(port, n, m - 1);
    }
}

proof fn lemma_named_key_stays(ram: Seq<u8>, name: u8, n: int, m: int)
    requires
        named_key(ram, name, n) is Some,
        n <= m,
    ensures
        named_key(ram, name, m) == named_key(ram, name, n),
    decreases m - n,
{
    if m > n {
        lemma_named_key_stays(ram, name, n, m - 1);
    }
}

/// The code of the one key held down, or 0 if none or several are
/// (letters and digits are ASCII, space 0x20, Enter 2, the shifts 1 and 3).
pub fn key_code(ram: &[u8], input: &Input) -> (code: u8)
    requires
        ram@.len() >= KEY_CODES + 40,
    ensures
        code == if held_count(input.keys@, 40) == 1 { last_code(ram@, input.keys@, 40) } else { 0 },
{
    let mut code: u8 = 0;
    let mut count: u32 = 0;
    let mut row: usize = 0;
    while row < 8
        invariant
            row <= 8,
            ram@.len() >= KEY_CODES + 40,
            count == held_count(input.keys@, 5 * row as int),
            count <= 5 * row,
            code == last_code(ram@, input.keys@, 5 * row as int),
        decreases 8 - row,
    {
        let port = ROW_PORTS[row];
        let kb = input.keyboard(port);
        proof {
            keyboard_one_row(input.keys@, row as int, 8);
        }
        let bits = !kb & 0x1F;
        let mut bit: usize = 0;
        while bit < 5
            invariant
                row < 8,
                bit <= 5,
                ram@.len() >= KEY_CODES + 40,
                kb == 0x1F & input.keys[row as int],
                bits == !kb & 0x1F,
                count == held_count(input.keys@, 5 * row + bit),
                count <= 5 * row + bit,
                code == last_code(ram@, input.keys@, 5 * row + bit),
            decreases 5 - bit,
        {
            let k = row * 5 + bit;
            let ghost keyrow = input.keys[row as int];
            assert((bits & (1u8 << (bit as u8)) != 0) == (keyrow & (1u8 << (bit as u8)) == 0)) by (bit_vector)
                requires
                    kb == 0x1F & keyrow,
                    bits == !kb & 0x1F,
                    bit < 5,
            ;
            assert(k / 5 == row && k % 5 == bit);
            if bits & (1u8 << (bit as u8)) != 0 {
                code = ram[KEY_CODES + k];
                count = count + 1;
            }
            bit = bit + 1;
        }
        row = row + 1;
    }
    if count == 1 {
        code
    } else {
        0
    }
}

/// Whether any key at all is held. Unlike [`key_code`] this does not care
/// how many are down; the music player tests the keyboard this way.
pub fn any_key(input: &Input) -> (b: bool)
    ensures
        b == exists|r: int| 0 <= r < 8 && #[trigger] input.keys[r] & 0x1F != 0x1F,
{
    let mut r: usize = 0;
    while r < 8
        invariant
            r <= 8,
            forall|k: int| 0 <= k < r ==> #[trigger] input.keys[k] & 0x1F == 0x1F,
        decreases 8 - r,
    {
        if input.keys[r] & 0x1F != 0x1F {
            return true;
        }
        r = r + 1;
    }
    false
}

/// Finds the matrix position (port high byte, bit) of the key the game
/// calls `name`.
pub fn key_position(ram: &[u8], name: u8) -> (pos: Option<(u8, u8)>)
    requires
        ram@.len() >= KEY_NAMES + 40,
    ensures
        pos == key_position_spec(ram@, name),
{
    let mut k: usize = 0;
    while k < 40
        invariant
            k <= 40,
            ram@.len() >= KEY_NAMES + 40,
            named_key(ram@, name, k as int) is None,
        decreases 40 - k,
    {
        if ram[KEY_NAMES + k] == name {
            assert(named_key(ram@, name, k as int + 1) == Some(k as int));
            proof {
                lemma_named_key_stays(ram@, name, k as int + 1, 40);
            }
            return Some((ROW_PORTS[k / 5], (k % 5) as u8));
        }
        k = k + 1;
    }
    None
}

/// Which controls are in use. The original keeps these as operands inside
/// its input routine, which the menu rewrites.
#[derive(Clone, Copy, Debug, PartialEq, Eq)]
pub struct Controls {
    pub kempston: bool,
    /// Bits before any key is read (always 0 in practice).
    pub initial: u8,
    /// Keyboard controls: port high byte, bit, and direction bits to add,
    /// in the order left, down, up, right, fire.
    pub keys: [(u8, u8, u8); 5],
    /// Pause key: port high byte and bit.
    pub pause: (u8, u8),
}

/// Where the operands live in the original.
pub const KEMPSTON_FLAG: usize = 0xC567;
pub const INITIAL: usize = 0xC577;
pub const PORTS: [usize; 5] = [0xC57A, 0xC585, 0xC590, 0xC59B, 0xC5A6];
pub const BIT_OPCODES: [usize; 5] = [0xC57E, 0xC589, 0xC594, 0xC59F, 0xC5AA];
pub const VALUES: [usize; 5] = [0xC582, 0xC58D, 0xC598, 0xC5A3, 0xC5AD];
pub const PAUSE_PORT: usize = 0xC55C;
/// The operand byte of `bit n,a`, past the `CB` prefix: as with the keys
/// above, it is the second byte that carries the bit number.
pub const PAUSE_BIT_OPCODE: usize = 0xC560;

/// The bit number in the operand byte of a `bit n,<reg>` instruction whose
/// register field is `base`'s.
pub open spec fn bit_of_opcode(op: u8, base: u8) -> u8 {
    ((((op - base) % 256) as u8) >> 3u8) & 7
}

/// The order the game's tables name the keys in (left, right, down, up,
/// fire), as slots of [`Controls::keys`].
pub open spec fn slot_of(i: int) -> int {
    if i == 0 { 0 } else if i == 1 { 3 } else if i == 2 { 1 } else if i == 3 { 2 } else { 4 }
}

const ORDER: [usize; 5] = [0, 3, 1, 2, 4];

/// Whether `key` (port, bit, value) is held.
pub open spec fn key_held(input: Input, key: (u8, u8, u8)) -> bool {
    input.keyboard_spec(key.0) & (1u8 << key.1) == 0
}

/// The value bits of the first `n` held keys, added up from `initial`.
pub open spec fn keys_sum(input: Input, keys: Seq<(u8, u8, u8)>, initial: u8, n: int) -> u8
    decreases n,
{
    if n <= 0 {
        initial
    } else if key_held(input, keys[n - 1]) {
        ((keys_sum(input, keys, initial, n - 1) + keys[n - 1].2) % 256) as u8
    } else {
        keys_sum(input, keys, initial, n - 1)
    }
}

/// Whether `c` holds the controls the memory image's input routine has as
/// its operands.
pub open spec fn controls_read(mem: Seq<u8>, c: Controls) -> bool {
    &&& c.kempston == (mem[KEMPSTON_FLAG as int] == 1)
    &&& c.initial == mem[INITIAL as int]
    &&& forall|i: int|
        0 <= i < 5 ==> #[trigger] c.keys[i] == (
            mem[PORTS[i] as int],
            bit_of_opcode(mem[BIT_OPCODES[i] as int], 0x42),
            mem[VALUES[i] as int],
        )
    &&& c.pause == (mem[PAUSE_PORT as int], bit_of_opcode(mem[PAUSE_BIT_OPCODE as int], 0x47))
}

impl Controls {
    /// What the original's input routine reads for the chosen method.
    pub open spec fn method_spec(&self, input: Input) -> u8 {
        if self.kempston && input.kempston != 0 {
            input.kempston
        } else {
            keys_sum(input, self.keys@, self.initial, 5)
        }
    }

    pub fn from_memory(mem: &[u8]) -> (c: Controls)
        requires
            mem@.len() >= 0xC5AE,
        ensures
            controls_read(mem@, c),
    {
        let mut keys = [(0u8, 0u8, 0u8); 5];
        let mut i: usize = 0;
        while i < 5
            invariant
                i <= 5,
                mem@.len() >= 0xC5AE,
                forall|j: int|
                    0 <= j < i ==> #[trigger] keys[j] == (
                        mem@[PORTS[j] as int],
                        bit_of_opcode(mem@[BIT_OPCODES[j] as int], 0x42),
                        mem@[VALUES[j] as int],
                    ),
            decreases 5 - i,
        {
            let op = mem[BIT_OPCODES[i]];
            let bit = (((op as u16 + 256 - 0x42) % 256) as u8 >> 3u8) & 7;
            keys[i] = (mem[PORTS[i]], bit, mem[VALUES[i]]);
            i = i + 1;
        }
        let op = mem[PAUSE_BIT_OPCODE];
        Controls {
            kempston: mem[KEMPSTON_FLAG] == 1,
            initial: mem[INITIAL],
            keys,
            pause: (mem[PAUSE_PORT], (((op as u16 + 256 - 0x47) % 256) as u8 >> 3u8) & 7),
        }
    }

    /// Sets the five control keys and the pause key by name, in the order
    /// the game's tables use: left, right, down, up, fire; then the pause
    /// key. Each name is one the Spectrum's keyboard has: the names come
    /// from the original's own table.
    pub fn set_keys(&mut self, ram: &[u8], names: [u8; 5], pause: u8)
        requires
            ram@.len() >= KEY_NAMES + 40,
            forall|i: int| 0 <= i < 5 ==> #[trigger] key_position_spec(ram@, names[i]) is Some,
            key_position_spec(ram@, pause) is Some,
        ensures
            final(self).kempston == old(self).kempston,
            final(self).initial == old(self).initial,
            forall|i: int|
                0 <= i < 5 ==> {
                    let p = key_position_spec(ram@, #[trigger] names[i])->0;
                    final(self).keys[slot_of(i)] == (p.0, p.1, old(self).keys[slot_of(i)].2)
                },
            final(self).pause == key_position_spec(ram@, pause)->0,
    {
        let mut i: usize = 0;
        while i < 5
            invariant
                i <= 5,
                ram@.len() >= KEY_NAMES + 40,
                forall|j: int| 0 <= j < 5 ==> #[trigger] key_position_spec(ram@, names[j]) is Some,
                self.kempston == old(self).kempston,
                self.initial == old(self).initial,
                self.pause == old(self).pause,
                forall|j: int|
                    0 <= j < i ==> {
                        let p = key_position_spec(ram@, #[trigger] names[j])->0;
                        self.keys[slot_of(j)] == (p.0, p.1, old(self).keys[slot_of(j)].2)
                    },
                forall|j: int| i <= j < 5 ==> #[trigger] self.keys[slot_of(j)] == old(self).keys[slot_of(j)],
            decreases 5 - i,
        {
            let slot = ORDER[i];
            assert(slot == slot_of(i as int));
            let pos = key_position(ram, names[i]);
            match pos {
                Some((port, bit)) => {
                    let value = self.keys[slot].2;
                    self.keys[slot] = (port, bit, value);
                },
                None => {},
            }
            i = i + 1;
        }
        match key_position(ram, pause) {
            Some(p) => self.pause = p,
            None => {},
        }
    }

    /// The method's pause key, or a gamepad's Start.
    pub fn pause_pressed(&self, input: &Input) -> (b: bool)
        requires
            self.pause.1 < 8,
        ensures
            b == (input.keyboard_spec(self.pause.0) & (1u8 << self.pause.1) == 0 || input.pad.start),
    {
        input.keyboard(self.pause.0) & (1u8 << self.pause.1) == 0 || input.pad.start
    }

    /// Direction bits (1 right, 2 left, 4 down, 8 up) and fire (0x10): the
    /// method's own, and a gamepad's on top whatever the method.
    pub fn read(&self, input: &Input) -> (v: u8)
        requires
            forall|i: int| 0 <= i < 5 ==> #[trigger] self.keys[i].1 < 8,
        ensures
            v == self.method_spec(*input) | input.pad.bits,
    {
        self.read_method(input) | input.pad.bits
    }

    /// What the original's input routine reads for the chosen method.
    fn read_method(&self, input: &Input) -> (v: u8)
        requires
            forall|i: int| 0 <= i < 5 ==> #[trigger] self.keys[i].1 < 8,
        ensures
            v == self.method_spec(*input),
    {
        if self.kempston && input.kempston != 0 {
            return input.kempston;
        }
        let mut v = self.initial;
        let mut i: usize = 0;
        while i < 5
            invariant
                i <= 5,
                forall|j: int| 0 <= j < 5 ==> #[trigger] self.keys[j].1 < 8,
                v == keys_sum(*input, self.keys@, self.initial, i as int),
            decreases 5 - i,
        {
            let key = self.keys[i];
            if input.keyboard(key.0) & (1u8 << key.1) == 0 {
                v = ((v as u16 + key.2 as u16) % 256) as u8;
            }
            i = i + 1;
        }
        v
    }
}

/// The keys held do not depend on a gamepad: two inputs with the same
/// keyboard give the same sum.
proof fn keys_sum_keyboard_only(a: Input, b: Input, keys: Seq<(u8, u8, u8)>, initial: u8, n: int)
    requires
        a.keys == b.keys,
    ensures
        keys_sum(a, keys, initial, n) == keys_sum(b, keys, initial, n),
    decreases n,
{
    if n > 0 {
        keys_sum_keyboard_only(a, b, keys, initial, n - 1);
    }
}

/// The bits of a half-row with its five keys up.
proof fn up_bits()
    by (bit_vector)
    ensures
        0x1Fu8 & 0xFFu8 == 0x1F,
        forall|b: u8| b < 5 ==> #[trigger] (0x1Fu8 & (1u8 << b)) != 0,
        forall|p: u8| #[trigger] (0u8 | p) == p,
{
}

/// With every key up, every half-row reads its five keys up.
proof fn rows_up(keys: Seq<u8>, hi: u8, n: int)
    requires
        n <= keys.len(),
        forall|r: int| 0 <= r < keys.len() ==> #[trigger] keys[r] == 0xFF,
    ensures
        keyboard_rows(keys, hi, n) == 0x1F,
    decreases n,
{
    if n > 0 {
        rows_up(keys, hi, n - 1);
        up_bits();
    }
}

/// With every key up, none of a method's five keys is held, so the sum is
/// what it starts from.
proof fn keys_sum_up(input: Input, keys: Seq<(u8, u8, u8)>, initial: u8, n: int)
    requires
        forall|r: int| 0 <= r < 8 ==> #[trigger] input.keys[r] == 0xFF,
        forall|i: int| 0 <= i < n ==> #[trigger] keys[i].1 < 5,
    ensures
        keys_sum(input, keys, initial, n) == initial,
    decreases n,
{
    if n > 0 {
        keys_sum_up(input, keys, initial, n - 1);
        let k = keys[n - 1];
        rows_up(input.keys@, k.0, 8);
        up_bits();
    }
}

/// A gamepad adds its bits to whatever the chosen method reads, and the
/// method reads the same with the pad at rest; so with every key up, the
/// joystick at rest and nothing to start from, the controls read the
/// pad's bits alone, whichever method is chosen.
pub proof fn a_pad_adds_its_bits(c: Controls, input: Input)
    requires
        forall|i: int| 0 <= i < 5 ==> #[trigger] c.keys[i].1 < 5,
    ensures
        c.method_spec(input) == c.method_spec(Input { pad: PadInput::rest(), ..input }),
        (forall|r: int| 0 <= r < 8 ==> #[trigger] input.keys[r] == 0xFF) && input.kempston == 0 && c.initial == 0
            ==> c.method_spec(input) | input.pad.bits == input.pad.bits,
{
    let rested = Input { pad: PadInput::rest(), ..input };
    keys_sum_keyboard_only(input, rested, c.keys@, c.initial, 5);
    if (forall|r: int| 0 <= r < 8 ==> #[trigger] input.keys[r] == 0xFF) && input.kempston == 0 && c.initial == 0 {
        keys_sum_up(input, c.keys@, c.initial, 5);
        up_bits();
    }
}

} // verus!
