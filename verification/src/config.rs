//! Per-game recompiler configuration: everything game-specific except the
//! game itself, namely the file names and hashes of the user-supplied
//! snapshot and ROM, analysis hints, and the scripted input used to trace
//! the game. The program reads it from the game's TOML file.

use vstd::prelude::*;

verus! {

pub struct Config {
    pub game: Game,
    pub analysis: Analysis,
    pub trace: Trace,
}

pub struct Game {
    pub name: String,
    /// Snapshot file name, looked up in the assets directory.
    pub snapshot: String,
    /// Expected SHA-1 of the snapshot file. Builds fail on a mismatch.
    pub snapshot_sha1: Option<String>,
    /// 48K ROM file name. Without it, ROM code cannot run.
    pub rom: Option<String>,
    pub rom_sha1: Option<String>,
}

pub struct Analysis {
    /// Extra code entry points (targets of computed jumps and the like).
    pub entry_points: Vec<u16>,
    /// Call/RST targets that do not return to the instruction after the call
    /// (for example ROM `RST 8` error reports, or routines that read inline
    /// data after the call).
    pub noreturn: Vec<u16>,
    /// Routines that print the `0xFF`-terminated string following the CALL
    /// and return after it.
    pub inline_strings: Vec<u16>,
    /// Inclusive address ranges that are always interpreted, never compiled.
    pub interpret: Vec<[u16; 2]>,
    /// Longest block, in instructions, before it is split.
    pub max_block_instrs: usize,
}

/// The longest block when the configuration does not say.
pub const DEFAULT_MAX_BLOCK: usize = 256;

impl Default for Analysis {
    fn default() -> (a: Analysis)
        ensures
            a.entry_points@.len() == 0,
            a.noreturn@.len() == 0,
            a.inline_strings@.len() == 0,
            a.interpret@.len() == 0,
            a.max_block_instrs == DEFAULT_MAX_BLOCK,
    {
        Analysis {
            entry_points: Vec::new(),
            noreturn: Vec::new(),
            inline_strings: Vec::new(),
            interpret: Vec::new(),
            max_block_instrs: DEFAULT_MAX_BLOCK,
        }
    }
}

/// Headless run used to discover code, computed jump targets and
/// self-modifying code.
pub struct Trace {
    pub frames: u32,
    /// Scripted key presses.
    pub input: Vec<InputEvent>,
    /// Random input to explore more of the game.
    pub random: Option<RandomInput>,
}

/// How many frames a trace runs when the configuration does not say.
pub const DEFAULT_FRAMES: u32 = 3000;

impl Default for Trace {
    fn default() -> (t: Trace)
        ensures
            t.frames == DEFAULT_FRAMES,
            t.input@.len() == 0,
            t.random is None,
    {
        Trace { frames: DEFAULT_FRAMES, input: Vec::new(), random: None }
    }
}

pub struct InputEvent {
    /// Frame at which the keys go down.
    pub at: u32,
    /// Frames to hold them.
    pub hold: u32,
    /// Key names.
    pub keys: Vec<String>,
}

/// How long a scripted key is held when the configuration does not say.
pub const DEFAULT_HOLD: u32 = 3;

pub struct RandomInput {
    /// First frame of random input.
    pub start: u32,
    /// Frames between changes of the held keys.
    pub every: u32,
    /// Keys to choose from. Each change holds up to two of them.
    pub keys: Vec<String>,
    pub seed: u64,
}

/// How often random input changes when the configuration does not say.
pub const DEFAULT_EVERY: u32 = 8;

} // verus!
