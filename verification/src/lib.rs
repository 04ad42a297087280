//! A statically recompiled ZX Spectrum 48K runtime and the pieces of the
//! Starquake rewrite that do not draw or play: the Z80 decoder, the bus
//! timing, the tape loader, the machine with its ALU and interpreter, and
//! the guidance panel's state.

pub mod text;
pub mod lines;
pub mod timing;
pub mod bus;
pub mod decode;
pub mod fields;
pub mod disasm;
pub mod tape;
pub mod snapshot;
pub mod trace;
pub mod machine;
pub mod alu;
pub mod block;
pub mod interp;
pub mod run;
pub mod cycles;
pub mod config;
pub mod analysis;
pub mod game;
pub mod assets;
pub mod entities;
pub mod hud;
pub mod room;
pub mod collide;
pub mod newgame;
pub mod enemies;
pub mod cores;
pub mod sprites;
pub mod pickups;
pub mod rng;
pub mod host;
pub mod controls;
pub mod map;
pub mod display;
pub mod printer;
pub mod screens;
pub mod recomp;
pub mod sound;
pub mod music;
pub mod listing;
pub mod equal;
pub mod frontend;
