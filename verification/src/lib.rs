//! Arcade board logic: address decoding, video composition, interrupts and
//! cabinet wiring of the boards in this crate, with their contracts.

pub mod arith;
pub mod astdelux;
pub mod asteroids;
pub mod asteroids_circuit;
pub mod asteroids_laws;
pub mod asteroids_noise;
pub mod asteroids_sound;
pub mod atari_avg;
pub mod atari_dvg;
pub mod atari_jsa;
pub mod atari_jsa_laws;
pub mod atari_system1;
pub mod atari_system1_bus_laws;
pub mod atari_system1_laws;
pub mod atari_system1_sound;
pub mod bits;
pub mod board_laws;
pub mod btime;
pub mod btime_bus_laws;
pub mod btime_laws;
pub mod burgertime;
pub mod ccastles;
pub mod ccastles_bus_laws;
pub mod ccastles_laws;
pub mod circuit;
pub mod congo_bongo;
pub mod congo_bongo_laws;
pub mod congo_bus_laws;
pub mod congo_circuit;
pub mod congo_sound;
pub mod dip;
pub mod disasm_registry;
pub mod frame;
pub mod gfx;
pub mod gfx_laws;
pub mod gfx_registry;
pub mod input;
pub mod machine;
pub mod memory;
pub mod registry;
pub mod rom;
pub mod rom_laws;
pub mod state;
pub mod trace;
