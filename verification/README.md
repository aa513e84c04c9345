# phosphor_machines

Verified logic of a handful of arcade boards: address decoding, video
composition, interrupts, latches, switches and saved states, with what each
function does stated in its contract and proved by Verus.

- `src/btime.rs`, `burgertime.rs` - Data East btime board and Burger Time
- `src/congo_bongo.rs`, `congo_sound.rs`, `congo_circuit.rs` - Congo Bongo
- `src/ccastles.rs` - Crystal Castles
- `src/atari_dvg.rs`, `asteroids*.rs`, `astdelux.rs` - the monochrome vector
  board, Asteroids and Asteroids Deluxe
- `src/atari_avg.rs` - the colour vector board
- `src/atari_system1*.rs` - Atari System 1 and its sound board
- `src/atari_jsa.rs` - the JSA-I sound board
- `src/frame.rs` - the frame loop, whatever the CPUs and chips do in a cycle
- the other modules in `src/` are shared: graphics decoding, controls, switches,
  ROM manifests, netlists, registries, saved states
- `tests/` runs the library on concrete values
- `app/` holds what is not verified: CPU and chip loops, machines out of ROM
  sets, whole saved states, the vector rasterizer and the sound simulation,
  which are floating point or talk to chips and the host

Each board is a plain value; its `@` view is the mathematical model that the
contracts speak of. Reads and writes that belong to a chip come back as an
action for the caller to perform. Properties that relate several functions are
the public `law_*` proof functions.
