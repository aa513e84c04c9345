//! Asteroids (Atari, 1979) on the DVG vector board, with discrete sound and a
//! RAM whose upper quarters the program can swap.

use vstd::prelude::*;

use crate::asteroids_sound::{
    AsteroidsDiscreteSound, REGISTERS_LEN, SoundView, law_registers_round_trip,
};
use crate::atari_dvg::{
    AtariDvgBoard, DvgMap, DvgView, DvgWindow, Region, DSW_UNDRIVEN, WATCHDOG_FRAMES, in0_line, map_fits, mux_line,
    lemma_undriven_lines_read_high, ramsel_addr, law_state_round_trip, law_toggle_pairs_hold_the_byte, read_in0, read_in1, read_toggles, size_of, swapped_by_ramsel, toggle_pair, window_at, window_from,
    size_from,
};
use crate::bits::{bit, bit_is_set, lemma_with_bit_twice, set_bit_active_high, with_bit};
use crate::dip::{BankTable, DipOption, DipSwitchBank, all_immediate, apply_mask, choice, law_option_changes_only_its_bits, masked, option, tables, valid_bank};
use crate::input::{
    ActionRole, DefaultBindings, InputControl, InputEvent, InputKind, SharedBindings, control,
    control_of,
};
use crate::machine::InterruptState;
use crate::memory::{SaveError, overlaid, zeros};
use crate::rom::{RomEntry, RomRegion, RomTable, chip, chips_fit};
use crate::state::{StateReader, StateWriter};
use crate::trace::DebugEvent;

verus! {

/// Program ROM.
pub open spec fn program_rom_chips() -> Seq<RomTable> {
    seq![
        ("035145-04e.ef2", 0x0800int, 0x0000int, seq![0xb503eaf7u32]),
        ("035144-04e.h2", 0x0800int, 0x0800int, seq![0x25233192u32]),
        ("035143-02.j2", 0x0800int, 0x1000int, seq![0x312caa02u32]),
    ]
}

/// Program ROM.
pub fn asteroids_program_rom() -> (r: RomRegion)
    ensures
        r.size == 0x1800,
        r.table() == program_rom_chips(),
        chips_fit(r.size as int, r.table()),
{
    let c0: RomEntry = chip("035145-04e.ef2", 0x0800, 0x0000, vec![0xb503eaf7]);
    assert(c0.crc32@ =~= program_rom_chips()[0].3);
    let c1: RomEntry = chip("035144-04e.h2", 0x0800, 0x0800, vec![0x25233192]);
    assert(c1.crc32@ =~= program_rom_chips()[1].3);
    let c2: RomEntry = chip("035143-02.j2", 0x0800, 0x1000, vec![0x312caa02]);
    assert(c2.crc32@ =~= program_rom_chips()[2].3);
    let r: RomRegion = RomRegion { size: 0x1800, entries: vec![c0, c1, c2] };
    assert(r.table() =~= program_rom_chips());
    r
}

/// Vector ROM.
pub open spec fn vector_rom_chips() -> Seq<RomTable> {
    seq![
        ("035127-02.np3", 0x0800int, 0x0000int, seq![0x8b71fd9eu32]),
    ]
}

/// Vector ROM.
pub fn asteroids_vector_rom() -> (r: RomRegion)
    ensures
        r.size == 0x0800,
        r.table() == vector_rom_chips(),
        chips_fit(r.size as int, r.table()),
{
    let c0: RomEntry = chip("035127-02.np3", 0x0800, 0x0000, vec![0x8b71fd9e]);
    assert(c0.crc32@ =~= vector_rom_chips()[0].3);
    let r: RomRegion = RomRegion { size: 0x0800, entries: vec![c0] };
    assert(r.table() =~= vector_rom_chips());
    r
}

pub const INPUT_COIN: u8 = 0;

pub const INPUT_START1: u8 = 1;

pub const INPUT_START2: u8 = 2;

pub const INPUT_THRUST: u8 = 3;

pub const INPUT_FIRE: u8 = 4;

pub const INPUT_HYPERSPACE: u8 = 5;

pub const INPUT_ROT_LEFT: u8 = 6;

pub const INPUT_ROT_RIGHT: u8 = 7;

/// The logical controls.
pub open spec fn control_table() -> Seq<InputControl> {
    seq![
        control_of(INPUT_COIN as u16, "coin", "Coin", InputKind::Coin, None, DefaultBindings::Shared(SharedBindings::Coin)),
        control_of(INPUT_START1 as u16, "p1_start", "P1 Start", InputKind::Start, Some(1u8), DefaultBindings::Shared(SharedBindings::P1Start)),
        control_of(INPUT_START2 as u16, "p2_start", "P2 Start", InputKind::Start, Some(2u8), DefaultBindings::Shared(SharedBindings::P2Start)),
        control_of(INPUT_THRUST as u16, "thrust", "Thrust", InputKind::Button, Some(1u8), DefaultBindings::Shared(SharedBindings::P1Up)),
        control_of(INPUT_FIRE as u16, "fire", "Fire", InputKind::Action(ActionRole::Primary), Some(1u8), DefaultBindings::Unbound),
        control_of(INPUT_HYPERSPACE as u16, "hyperspace", "Hyperspace", InputKind::Action(ActionRole::Secondary), Some(1u8), DefaultBindings::Unbound),
        control_of(INPUT_ROT_LEFT as u16, "rotate_left", "Rotate Left", InputKind::Button, Some(1u8), DefaultBindings::Shared(SharedBindings::P1Left)),
        control_of(INPUT_ROT_RIGHT as u16, "rotate_right", "Rotate Right", InputKind::Button, Some(1u8), DefaultBindings::Shared(SharedBindings::P1Right)),
    ]
}

fn controls() -> (v: Vec<InputControl>)
    ensures
        v@ == control_table(),
{
    let v: Vec<InputControl> = vec![
        control(INPUT_COIN as u16, "coin", "Coin", InputKind::Coin, None, DefaultBindings::Shared(SharedBindings::Coin)),
        control(INPUT_START1 as u16, "p1_start", "P1 Start", InputKind::Start, Some(1), DefaultBindings::Shared(SharedBindings::P1Start)),
        control(INPUT_START2 as u16, "p2_start", "P2 Start", InputKind::Start, Some(2), DefaultBindings::Shared(SharedBindings::P2Start)),
        control(INPUT_THRUST as u16, "thrust", "Thrust", InputKind::Button, Some(1), DefaultBindings::Shared(SharedBindings::P1Up)),
        control(INPUT_FIRE as u16, "fire", "Fire", InputKind::Action(ActionRole::Primary), Some(1), DefaultBindings::Unbound),
        control(INPUT_HYPERSPACE as u16, "hyperspace", "Hyperspace", InputKind::Action(ActionRole::Secondary), Some(1), DefaultBindings::Unbound),
        control(INPUT_ROT_LEFT as u16, "rotate_left", "Rotate Left", InputKind::Button, Some(1), DefaultBindings::Shared(SharedBindings::P1Left)),
        control(INPUT_ROT_RIGHT as u16, "rotate_right", "Rotate Right", InputKind::Button, Some(1), DefaultBindings::Shared(SharedBindings::P1Right)),
    ];
    assert(v@ =~= control_table());
    v
}

/// Game options and coinage, read through the option multiplexer.
pub open spec fn options_table() -> BankTable {
    (
        "DSW1",
        seq![
            (
                "Language",
                0x03u8,
                seq![
                    ("English", 0x00u8),
                    ("German", 0x01u8),
                    ("French", 0x02u8),
                    ("Spanish", 0x03u8),
                ],
            ),
            (
                "Lives",
                0x04u8,
                seq![
                    ("4", 0x00u8),
                    ("3", 0x04u8),
                ],
            ),
            (
                "Center Mech",
                0x08u8,
                seq![
                    ("x1", 0x00u8),
                    ("x2", 0x08u8),
                ],
            ),
            (
                "Right Mech",
                0x30u8,
                seq![
                    ("x1", 0x00u8),
                    ("x4", 0x10u8),
                    ("x5", 0x20u8),
                    ("x6", 0x30u8),
                ],
            ),
            (
                "Coinage",
                0xC0u8,
                seq![
                    ("Free Play", 0x00u8),
                    ("1 Coin/2 Credits", 0x40u8),
                    ("1 Coin/1 Credit", 0x80u8),
                    ("2 Coins/1 Credit", 0xC0u8),
                ],
            ),
        ],
    )
}

fn options_bank() -> (bank: DipSwitchBank)
    ensures
        bank.table() == options_table(),
        bank.immediate(),
{
    let o0: DipOption = option(
        "Language",
        0x03,
        vec![
            choice("English", 0x00),
            choice("German", 0x01),
            choice("French", 0x02),
            choice("Spanish", 0x03),
        ],
    );
    assert(o0.table().2 =~= options_table().1[0].2);
    let o1: DipOption = option(
        "Lives",
        0x04,
        vec![
            choice("4", 0x00),
            choice("3", 0x04),
        ],
    );
    assert(o1.table().2 =~= options_table().1[1].2);
    let o2: DipOption = option(
        "Center Mech",
        0x08,
        vec![
            choice("x1", 0x00),
            choice("x2", 0x08),
        ],
    );
    assert(o2.table().2 =~= options_table().1[2].2);
    let o3: DipOption = option(
        "Right Mech",
        0x30,
        vec![
            choice("x1", 0x00),
            choice("x4", 0x10),
            choice("x5", 0x20),
            choice("x6", 0x30),
        ],
    );
    assert(o3.table().2 =~= options_table().1[3].2);
    let o4: DipOption = option(
        "Coinage",
        0xC0,
        vec![
            choice("Free Play", 0x00),
            choice("1 Coin/2 Credits", 0x40),
            choice("1 Coin/1 Credit", 0x80),
            choice("2 Coins/1 Credit", 0xC0),
        ],
    );
    assert(o4.table().2 =~= options_table().1[4].2);
    let bank: DipSwitchBank = DipSwitchBank { name: "DSW1", options: vec![o0, o1, o2, o3, o4] };
    assert(bank.table().1 =~= options_table().1);
    bank
}

/// The self-test switch.
pub open spec fn service_table() -> BankTable {
    (
        "Service",
        seq![
            (
                "Self-Test",
                0x80u8,
                seq![
                    ("Off", 0x00u8),
                    ("On", 0x80u8),
                ],
            ),
        ],
    )
}

fn service_bank() -> (bank: DipSwitchBank)
    ensures
        bank.table() == service_table(),
        bank.immediate(),
{
    let o0: DipOption = option(
        "Self-Test",
        0x80,
        vec![
            choice("Off", 0x00),
            choice("On", 0x80),
        ],
    );
    assert(o0.table().2 =~= service_table().1[0].2);
    let bank: DipSwitchBank = DipSwitchBank { name: "Service", options: vec![o0] };
    assert(bank.table().1 =~= service_table().1);
    bank
}

/// Both banks are valid, and the power-on bytes select a choice of every option.
pub proof fn law_dip_tables_are_valid()
    ensures
        valid_bank(options_table(), 0x84),
        valid_bank(service_table(), 0x00),
{
    assert({
        &&& 0x03u8 != 0
        &&& 0x00u8 & !0x03u8 == 0
        &&& 0x01u8 & !0x03u8 == 0
        &&& 0x02u8 & !0x03u8 == 0
        &&& 0x03u8 & !0x03u8 == 0
        &&& 0x84u8 & 0x03u8 == 0x00
        &&& 0x03u8 & 0x04u8 == 0
        &&& 0x03u8 & 0x08u8 == 0
        &&& 0x03u8 & 0x30u8 == 0
        &&& 0x03u8 & 0xC0u8 == 0
        &&& 0x04u8 != 0
        &&& 0x00u8 & !0x04u8 == 0
        &&& 0x04u8 & !0x04u8 == 0
        &&& 0x84u8 & 0x04u8 == 0x04
        &&& 0x04u8 & 0x08u8 == 0
        &&& 0x04u8 & 0x30u8 == 0
        &&& 0x04u8 & 0xC0u8 == 0
        &&& 0x08u8 != 0
        &&& 0x00u8 & !0x08u8 == 0
        &&& 0x08u8 & !0x08u8 == 0
        &&& 0x84u8 & 0x08u8 == 0x00
        &&& 0x08u8 & 0x30u8 == 0
        &&& 0x08u8 & 0xC0u8 == 0
        &&& 0x30u8 != 0
        &&& 0x00u8 & !0x30u8 == 0
        &&& 0x10u8 & !0x30u8 == 0
        &&& 0x20u8 & !0x30u8 == 0
        &&& 0x30u8 & !0x30u8 == 0
        &&& 0x84u8 & 0x30u8 == 0x00
        &&& 0x30u8 & 0xC0u8 == 0
        &&& 0xC0u8 != 0
        &&& 0x00u8 & !0xC0u8 == 0
        &&& 0x40u8 & !0xC0u8 == 0
        &&& 0x80u8 & !0xC0u8 == 0
        &&& 0xC0u8 & !0xC0u8 == 0
        &&& 0x84u8 & 0xC0u8 == 0x80
        &&& 0x80u8 != 0
        &&& 0x00u8 & !0x80u8 == 0
        &&& 0x80u8 & !0x80u8 == 0
        &&& 0x00u8 & 0x80u8 == 0x00
    }) by (bit_vector);
    assert(options_table().1[0].2[0].1 == 0x84u8 & options_table().1[0].1);
    assert(options_table().1[1].2[1].1 == 0x84u8 & options_table().1[1].1);
    assert(options_table().1[2].2[0].1 == 0x84u8 & options_table().1[2].1);
    assert(options_table().1[3].2[0].1 == 0x84u8 & options_table().1[3].1);
    assert(options_table().1[4].2[2].1 == 0x84u8 & options_table().1[4].1);
    assert(service_table().1[0].2[0].1 == 0x00u8 & service_table().1[0].1);
}

/// Both banks.
pub open spec fn dip_tables() -> Seq<BankTable> {
    seq![options_table(), service_table()]
}

/// The memory map, on a fifteen-line address bus.
pub open spec fn map_windows() -> Seq<DvgWindow> {
    seq![
        DvgWindow { region: Region::Ram, name: "RAM", base: 0x0000, size: 0x0400 },
        DvgWindow { region: Region::Ram, name: "RAM", base: 0x0400, size: 0x0400 },
        DvgWindow { region: Region::Io, name: "I/O", base: 0x2000, size: 0x2000 },
        DvgWindow { region: Region::VectorRam, name: "Vector RAM", base: 0x4000, size: 0x0800 },
        DvgWindow { region: Region::VectorRom, name: "Vector ROM", base: 0x5000, size: 0x0800 },
        DvgWindow { region: Region::ProgramRom, name: "Program ROM", base: 0x6800, size: 0x1800 },
    ]
}

/// Region of each address.
pub open spec fn region_of(a: int) -> Option<Region> {
    if 0 <= a < 0x0400 {
        Some(Region::Ram)
    } else if 0x0400 <= a < 0x0800 {
        Some(Region::Ram)
    } else if 0x2000 <= a < 0x4000 {
        Some(Region::Io)
    } else if 0x4000 <= a < 0x4800 {
        Some(Region::VectorRam)
    } else if 0x5000 <= a < 0x5800 {
        Some(Region::VectorRom)
    } else if 0x6800 <= a < 0x8000 {
        Some(Region::ProgramRom)
    } else {
        None
    }
}

proof fn lemma_map(addr: u16)
    ensures
        window_at(map_windows(), addr) matches Some(w) ==> region_of(addr as int) == Some(w.region) && w.covers(addr)
            && w.base == base_of(addr as int),
        window_at(map_windows(), addr) is None ==> region_of(addr as int) is None,
{
    reveal_with_fuel(window_from, 7);
}

/// Where the window of an address begins.
pub open spec fn base_of(a: int) -> int {
    if 0 <= a < 0x0400 {
        0x0000
    } else if 0x0400 <= a < 0x0800 {
        0x0400
    } else if 0x2000 <= a < 0x4000 {
        0x2000
    } else if 0x4000 <= a < 0x4800 {
        0x4000
    } else if 0x5000 <= a < 0x5800 {
        0x5000
    } else if 0x6800 <= a < 0x8000 {
        0x6800
    } else {
        0
    }
}

proof fn lemma_map_sizes()
    ensures
        map_fits(map_windows()),
        size_of(map_windows(), Region::Ram) == 0x0400,
        size_of(map_windows(), Region::Io) == 0x2000,
        size_of(map_windows(), Region::VectorRam) == 0x0800,
        size_of(map_windows(), Region::VectorRom) == 0x0800,
        size_of(map_windows(), Region::ProgramRom) == 0x1800,
{
    reveal_with_fuel(size_from, 7);
}

fn build_map() -> (m: DvgMap)
    ensures
        m.windows@ == map_windows(),
{
    let mut m: DvgMap = DvgMap::new();
    m.region(Region::Ram, "RAM", 0x0000, 0x0400);
    m.region(Region::Ram, "RAM", 0x0400, 0x0400);
    m.region(Region::Io, "I/O", 0x2000, 0x2000);
    m.region(Region::VectorRam, "Vector RAM", 0x4000, 0x0800);
    m.region(Region::VectorRom, "Vector ROM", 0x5000, 0x0800);
    m.region(Region::ProgramRom, "Program ROM", 0x6800, 0x1800);
    assert(m.windows@ =~= map_windows());
    m
}

/// What a write asks of the devices beside the board and the sound registers.
#[derive(Clone, Copy, Debug, PartialEq, Eq, Structural)]
pub enum AsteroidsWrite {
    Done,
    /// Start the vector generator.
    StartDvg,
}

/// Asteroids beside its CPU, vector generator and sound circuit.
pub struct AsteroidsSystem {
    pub board: AtariDvgBoard,
    pub sound: AsteroidsDiscreteSound,
    /// Switches, high when pressed.
    pub in0: u8,
    pub in1: u8,
    /// Game options and coinage.
    pub dip_switches: u8,
    /// Swaps the two upper quarters of the RAM.
    pub ramsel: bool,
}

/// The machine as a mathematical value.
#[verifier::ext_equal]
pub struct AsteroidsView {
    pub board: DvgView,
    pub sound: SoundView,
    pub in0: u8,
    pub in1: u8,
    pub dip_switches: u8,
    pub ramsel: bool,
}

impl View for AsteroidsSystem {
    type V = AsteroidsView;

    open spec fn view(&self) -> AsteroidsView {
        AsteroidsView {
            board: self.board@,
            sound: self.sound@,
            in0: self.in0,
            in1: self.in1,
            dip_switches: self.dip_switches,
            ramsel: self.ramsel,
        }
    }
}

impl AsteroidsView {
    /// The board is wired to this game's map.
    pub open spec fn wf(&self) -> bool {
        &&& self.board.wf()
        &&& self.board.windows == map_windows()
    }

    /// Power-on: memories blank, the suggested option setting, self-test off.
    pub open spec fn powered_on() -> AsteroidsView {
        AsteroidsView {
            board: DvgView {
                windows: map_windows(),
                ram: zeros(0x400),
                vector_ram: zeros(0x800),
                vector_rom: zeros(0x800),
                program_rom: zeros(0x1800),
                clock: 0,
                nmi_counter: 0,
                nmi_pending: false,
                test_asserted: false,
                watchdog_frame_count: 0,
                vrom_dvg_offset: 0x1000,
                vrom_size: 0x0800,
                tracing: false,
                latched_pc: None,
            },
            sound: SoundView::silent(),
            in0: 0,
            in1: 0,
            dip_switches: 0x84,
            ramsel: false,
        }
    }

    /// Where a RAM address lands. The RAM shows twice, and RAMSEL swaps its
    /// upper halves.
    pub open spec fn ram_offset(&self, a: int) -> int {
        swapped_by_ramsel(a as u16, self.ramsel) % 0x400
    }

    /// What a CPU read returns.
    pub open spec fn read_value(&self, addr: u16, dvg_halted: bool) -> u8 {
        let a = addr as int % 0x8000;
        if a < 0x0800 {
            self.board.ram[self.ram_offset(a)]
        } else if 0x2000 <= a < 0x2008 {
            mux_line(in0_line(self.in0, (a % 8) as u8, self.board.clock, dvg_halted))
        } else if 0x2400 <= a < 0x2408 {
            mux_line(bit(self.in1, (a % 8) as u8))
        } else if 0x2800 <= a < 0x2804 {
            DSW_UNDRIVEN | toggle_pair(self.dip_switches, a % 4) as u8
        } else if 0x4000 <= a < 0x4800 {
            self.board.vector_ram[a - 0x4000]
        } else if 0x5000 <= a < 0x5800 {
            self.board.vector_rom[a - 0x5000]
        } else if a >= 0x6800 {
            self.board.program_rom[a - 0x6800]
        } else {
            0
        }
    }

    /// This machine after a CPU write.
    pub open spec fn after_write(self, addr: u16, data: u8) -> AsteroidsView {
        let a = addr as int % 0x8000;
        let b = self.board;
        let s = self.sound;
        if a < 0x0800 {
            AsteroidsView { board: DvgView { ram: b.ram.update(self.ram_offset(a), data), ..b }, ..self }
        } else if 0x4000 <= a < 0x4800 {
            AsteroidsView {
                board: DvgView { vector_ram: b.vector_ram.update(a - 0x4000, data), ..b },
                ..self
            }
        } else if a == 0x3200 {
            AsteroidsView { ramsel: bit(data, 2), ..self }
        } else if a == 0x3400 {
            AsteroidsView { board: DvgView { watchdog_frame_count: 0, ..b }, ..self }
        } else if a == 0x3600 {
            AsteroidsView { sound: SoundView { explosion_reg: data, ..s }, ..self }
        } else if a == 0x3A00 {
            AsteroidsView { sound: SoundView { thump_reg: data, ..s }, ..self }
        } else if 0x3C00 <= a < 0x3C08 {
            AsteroidsView {
                sound: SoundView {
                    audio_latch: with_bit(s.audio_latch, (a % 8) as u8, bit(data, 7)),
                    ..s
                },
                ..self
            }
        } else if a == 0x3E00 {
            AsteroidsView { sound: SoundView { noise_reset: true, ..s }, ..self }
        } else {
            self
        }
    }

    /// What a CPU write asks of the devices beside the board.
    pub open spec fn write_access(addr: u16) -> AsteroidsWrite {
        if addr % 0x8000 == 0x3000 {
            AsteroidsWrite::StartDvg
        } else {
            AsteroidsWrite::Done
        }
    }

    /// The machine at the start of a cycle: the self-test switch drives the line
    /// that gates the NMI.
    pub open spec fn after_begin_cycle(self) -> AsteroidsView {
        AsteroidsView {
            board: DvgView { test_asserted: bit(self.in0, 7), ..self.board },
            ..self
        }
    }

    /// The switch banks.
    /// The self-test switch is line 7 of the first input port.
    pub open spec fn bank(&self, bank: int) -> u8 {
        if bank == 0 {
            self.dip_switches
        } else if bank == 1 {
            self.in0 & 0x80
        } else {
            0
        }
    }

    /// This machine with a bank set.
    pub open spec fn with_bank(self, bank: int, value: u8) -> AsteroidsView {
        if bank == 0 {
            AsteroidsView { dip_switches: value, ..self }
        } else if bank == 1 {
            AsteroidsView { in0: masked(self.in0, 0x80, value), ..self }
        } else {
            self
        }
    }

    /// This machine after a button changes.
    pub open spec fn after_button(self, id: u8, pressed: bool) -> AsteroidsView {
        if id == INPUT_COIN {
            AsteroidsView { in1: with_bit(self.in1, 0, pressed), ..self }
        } else if id == INPUT_START1 {
            AsteroidsView { in1: with_bit(self.in1, 3, pressed), ..self }
        } else if id == INPUT_START2 {
            AsteroidsView { in1: with_bit(self.in1, 4, pressed), ..self }
        } else if id == INPUT_THRUST {
            AsteroidsView { in1: with_bit(self.in1, 5, pressed), ..self }
        } else if id == INPUT_ROT_RIGHT {
            AsteroidsView { in1: with_bit(self.in1, 6, pressed), ..self }
        } else if id == INPUT_ROT_LEFT {
            AsteroidsView { in1: with_bit(self.in1, 7, pressed), ..self }
        } else if id == INPUT_FIRE {
            AsteroidsView { in0: with_bit(self.in0, 4, pressed), ..self }
        } else if id == INPUT_HYPERSPACE {
            AsteroidsView { in0: with_bit(self.in0, 3, pressed), ..self }
        } else {
            self
        }
    }

    /// This machine after a reset.
    pub open spec fn after_reset(self) -> AsteroidsView {
        AsteroidsView {
            board: DvgView {
                nmi_pending: false,
                nmi_counter: 0,
                watchdog_frame_count: 0,
                ..self.board
            },
            sound: SoundView::silent(),
            ..self
        }
    }

    /// This machine at the end of a frame: the NMI line is released and the
    /// watchdog counts.
    pub open spec fn after_frame(self) -> AsteroidsView {
        let counted = AsteroidsView {
            board: DvgView {
                nmi_pending: false,
                watchdog_frame_count: (self.board.watchdog_frame_count + 1) as u8,
                ..self.board
            },
            ..self
        };
        if self.watchdog_expires() {
            counted.after_reset()
        } else {
            counted
        }
    }

    /// Whether the coming frame end resets the machine.
    pub open spec fn watchdog_expires(&self) -> bool {
        self.board.watchdog_frame_count + 1 >= WATCHDOG_FRAMES
    }
}

impl AsteroidsSystem {
    pub fn new() -> (sys: AsteroidsSystem)
        ensures
            sys@.wf(),
            sys@ == AsteroidsView::powered_on(),
    {
        proof {
            lemma_map_sizes();
        }
        AsteroidsSystem {
            board: AtariDvgBoard::new(build_map(), 0x1000, 0x0800),
            sound: AsteroidsDiscreteSound::new(),
            in0: 0x00,
            in1: 0x00,
            dip_switches: 0x84,
            ramsel: false,
        }
    }

    /// Before the board's own work in a cycle: the self-test switch drives the
    /// line that gates the NMI.
    pub fn begin_cycle(&mut self)
        ensures
            final(self)@ == (AsteroidsView {
                board: DvgView { test_asserted: bit(old(self)@.in0, 7), ..old(self)@.board },
                ..old(self)@
            }),
            final(self)@ == old(self)@.after_begin_cycle(),
    {
        self.board.test_asserted = bit_is_set(self.in0, 7);
    }

    /// Put the program and vector ROM images into the board.
    pub fn load_rom_set(&mut self, program: &[u8], vector: &[u8])
        requires
            old(self)@.wf(),
        ensures
            final(self)@.wf(),
            final(self)@ == (AsteroidsView {
                board: DvgView {
                    program_rom: overlaid(old(self)@.board.program_rom, program@),
                    vector_rom: overlaid(old(self)@.board.vector_rom, vector@),
                    ..old(self)@.board
                },
                ..old(self)@
            }),
    {
        self.board.load_region(Region::ProgramRom, program);
        self.board.load_region(Region::VectorRom, vector);
    }

    /// Read the bus. The vector generator's halt line comes in as an argument.
    pub fn bus_read(&self, addr: u16, dvg_halted: bool) -> (v: u8)
        requires
            self@.wf(),
        ensures
            v == self@.read_value(addr, dvg_halted),
    {
        let a: u16 = addr % 0x8000;
        proof {
            lemma_map(a);
            lemma_map_sizes();
            lemma_map(swapped_by_ramsel(a, self.ramsel) as u16);
        }
        match self.board.find(a) {
            Some(w) => if w.region == Region::Ram {
                self.board.read_backing(ramsel_addr(a, self.ramsel))
            } else if w.region != Region::Io {
                self.board.read_backing(a)
            } else if 0x2000 <= a && a < 0x2008 {
                read_in0(self.in0, (a % 8) as u8, self.board.clock, dvg_halted)
            } else if 0x2400 <= a && a < 0x2408 {
                read_in1(self.in1, (a % 8) as u8)
            } else if 0x2800 <= a && a < 0x2804 {
                DSW_UNDRIVEN | read_toggles(self.dip_switches, a % 4)
            } else {
                0
            },
            None => 0,
        }
    }

    /// Write the bus. What the write asks of the vector generator, and what it
    /// tells a debugger.
    pub fn bus_write(&mut self, addr: u16, data: u8) -> (r: (AsteroidsWrite, Option<DebugEvent>))
        requires
            old(self)@.wf(),
        ensures
            final(self)@.wf(),
            final(self)@ == old(self)@.after_write(addr, data),
            r.0 == if addr % 0x8000 == 0x3000 { AsteroidsWrite::StartDvg } else { AsteroidsWrite::Done },
            r.0 == AsteroidsView::write_access(addr),
            r.1 == old(self)@.board.write_event(addr % 0x8000, data),
    {
        let a: u16 = addr % 0x8000;
        proof {
            lemma_map(a);
            lemma_map_sizes();
            lemma_map(swapped_by_ramsel(a, self.ramsel) as u16);
        }
        let event: Option<DebugEvent> = self.board.trace_main_write(a, data);
        match self.board.find(a) {
            Some(w) => if w.region == Region::Ram {
                self.board.write_backing(ramsel_addr(a, self.ramsel), data);
            } else if w.region != Region::Io {
                self.board.write_backing(a, data);
            } else if a == 0x3000 {
                return (AsteroidsWrite::StartDvg, event);
            } else if a == 0x3200 {
                self.ramsel = bit_is_set(data, 2);
            } else if a == 0x3400 {
                self.board.watchdog_frame_count = 0;
            } else if a == 0x3600 {
                self.sound.write_explosion(data);
            } else if a == 0x3A00 {
                self.sound.write_thump(data);
            } else if 0x3C00 <= a && a < 0x3C08 {
                self.sound.write_audio_latch_bit((a % 8) as u8, bit_is_set(data, 7));
            } else if a == 0x3E00 {
                self.sound.pulse_noise_reset();
            },
            None => {},
        }
        (AsteroidsWrite::Done, event)
    }

    /// The CPU's interrupt lines.
    pub fn check_interrupts(&self) -> (s: InterruptState)
        ensures
            s == InterruptState::lines(self@.board.nmi_pending, false),
    {
        InterruptState::of_lines(self.board.nmi_pending, false)
    }

    pub fn machine_id(&self) -> (id: &'static str)
        ensures
            id@ == "asteroids"@,
    {
        "asteroids"
    }

    pub fn input_controls(&self) -> (v: Vec<InputControl>)
        ensures
            v@ == control_table(),
    {
        controls()
    }

    /// Apply an input event. Only buttons matter.
    pub fn handle_input(&mut self, event: InputEvent)
        ensures
            final(self)@ == match event {
                InputEvent::Button { id, pressed } => old(self)@.after_button(id.0 as u8, pressed),
                _ => old(self)@,
            },
    {
        match event {
            InputEvent::Button { id, pressed } => {
                let code: u8 = id.0 as u8;
                if code == INPUT_COIN {
                    set_bit_active_high(&mut self.in1, 0, pressed);
                } else if code == INPUT_START1 {
                    set_bit_active_high(&mut self.in1, 3, pressed);
                } else if code == INPUT_START2 {
                    set_bit_active_high(&mut self.in1, 4, pressed);
                } else if code == INPUT_THRUST {
                    set_bit_active_high(&mut self.in1, 5, pressed);
                } else if code == INPUT_ROT_RIGHT {
                    set_bit_active_high(&mut self.in1, 6, pressed);
                } else if code == INPUT_ROT_LEFT {
                    set_bit_active_high(&mut self.in1, 7, pressed);
                } else if code == INPUT_FIRE {
                    set_bit_active_high(&mut self.in0, 4, pressed);
                } else if code == INPUT_HYPERSPACE {
                    set_bit_active_high(&mut self.in0, 3, pressed);
                }
            },
            _ => {},
        }
    }

    pub fn dip_banks(&self) -> (banks: Vec<DipSwitchBank>)
        ensures
            tables(banks@) == dip_tables(),
            all_immediate(banks@),
    {
        let banks: Vec<DipSwitchBank> = vec![options_bank(), service_bank()];
        assert(tables(banks@) =~= dip_tables());
        banks
    }

    pub fn dip_bank_value(&self, bank: usize) -> (v: u8)
        ensures
            v == self@.bank(bank as int),
    {
        if bank == 0 {
            self.dip_switches
        } else if bank == 1 {
            self.in0 & 0x80
        } else {
            0
        }
    }

    pub fn set_dip_bank_value(&mut self, bank: usize, value: u8)
        ensures
            final(self)@ == old(self)@.with_bank(bank as int, value),
    {
        if bank == 0 {
            self.dip_switches = value;
        } else if bank == 1 {
            self.in0 = apply_mask(self.in0, 0x80, value);
        }
    }

    /// Choose a setting of one option.
    pub fn set_dip_option(&mut self, bank: usize, option: usize, value: u8)
        requires
            bank < dip_tables().len(),
            option < dip_tables()[bank as int].1.len(),
        ensures
            final(self)@ == old(self)@.with_bank(
                bank as int,
                masked(
                    old(self)@.bank(bank as int),
                    dip_tables()[bank as int].1[option as int].1,
                    value,
                ),
            ),
    {
        let banks: Vec<DipSwitchBank> = self.dip_banks();
        assert(tables(banks@)[bank as int] == banks@[bank as int].table());
        assert(banks@[bank as int].table().1[option as int]
            == banks@[bank as int].options@[option as int].table());
        let mask: u8 = banks[bank].options[option].mask;
        let current: u8 = self.dip_bank_value(bank);
        self.set_dip_bank_value(bank, apply_mask(current, mask, value));
    }

    /// Reset the board and silence the sound registers.
    pub fn reset(&mut self)
        ensures
            final(self)@ == old(self)@.after_reset(),
    {
        self.board.reset();
        self.sound.reset();
    }

    /// Frame end. Whether the watchdog reset the machine.
    pub fn end_frame(&mut self) -> (expired: bool)
        requires
            old(self)@.board.watchdog_frame_count < 255,
        ensures
            expired == old(self)@.watchdog_expires(),
            final(self)@ == old(self)@.after_frame(),
    {
        let expired: bool = self.board.end_frame();
        if expired {
            self.reset();
        }
        expired
    }
}

impl Default for AsteroidsSystem {
    fn default() -> (sys: AsteroidsSystem)
        ensures
            sys@.wf(),
            sys@ == AsteroidsView::powered_on(),
    {
        AsteroidsSystem::new()
    }
}

/// What is saved of the machine beside its CPU and devices.
pub struct AsteroidsSnapshot {
    /// The board's RAM and counters.
    pub board: Vec<u8>,
    /// Sound registers.
    pub sound: Vec<u8>,
    pub in0: u8,
    pub in1: u8,
    pub ramsel: bool,
}

impl AsteroidsView {
    /// `s` holds the saved part of this machine.
    pub open spec fn saved_as(&self, s: AsteroidsSnapshot) -> bool {
        &&& s.board@ == self.board.state_bytes()
        &&& s.sound@ == self.sound.register_bytes()
        &&& s.in0 == self.in0
        &&& s.in1 == self.in1
        &&& s.ramsel == self.ramsel
    }

    /// A snapshot long enough to restore.
    pub open spec fn accepts(&self, s: AsteroidsSnapshot) -> bool {
        s.board@.len() >= self.board.state_len() && s.sound@.len() >= REGISTERS_LEN
    }

    /// This machine with the saved part taken from `s`. Switches, ROM and
    /// wiring stay.
    pub open spec fn restored_from(self, s: AsteroidsSnapshot) -> AsteroidsView {
        AsteroidsView {
            board: self.board.with_state(s.board@.take(self.board.state_len())),
            sound: self.sound.with_register_bytes(s.sound@.take(REGISTERS_LEN as int)),
            in0: s.in0,
            in1: s.in1,
            ramsel: s.ramsel,
            ..self
        }
    }
}

impl AsteroidsSystem {
    /// Take a snapshot.
    pub fn save_state(&self) -> (s: AsteroidsSnapshot)
        ensures
            self@.saved_as(s),
    {
        let mut w: StateWriter = StateWriter::new();
        self.board.save_state(&mut w);
        let board: Vec<u8> = w.into_vec();
        assert(board@ =~= self@.board.state_bytes());
        let mut w2: StateWriter = StateWriter::new();
        self.sound.save_registers(&mut w2);
        let sound: Vec<u8> = w2.into_vec();
        assert(sound@ =~= self@.sound.register_bytes());
        AsteroidsSnapshot { board, sound, in0: self.in0, in1: self.in1, ramsel: self.ramsel }
    }

    /// Restore a snapshot. One that ends too early is refused and changes
    /// nothing.
    pub fn load_state(&mut self, s: &AsteroidsSnapshot) -> (r: Result<(), SaveError>)
        requires
            old(self)@.wf(),
        ensures
            final(self)@.wf(),
            r == if old(self)@.accepts(*s) { Ok::<(), SaveError>(()) } else { Err(SaveError::UnexpectedEnd) },
            final(self)@ == if old(self)@.accepts(*s) { old(self)@.restored_from(*s) } else { old(self)@ },
    {
        if s.sound.len() < REGISTERS_LEN {
            return Err(SaveError::UnexpectedEnd);
        }
        let mut r: StateReader = StateReader::new(s.board.as_slice());
        match self.board.load_state(&mut r) {
            Ok(_) => {},
            Err(e) => {
                return Err(e);
            },
        }
        let mut r2: StateReader = StateReader::new(s.sound.as_slice());
        match self.sound.load_registers(&mut r2) {
            Ok(_) => {},
            Err(e) => {
                return Err(e);
            },
        }
        self.in0 = s.in0;
        self.in1 = s.in1;
        self.ramsel = s.ramsel;
        Ok(())
    }
}

/// Restoring a snapshot brings back what was saved and leaves ROM and switches
/// as they are.
pub proof fn law_snapshot_round_trip(a: AsteroidsView, b: AsteroidsView, s: AsteroidsSnapshot)
    requires
        a.wf(),
        b.wf(),
        a.saved_as(s),
    ensures
        b.accepts(s),
        b.restored_from(s) == (AsteroidsView {
            board: DvgView {
                ram: a.board.ram,
                vector_ram: a.board.vector_ram,
                clock: a.board.clock,
                nmi_counter: a.board.nmi_counter,
                nmi_pending: a.board.nmi_pending,
                watchdog_frame_count: a.board.watchdog_frame_count,
                ..b.board
            },
            sound: SoundView {
                explosion_reg: a.sound.explosion_reg,
                thump_reg: a.sound.thump_reg,
                audio_latch: a.sound.audio_latch,
                ..b.sound
            },
            in0: a.in0,
            in1: a.in1,
            ramsel: a.ramsel,
            ..b
        }),
{
    law_state_round_trip(a.board, b.board);
    assert(s.board@.take(b.board.state_len()) =~= a.board.state_bytes());
    law_registers_round_trip(a.sound, b.sound);
    assert(s.sound@.take(REGISTERS_LEN as int) =~= a.sound.register_bytes());
}

/// RAMSEL decodes a mirror as it does the first copy.
proof fn lemma_mirror(a: u16, b: u16, ramsel: bool)
    requires
        a < 0x800,
        b < 0x800,
        a % 0x400 == b % 0x400,
    ensures
        swapped_by_ramsel(a, ramsel) % 0x400 == swapped_by_ramsel(b, ramsel) % 0x400,
        0 <= swapped_by_ramsel(a, ramsel) % 0x400 < 0x400,
{
    assert(b == a || b == a + 0x400 || a == b + 0x400);
    assert((a / 0x200) % 2 == (b / 0x200) % 2);
    assert((a / 0x100) % 2 == (b / 0x100) % 2);
}

/// RAM reads back what was written to it, also at its mirror.
pub proof fn law_ram_read_after_write(m: AsteroidsView, addr: u16, mirror: u16, data: u8, dvg_halted: bool)
    requires
        m.wf(),
        addr < 0x0800 && mirror < 0x0800 && addr % 0x400 == mirror % 0x400 || 0x4000 <= addr < 0x4800
            && mirror == addr,
    ensures
        m.after_write(addr, data).read_value(mirror, dvg_halted) == data,
{
    lemma_map_sizes();
    if addr < 0x0800 {
        lemma_mirror(addr, mirror, m.ramsel);
        assert(addr as int % 0x8000 == addr);
        assert(mirror as int % 0x8000 == mirror);
    } else {
        assert(addr as int % 0x8000 == addr);
    }
}

/// Under RAMSEL the two upper quarters of the RAM change places; the lower half
/// stays.
pub proof fn law_ramsel_swaps_the_upper_quarters(m: AsteroidsView, addr: u16, dvg_halted: bool)
    requires
        m.wf(),
        addr < 0x0400,
    ensures
        ({
            let on = AsteroidsView { ramsel: true, ..m };
            let off = AsteroidsView { ramsel: false, ..m };
            on.read_value(addr, dvg_halted) == off.read_value(
                if addr < 0x0200 {
                    addr
                } else if addr < 0x0300 {
                    (addr + 0x100) as u16
                } else {
                    (addr - 0x100) as u16
                },
                dvg_halted,
            )
        }),
{
}

/// The output latch's line 2 is RAMSEL.
pub proof fn law_output_latch_drives_ramsel(m: AsteroidsView, data: u8)
    ensures
        m.after_write(0x3200, data).ramsel == bit(data, 2),
        m.after_write(0x3200, data).board == m.board,
{
}

/// The four option reads together give the option byte; the six undriven lines
/// read high.
pub proof fn law_option_reads_hold_the_bank(m: AsteroidsView, dvg_halted: bool)
    ensures
        ({
            let pair = |n: int| m.read_value((0x2800 + n) as u16, dvg_halted) - 0xFC;
            m.dip_switches == 64 * pair(0) + 16 * pair(1) + 4 * pair(2) + pair(3)
        }),
{
    law_toggle_pairs_hold_the_byte(m.dip_switches);
    lemma_undriven_lines_read_high();
}

/// The self-test bank reads back what was set and moves no other switch.
pub proof fn law_self_test_bank(m: AsteroidsView, value: u8)
    ensures
        m.with_bank(1, value).bank(1) == value & 0x80,
        m.with_bank(1, value).in0 & !0x80u8 == m.in0 & !0x80u8,
{
    law_option_changes_only_its_bits(m.in0, 0x80, value);
}

/// A write that the devices see, or that lands in I/O, changes no memory.
pub proof fn law_io_writes_touch_no_memory(m: AsteroidsView, addr: u16, data: u8)
    requires
        m.wf(),
        0x2000 <= addr % 0x8000 < 0x4000,
    ensures
        m.after_write(addr, data).board.ram == m.board.ram,
        m.after_write(addr, data).board.vector_ram == m.board.vector_ram,
        m.after_write(addr, data).board.vector_rom == m.board.vector_rom,
        m.after_write(addr, data).board.program_rom == m.board.program_rom,
{
}

/// The top address line is not decoded.
pub proof fn law_top_address_line_is_ignored(m: AsteroidsView, addr: u16, data: u8, dvg_halted: bool)
    requires
        addr < 0x8000,
    ensures
        m.read_value((addr + 0x8000) as u16, dvg_halted) == m.read_value(addr, dvg_halted),
        m.after_write((addr + 0x8000) as u16, data) == m.after_write(addr, data),
{
    assert((addr + 0x8000) % 0x8000 == addr as int % 0x8000);
}

/// A button pressed and released leaves its port as if it had only been
/// released.
pub proof fn law_release_undoes_press(m: AsteroidsView, id: u8)
    ensures
        m.after_button(id, true).after_button(id, false) == m.after_button(id, false),
{
    lemma_with_bit_twice(m.in0, 3, true, false);
    lemma_with_bit_twice(m.in0, 4, true, false);
    lemma_with_bit_twice(m.in1, 0, true, false);
    lemma_with_bit_twice(m.in1, 3, true, false);
    lemma_with_bit_twice(m.in1, 4, true, false);
    lemma_with_bit_twice(m.in1, 5, true, false);
    lemma_with_bit_twice(m.in1, 6, true, false);
    lemma_with_bit_twice(m.in1, 7, true, false);
}

/// `n` frames go by without a write to the machine.
pub open spec fn frames_after(m: AsteroidsView, n: nat) -> AsteroidsView
    decreases n,
{
    if n == 0 {
        m
    } else {
        frames_after(m, (n - 1) as nat).after_frame()
    }
}

/// Clearing the watchdog holds the reset off for seven frame ends; the eighth
/// resets the machine.
pub proof fn law_watchdog_allows_eight_frames(m: AsteroidsView, data: u8, n: nat)
    requires
        n <= 8,
    ensures
        ({
            let cleared = m.after_write(0x3400, data);
            &&& n < 8 ==> frames_after(cleared, n).board.watchdog_frame_count == n
            &&& n < 8 ==> (frames_after(cleared, n).watchdog_expires() <==> n == 7)
            &&& n == 8 ==> frames_after(cleared, n).board.watchdog_frame_count == 0
        }),
    decreases n,
{
    if n > 0 {
        law_watchdog_allows_eight_frames(m, data, (n - 1) as nat);
    }
}

} // verus!
