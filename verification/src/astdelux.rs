//! Asteroids Deluxe (Atari, 1980) on the DVG vector board: a POKEY for sound and
//! for reading the coinage switches, and an EAROM for high scores.

use vstd::prelude::*;

use crate::atari_dvg::{
    AtariDvgBoard, DvgMap, DvgView, DvgWindow, Region, WATCHDOG_FRAMES, in0_line, map_fits, mux_line,
    law_state_round_trip, law_toggle_pairs_hold_the_byte, read_in0, read_in1, read_toggles, size_of, toggle_pair, window_at, window_from,
    size_from,
};
use crate::bits::{bit, bit_is_set, lemma_with_bit_twice, set_bit_active_high, with_bit};
use crate::dip::{BankTable, DipOption, DipSwitchBank, all_immediate, apply_mask, choice, masked, option, tables, valid_bank};
use crate::input::{
    ActionRole, DefaultBindings, InputControl, InputEvent, InputKind, SharedBindings, control,
    control_of,
};
use crate::machine::InterruptState;
use crate::memory::{SaveError, overlaid, zeros};
use crate::rom::{RomEntry, RomRegion, RomTable, chip, chips_fit};
use crate::state::{StateReader, StateWriter};
use crate::trace::DebugEvent;

verus! {

/// Program ROM.
pub open spec fn program_rom_chips() -> Seq<RomTable> {
    seq![
        ("036430-02.d1", 0x0800int, 0x0000int, seq![0xa4d7a525u32]),
        ("036431-02.ef1", 0x0800int, 0x0800int, seq![0xd4004aaeu32]),
        ("036432-02.fh1", 0x0800int, 0x1000int, seq![0x6d720c41u32]),
        ("036433-03.j1", 0x0800int, 0x1800int, seq![0x0dcc0be6u32]),
    ]
}

/// Program ROM.
pub fn astdelux_program_rom() -> (r: RomRegion)
    ensures
        r.size == 0x2000,
        r.table() == program_rom_chips(),
        chips_fit(r.size as int, r.table()),
{
    let c0: RomEntry = chip("036430-02.d1", 0x0800, 0x0000, vec![0xa4d7a525]);
    assert(c0.crc32@ =~= program_rom_chips()[0].3);
    let c1: RomEntry = chip("036431-02.ef1", 0x0800, 0x0800, vec![0xd4004aae]);
    assert(c1.crc32@ =~= program_rom_chips()[1].3);
    let c2: RomEntry = chip("036432-02.fh1", 0x0800, 0x1000, vec![0x6d720c41]);
    assert(c2.crc32@ =~= program_rom_chips()[2].3);
    let c3: RomEntry = chip("036433-03.j1", 0x0800, 0x1800, vec![0x0dcc0be6]);
    assert(c3.crc32@ =~= program_rom_chips()[3].3);
    let r: RomRegion = RomRegion { size: 0x2000, entries: vec![c0, c1, c2, c3] };
    assert(r.table() =~= program_rom_chips());
    r
}

/// Vector ROM.
pub open spec fn vector_rom_chips() -> Seq<RomTable> {
    seq![
        ("036800-02.r2", 0x0800int, 0x0000int, seq![0xbb8cabe1u32]),
        ("036799-01.np2", 0x0800int, 0x0800int, seq![0x7d511572u32]),
    ]
}

/// Vector ROM.
pub fn astdelux_vector_rom() -> (r: RomRegion)
    ensures
        r.size == 0x1000,
        r.table() == vector_rom_chips(),
        chips_fit(r.size as int, r.table()),
{
    let c0: RomEntry = chip("036800-02.r2", 0x0800, 0x0000, vec![0xbb8cabe1]);
    assert(c0.crc32@ =~= vector_rom_chips()[0].3);
    let c1: RomEntry = chip("036799-01.np2", 0x0800, 0x0800, vec![0x7d511572]);
    assert(c1.crc32@ =~= vector_rom_chips()[1].3);
    let r: RomRegion = RomRegion { size: 0x1000, entries: vec![c0, c1] };
    assert(r.table() =~= vector_rom_chips());
    r
}

pub const INPUT_COIN: u8 = 0;

pub const INPUT_START1: u8 = 1;

pub const INPUT_START2: u8 = 2;

pub const INPUT_THRUST: u8 = 3;

pub const INPUT_FIRE: u8 = 4;

pub const INPUT_SHIELD: u8 = 5;

pub const INPUT_ROT_LEFT: u8 = 6;

pub const INPUT_ROT_RIGHT: u8 = 7;

/// The logical controls.
pub open spec fn control_table() -> Seq<InputControl> {
    seq![
        control_of(INPUT_COIN as u16, "coin", "Coin", InputKind::Coin, None, DefaultBindings::Shared(SharedBindings::Coin)),
        control_of(INPUT_START1 as u16, "p1_start", "P1 Start", InputKind::Start, Some(1u8), DefaultBindings::Shared(SharedBindings::P1Start)),
        control_of(INPUT_START2 as u16, "p2_start", "P2 Start", InputKind::Start, Some(2u8), DefaultBindings::Shared(SharedBindings::P2Start)),
        control_of(INPUT_THRUST as u16, "thrust", "Thrust", InputKind::Button, Some(1u8), DefaultBindings::Shared(SharedBindings::P1Up)),
        control_of(INPUT_FIRE as u16, "fire", "Fire", InputKind::Action(ActionRole::Primary), Some(1u8), DefaultBindings::Unbound),
        control_of(INPUT_SHIELD as u16, "shield", "Shield", InputKind::Action(ActionRole::Secondary), Some(1u8), DefaultBindings::Unbound),
        control_of(INPUT_ROT_LEFT as u16, "rotate_left", "Rotate Left", InputKind::Button, Some(1u8), DefaultBindings::Shared(SharedBindings::P1Left)),
        control_of(INPUT_ROT_RIGHT as u16, "rotate_right", "Rotate Right", InputKind::Button, Some(1u8), DefaultBindings::Shared(SharedBindings::P1Right)),
    ]
}

fn controls() -> (v: Vec<InputControl>)
    ensures
        v@ == control_table(),
{
    let v: Vec<InputControl> = vec![
        control(INPUT_COIN as u16, "coin", "Coin", InputKind::Coin, None, DefaultBindings::Shared(SharedBindings::Coin)),
        control(INPUT_START1 as u16, "p1_start", "P1 Start", InputKind::Start, Some(1), DefaultBindings::Shared(SharedBindings::P1Start)),
        control(INPUT_START2 as u16, "p2_start", "P2 Start", InputKind::Start, Some(2), DefaultBindings::Shared(SharedBindings::P2Start)),
        control(INPUT_THRUST as u16, "thrust", "Thrust", InputKind::Button, Some(1), DefaultBindings::Shared(SharedBindings::P1Up)),
        control(INPUT_FIRE as u16, "fire", "Fire", InputKind::Action(ActionRole::Primary), Some(1), DefaultBindings::Unbound),
        control(INPUT_SHIELD as u16, "shield", "Shield", InputKind::Action(ActionRole::Secondary), Some(1), DefaultBindings::Unbound),
        control(INPUT_ROT_LEFT as u16, "rotate_left", "Rotate Left", InputKind::Button, Some(1), DefaultBindings::Shared(SharedBindings::P1Left)),
        control(INPUT_ROT_RIGHT as u16, "rotate_right", "Rotate Right", InputKind::Button, Some(1), DefaultBindings::Shared(SharedBindings::P1Right)),
    ];
    assert(v@ =~= control_table());
    v
}

/// Game options, read through the option multiplexer.
pub open spec fn options_table() -> BankTable {
    (
        "R5 (Game Options)",
        seq![
            (
                "Language",
                0x03u8,
                seq![
                    ("English", 0x00u8),
                    ("German", 0x01u8),
                    ("French", 0x02u8),
                    ("Spanish", 0x03u8),
                ],
            ),
            (
                "Lives",
                0x0Cu8,
                seq![
                    ("2-4", 0x00u8),
                    ("3-5", 0x04u8),
                    ("4-6", 0x08u8),
                    ("5-7", 0x0Cu8),
                ],
            ),
            (
                "Minimum Plays",
                0x10u8,
                seq![
                    ("1", 0x00u8),
                    ("2", 0x10u8),
                ],
            ),
            (
                "Difficulty",
                0x20u8,
                seq![
                    ("Easy", 0x00u8),
                    ("Hard", 0x20u8),
                ],
            ),
            (
                "Bonus Life",
                0xC0u8,
                seq![
                    ("10000", 0x00u8),
                    ("12000", 0x40u8),
                    ("15000", 0x80u8),
                    ("None", 0xC0u8),
                ],
            ),
        ],
    )
}

fn options_bank() -> (bank: DipSwitchBank)
    ensures
        bank.table() == options_table(),
        bank.immediate(),
{
    let o0: DipOption = option(
        "Language",
        0x03,
        vec![
            choice("English", 0x00),
            choice("German", 0x01),
            choice("French", 0x02),
            choice("Spanish", 0x03),
        ],
    );
    assert(o0.table().2 =~= options_table().1[0].2);
    let o1: DipOption = option(
        "Lives",
        0x0C,
        vec![
            choice("2-4", 0x00),
            choice("3-5", 0x04),
            choice("4-6", 0x08),
            choice("5-7", 0x0C),
        ],
    );
    assert(o1.table().2 =~= options_table().1[1].2);
    let o2: DipOption = option(
        "Minimum Plays",
        0x10,
        vec![
            choice("1", 0x00),
            choice("2", 0x10),
        ],
    );
    assert(o2.table().2 =~= options_table().1[2].2);
    let o3: DipOption = option(
        "Difficulty",
        0x20,
        vec![
            choice("Easy", 0x00),
            choice("Hard", 0x20),
        ],
    );
    assert(o3.table().2 =~= options_table().1[3].2);
    let o4: DipOption = option(
        "Bonus Life",
        0xC0,
        vec![
            choice("10000", 0x00),
            choice("12000", 0x40),
            choice("15000", 0x80),
            choice("None", 0xC0),
        ],
    );
    assert(o4.table().2 =~= options_table().1[4].2);
    let bank: DipSwitchBank = DipSwitchBank { name: "R5 (Game Options)", options: vec![o0, o1, o2, o3, o4] };
    assert(bank.table().1 =~= options_table().1);
    bank
}

/// Coinage, read through the POKEY's pot inputs.
pub open spec fn coinage_table() -> BankTable {
    (
        "L8 (Coinage)",
        seq![
            (
                "Game Price",
                0x03u8,
                seq![
                    ("Free Play", 0x00u8),
                    ("1 Coin/2 Plays", 0x01u8),
                    ("1 Coin/1 Play", 0x02u8),
                    ("2 Coins/1 Play", 0x03u8),
                ],
            ),
            (
                "Right Coin Mech",
                0x0Cu8,
                seq![
                    ("x1", 0x00u8),
                    ("x4", 0x04u8),
                    ("x5", 0x08u8),
                    ("x6", 0x0Cu8),
                ],
            ),
            (
                "Center Coin Mech",
                0x10u8,
                seq![
                    ("x1", 0x00u8),
                    ("x2", 0x10u8),
                ],
            ),
            (
                "Coin Bonus Adder",
                0xE0u8,
                seq![
                    ("None", 0x00u8),
                    ("Every 2 Coins, +1", 0x20u8),
                    ("Every 4 Coins, +1", 0x40u8),
                    ("Every 4 Coins, +2", 0x60u8),
                    ("Every 5 Coins, +1", 0x80u8),
                    ("None (5)", 0xA0u8),
                    ("None (6)", 0xC0u8),
                    ("None (7)", 0xE0u8),
                ],
            ),
        ],
    )
}

fn coinage_bank() -> (bank: DipSwitchBank)
    ensures
        bank.table() == coinage_table(),
        bank.immediate(),
{
    let o0: DipOption = option(
        "Game Price",
        0x03,
        vec![
            choice("Free Play", 0x00),
            choice("1 Coin/2 Plays", 0x01),
            choice("1 Coin/1 Play", 0x02),
            choice("2 Coins/1 Play", 0x03),
        ],
    );
    assert(o0.table().2 =~= coinage_table().1[0].2);
    let o1: DipOption = option(
        "Right Coin Mech",
        0x0C,
        vec![
            choice("x1", 0x00),
            choice("x4", 0x04),
            choice("x5", 0x08),
            choice("x6", 0x0C),
        ],
    );
    assert(o1.table().2 =~= coinage_table().1[1].2);
    let o2: DipOption = option(
        "Center Coin Mech",
        0x10,
        vec![
            choice("x1", 0x00),
            choice("x2", 0x10),
        ],
    );
    assert(o2.table().2 =~= coinage_table().1[2].2);
    let o3: DipOption = option(
        "Coin Bonus Adder",
        0xE0,
        vec![
            choice("None", 0x00),
            choice("Every 2 Coins, +1", 0x20),
            choice("Every 4 Coins, +1", 0x40),
            choice("Every 4 Coins, +2", 0x60),
            choice("Every 5 Coins, +1", 0x80),
            choice("None (5)", 0xA0),
            choice("None (6)", 0xC0),
            choice("None (7)", 0xE0),
        ],
    );
    assert(o3.table().2 =~= coinage_table().1[3].2);
    let bank: DipSwitchBank = DipSwitchBank { name: "L8 (Coinage)", options: vec![o0, o1, o2, o3] };
    assert(bank.table().1 =~= coinage_table().1);
    bank
}

/// Both banks are valid, and the power-on bytes select a choice of every option.
pub proof fn law_dip_tables_are_valid()
    ensures
        valid_bank(options_table(), 0x00),
        valid_bank(coinage_table(), 0xFF),
{
    assert({
        &&& 0x03u8 != 0
        &&& 0x00u8 & !0x03u8 == 0
        &&& 0x01u8 & !0x03u8 == 0
        &&& 0x02u8 & !0x03u8 == 0
        &&& 0x03u8 & !0x03u8 == 0
        &&& 0x00u8 & 0x03u8 == 0x00
        &&& 0x03u8 & 0x0Cu8 == 0
        &&& 0x03u8 & 0x10u8 == 0
        &&& 0x03u8 & 0x20u8 == 0
        &&& 0x03u8 & 0xC0u8 == 0
        &&& 0x0Cu8 != 0
        &&& 0x00u8 & !0x0Cu8 == 0
        &&& 0x04u8 & !0x0Cu8 == 0
        &&& 0x08u8 & !0x0Cu8 == 0
        &&& 0x0Cu8 & !0x0Cu8 == 0
        &&& 0x00u8 & 0x0Cu8 == 0x00
        &&& 0x0Cu8 & 0x10u8 == 0
        &&& 0x0Cu8 & 0x20u8 == 0
        &&& 0x0Cu8 & 0xC0u8 == 0
        &&& 0x10u8 != 0
        &&& 0x00u8 & !0x10u8 == 0
        &&& 0x10u8 & !0x10u8 == 0
        &&& 0x00u8 & 0x10u8 == 0x00
        &&& 0x10u8 & 0x20u8 == 0
        &&& 0x10u8 & 0xC0u8 == 0
        &&& 0x20u8 != 0
        &&& 0x00u8 & !0x20u8 == 0
        &&& 0x20u8 & !0x20u8 == 0
        &&& 0x00u8 & 0x20u8 == 0x00
        &&& 0x20u8 & 0xC0u8 == 0
        &&& 0xC0u8 != 0
        &&& 0x00u8 & !0xC0u8 == 0
        &&& 0x40u8 & !0xC0u8 == 0
        &&& 0x80u8 & !0xC0u8 == 0
        &&& 0xC0u8 & !0xC0u8 == 0
        &&& 0x00u8 & 0xC0u8 == 0x00
        &&& 0xFFu8 & 0x03u8 == 0x03
        &&& 0x03u8 & 0xE0u8 == 0
        &&& 0xFFu8 & 0x0Cu8 == 0x0C
        &&& 0x0Cu8 & 0xE0u8 == 0
        &&& 0xFFu8 & 0x10u8 == 0x10
        &&& 0x10u8 & 0xE0u8 == 0
        &&& 0xE0u8 != 0
        &&& 0x00u8 & !0xE0u8 == 0
        &&& 0x20u8 & !0xE0u8 == 0
        &&& 0x40u8 & !0xE0u8 == 0
        &&& 0x60u8 & !0xE0u8 == 0
        &&& 0x80u8 & !0xE0u8 == 0
        &&& 0xA0u8 & !0xE0u8 == 0
        &&& 0xC0u8 & !0xE0u8 == 0
        &&& 0xE0u8 & !0xE0u8 == 0
        &&& 0xFFu8 & 0xE0u8 == 0xE0
    }) by (bit_vector);
    assert(options_table().1[0].2[0].1 == 0x00u8 & options_table().1[0].1);
    assert(options_table().1[1].2[0].1 == 0x00u8 & options_table().1[1].1);
    assert(options_table().1[2].2[0].1 == 0x00u8 & options_table().1[2].1);
    assert(options_table().1[3].2[0].1 == 0x00u8 & options_table().1[3].1);
    assert(options_table().1[4].2[0].1 == 0x00u8 & options_table().1[4].1);
    assert(coinage_table().1[0].2[3].1 == 0xFFu8 & coinage_table().1[0].1);
    assert(coinage_table().1[1].2[3].1 == 0xFFu8 & coinage_table().1[1].1);
    assert(coinage_table().1[2].2[1].1 == 0xFFu8 & coinage_table().1[2].1);
    assert(coinage_table().1[3].2[7].1 == 0xFFu8 & coinage_table().1[3].1);
}

/// Both banks.
pub open spec fn dip_tables() -> Seq<BankTable> {
    seq![options_table(), coinage_table()]
}

/// The memory map, on a fifteen-line address bus.
pub open spec fn map_windows() -> Seq<DvgWindow> {
    seq![
        DvgWindow { region: Region::Ram, name: "RAM", base: 0x0000, size: 0x0400 },
        DvgWindow { region: Region::Io, name: "I/O", base: 0x2000, size: 0x2000 },
        DvgWindow { region: Region::VectorRam, name: "Vector RAM", base: 0x4000, size: 0x0800 },
        DvgWindow { region: Region::VectorRom, name: "Vector ROM", base: 0x4800, size: 0x1000 },
        DvgWindow { region: Region::ProgramRom, name: "Program ROM", base: 0x6000, size: 0x2000 },
    ]
}

/// Region of each address.
pub open spec fn region_of(a: int) -> Option<Region> {
    if 0 <= a < 0x0400 {
        Some(Region::Ram)
    } else if 0x2000 <= a < 0x4000 {
        Some(Region::Io)
    } else if 0x4000 <= a < 0x4800 {
        Some(Region::VectorRam)
    } else if 0x4800 <= a < 0x5800 {
        Some(Region::VectorRom)
    } else if 0x6000 <= a < 0x8000 {
        Some(Region::ProgramRom)
    } else {
        None
    }
}

proof fn lemma_map(addr: u16)
    ensures
        window_at(map_windows(), addr) matches Some(w) ==> region_of(addr as int) == Some(w.region) && w.covers(addr)
            && w.base == base_of(addr as int),
        window_at(map_windows(), addr) is None ==> region_of(addr as int) is None,
{
    reveal_with_fuel(window_from, 6);
}

/// Where the window of an address begins.
pub open spec fn base_of(a: int) -> int {
    if 0 <= a < 0x0400 {
        0x0000
    } else if 0x2000 <= a < 0x4000 {
        0x2000
    } else if 0x4000 <= a < 0x4800 {
        0x4000
    } else if 0x4800 <= a < 0x5800 {
        0x4800
    } else if 0x6000 <= a < 0x8000 {
        0x6000
    } else {
        0
    }
}

proof fn lemma_map_sizes()
    ensures
        map_fits(map_windows()),
        size_of(map_windows(), Region::Ram) == 0x0400,
        size_of(map_windows(), Region::Io) == 0x2000,
        size_of(map_windows(), Region::VectorRam) == 0x0800,
        size_of(map_windows(), Region::VectorRom) == 0x1000,
        size_of(map_windows(), Region::ProgramRom) == 0x2000,
{
    reveal_with_fuel(size_from, 6);
}

fn build_map() -> (m: DvgMap)
    ensures
        m.windows@ == map_windows(),
{
    let mut m: DvgMap = DvgMap::new();
    m.region(Region::Ram, "RAM", 0x0000, 0x0400);
    m.region(Region::Io, "I/O", 0x2000, 0x2000);
    m.region(Region::VectorRam, "Vector RAM", 0x4000, 0x0800);
    m.region(Region::VectorRom, "Vector ROM", 0x4800, 0x1000);
    m.region(Region::ProgramRom, "Program ROM", 0x6000, 0x2000);
    assert(m.windows@ =~= map_windows());
    m
}

/// What a read of the bus comes to: a value, or an access to the POKEY or the
/// score memory.
#[derive(Clone, Copy, Debug, PartialEq, Eq, Structural)]
pub enum DeluxeRead {
    Value(u8),
    Pokey { register: u8 },
    Earom { offset: u8 },
}

/// What a write asks of the devices beside the board.
#[derive(Clone, Copy, Debug, PartialEq, Eq, Structural)]
pub enum DeluxeWrite {
    Done,
    Pokey { register: u8, data: u8 },
    /// Start the vector generator.
    StartDvg,
    EaromLatch { offset: u8, data: u8 },
    EaromControl { clock: bool, cs1: bool, c1: bool, c2: bool },
}

/// Levels on the POKEY's pot inputs: an open toggle, whose bit is set, leaves
/// its line low, and a closed one drives it high.
pub open spec fn pot_levels(l8: u8) -> Seq<u8> {
    Seq::new(
        8,
        |n: int|
            if bit(l8, n as u8) {
                0x00u8
            } else {
                0x80u8
            },
    )
}

/// Asteroids Deluxe beside its CPU, POKEY, EAROM and vector generator.
pub struct AsteroidsDeluxeSystem {
    pub board: AtariDvgBoard,
    /// Switches, high when pressed.
    pub in0: u8,
    pub in1: u8,
    /// Game options.
    pub dip_switches: u8,
    /// Coinage.
    pub dip_l8: u8,
    /// Levels that the coinage switches drive onto the POKEY's pot inputs.
    pub pots: Vec<u8>,
}

/// The machine as a mathematical value.
#[verifier::ext_equal]
pub struct DeluxeView {
    pub board: DvgView,
    pub in0: u8,
    pub in1: u8,
    pub dip_switches: u8,
    pub dip_l8: u8,
    pub pots: Seq<u8>,
}

impl View for AsteroidsDeluxeSystem {
    type V = DeluxeView;

    open spec fn view(&self) -> DeluxeView {
        DeluxeView {
            board: self.board@,
            in0: self.in0,
            in1: self.in1,
            dip_switches: self.dip_switches,
            dip_l8: self.dip_l8,
            pots: self.pots@,
        }
    }
}

impl DeluxeView {
    /// The board is wired to this game's map, and the pots
    /// follow the coinage switches.
    pub open spec fn wf(&self) -> bool {
        &&& self.board.wf()
        &&& self.board.windows == map_windows()
        &&& self.pots == pot_levels(self.dip_l8)
    }

    /// Power-on: memories blank, every game option at its first choice, every
    /// coinage toggle open.
    pub open spec fn powered_on() -> DeluxeView {
        DeluxeView {
            board: DvgView {
                windows: map_windows(),
                ram: zeros(0x400),
                vector_ram: zeros(0x800),
                vector_rom: zeros(0x1000),
                program_rom: zeros(0x2000),
                clock: 0,
                nmi_counter: 0,
                nmi_pending: false,
                test_asserted: false,
                watchdog_frame_count: 0,
                vrom_dvg_offset: 0x0800,
                vrom_size: 0x1000,
                tracing: false,
                latched_pc: None,
            },
            in0: 0,
            in1: 0,
            dip_switches: 0x00,
            dip_l8: 0xFF,
            pots: pot_levels(0xFF),
        }
    }

    /// What a CPU read comes to.
    pub open spec fn read_access(&self, addr: u16, dvg_halted: bool) -> DeluxeRead {
        let a = addr as int % 0x8000;
        if a < 0x0400 {
            DeluxeRead::Value(self.board.ram[a])
        } else if 0x2000 <= a < 0x2008 {
            DeluxeRead::Value(
                mux_line(in0_line(self.in0, (a % 8) as u8, self.board.clock, dvg_halted)),
            )
        } else if 0x2400 <= a < 0x2408 {
            DeluxeRead::Value(mux_line(bit(self.in1, (a % 8) as u8)))
        } else if 0x2800 <= a < 0x2804 {
            DeluxeRead::Value(toggle_pair(self.dip_switches, a % 4) as u8)
        } else if 0x2C00 <= a < 0x2C10 {
            DeluxeRead::Pokey { register: (a % 16) as u8 }
        } else if 0x2C40 <= a < 0x2C80 {
            DeluxeRead::Earom { offset: (a % 64) as u8 }
        } else if 0x4000 <= a < 0x4800 {
            DeluxeRead::Value(self.board.vector_ram[a - 0x4000])
        } else if 0x4800 <= a < 0x5800 {
            DeluxeRead::Value(self.board.vector_rom[a - 0x4800])
        } else if a >= 0x6000 {
            DeluxeRead::Value(self.board.program_rom[a - 0x6000])
        } else {
            DeluxeRead::Value(0)
        }
    }

    /// What a CPU write asks of the other devices.
    pub open spec fn write_access(addr: u16, data: u8) -> DeluxeWrite {
        let a = addr as int % 0x8000;
        if 0x2C00 <= a < 0x2C10 {
            DeluxeWrite::Pokey { register: (a % 16) as u8, data }
        } else if a == 0x3000 {
            DeluxeWrite::StartDvg
        } else if 0x3200 <= a < 0x3240 {
            DeluxeWrite::EaromLatch { offset: (a % 64) as u8, data }
        } else if a == 0x3A00 {
            DeluxeWrite::EaromControl {
                clock: bit(data, 0),
                cs1: bit(data, 3),
                c1: !bit(data, 1),
                c2: bit(data, 2),
            }
        } else {
            DeluxeWrite::Done
        }
    }

    /// This machine after a CPU write.
    pub open spec fn after_write(self, addr: u16, data: u8) -> DeluxeView {
        let a = addr as int % 0x8000;
        let b = self.board;
        if a < 0x0400 {
            DeluxeView { board: DvgView { ram: b.ram.update(a, data), ..b }, ..self }
        } else if 0x4000 <= a < 0x4800 {
            DeluxeView {
                board: DvgView { vector_ram: b.vector_ram.update(a - 0x4000, data), ..b },
                ..self
            }
        } else if a == 0x3400 {
            DeluxeView { board: DvgView { watchdog_frame_count: 0, ..b }, ..self }
        } else {
            self
        }
    }

    /// The switch banks.
    pub open spec fn bank(&self, bank: int) -> u8 {
        if bank == 0 {
            self.dip_switches
        } else if bank == 1 {
            self.dip_l8
        } else {
            0
        }
    }

    /// This machine with a bank set. The coinage bank drives the pots.
    pub open spec fn with_bank(self, bank: int, value: u8) -> DeluxeView {
        if bank == 0 {
            DeluxeView { dip_switches: value, ..self }
        } else if bank == 1 {
            DeluxeView { dip_l8: value, pots: pot_levels(value), ..self }
        } else {
            self
        }
    }

    /// This machine after a button changes.
    pub open spec fn after_button(self, id: u8, pressed: bool) -> DeluxeView {
        if id == INPUT_COIN {
            DeluxeView { in1: with_bit(self.in1, 0, pressed), ..self }
        } else if id == INPUT_START1 {
            DeluxeView { in1: with_bit(self.in1, 3, pressed), ..self }
        } else if id == INPUT_START2 {
            DeluxeView { in1: with_bit(self.in1, 4, pressed), ..self }
        } else if id == INPUT_THRUST {
            DeluxeView { in1: with_bit(self.in1, 5, pressed), ..self }
        } else if id == INPUT_ROT_RIGHT {
            DeluxeView { in1: with_bit(self.in1, 6, pressed), ..self }
        } else if id == INPUT_ROT_LEFT {
            DeluxeView { in1: with_bit(self.in1, 7, pressed), ..self }
        } else if id == INPUT_FIRE {
            DeluxeView { in0: with_bit(self.in0, 4, pressed), ..self }
        } else if id == INPUT_SHIELD {
            DeluxeView { in0: with_bit(self.in0, 3, pressed), ..self }
        } else {
            self
        }
    }

    /// This machine after a reset.
    pub open spec fn after_reset(self) -> DeluxeView {
        DeluxeView {
            board: DvgView {
                nmi_pending: false,
                nmi_counter: 0,
                watchdog_frame_count: 0,
                ..self.board
            },
            pots: pot_levels(self.dip_l8),
            ..self
        }
    }

    /// This machine at the end of a frame: the NMI line is released and the
    /// watchdog counts.
    pub open spec fn after_frame(self) -> DeluxeView {
        let counted = DeluxeView {
            board: DvgView {
                nmi_pending: false,
                watchdog_frame_count: (self.board.watchdog_frame_count + 1) as u8,
                ..self.board
            },
            ..self
        };
        if self.watchdog_expires() {
            counted.after_reset()
        } else {
            counted
        }
    }

    /// Whether the coming frame end resets the machine.
    pub open spec fn watchdog_expires(&self) -> bool {
        self.board.watchdog_frame_count + 1 >= WATCHDOG_FRAMES
    }
}

impl AsteroidsDeluxeSystem {
    pub fn new() -> (sys: AsteroidsDeluxeSystem)
        ensures
            sys@.wf(),
            sys@ == DeluxeView::powered_on(),
    {
        proof {
            lemma_map_sizes();
        }
        let mut sys: AsteroidsDeluxeSystem = AsteroidsDeluxeSystem {
            board: AtariDvgBoard::new(build_map(), 0x0800, 0x1000),
            in0: 0x00,
            in1: 0x00,
            dip_switches: 0x00,
            dip_l8: 0xFF,
            pots: Vec::new(),
        };
        sys.refresh_dip_pots();
        sys
    }

    /// Drive the coinage toggles onto the POKEY's pot inputs.
    pub fn refresh_dip_pots(&mut self)
        ensures
            final(self)@ == (DeluxeView { pots: pot_levels(old(self)@.dip_l8), ..old(self)@ }),
    {
        let mut pots: Vec<u8> = Vec::new();
        let mut n: u8 = 0;
        while n < 8
            invariant
                n <= 8,
                pots@ == pot_levels(self.dip_l8).take(n as int),
            decreases 8 - n,
        {
            pots.push(
                if bit_is_set(self.dip_l8, n) {
                    0x00
                } else {
                    0x80
                },
            );
            n += 1;
            assert(pots@ =~= pot_levels(self.dip_l8).take(n as int));
        }
        assert(pots@ =~= pot_levels(self.dip_l8));
        self.pots = pots;
    }

    /// Put the program and vector ROM images into the board.
    pub fn load_rom_set(&mut self, program: &[u8], vector: &[u8])
        requires
            old(self)@.wf(),
        ensures
            final(self)@.wf(),
            final(self)@ == (DeluxeView {
                board: DvgView {
                    program_rom: overlaid(old(self)@.board.program_rom, program@),
                    vector_rom: overlaid(old(self)@.board.vector_rom, vector@),
                    ..old(self)@.board
                },
                ..old(self)@
            }),
    {
        self.board.load_region(Region::ProgramRom, program);
        self.board.load_region(Region::VectorRom, vector);
    }

    /// Read the bus. The vector generator's halt line comes in as an argument.
    pub fn bus_read(&self, addr: u16, dvg_halted: bool) -> (r: DeluxeRead)
        requires
            self@.wf(),
        ensures
            r == self@.read_access(addr, dvg_halted),
    {
        let a: u16 = addr % 0x8000;
        proof {
            lemma_map(a);
            lemma_map_sizes();
        }
        match self.board.find(a) {
            Some(w) => if w.region != Region::Io {
                DeluxeRead::Value(self.board.read_backing(a))
            } else if 0x2000 <= a && a < 0x2008 {
                DeluxeRead::Value(read_in0(self.in0, (a % 8) as u8, self.board.clock, dvg_halted))
            } else if 0x2400 <= a && a < 0x2408 {
                DeluxeRead::Value(read_in1(self.in1, (a % 8) as u8))
            } else if 0x2800 <= a && a < 0x2804 {
                DeluxeRead::Value(read_toggles(self.dip_switches, a % 4))
            } else if 0x2C00 <= a && a < 0x2C10 {
                DeluxeRead::Pokey { register: (a % 16) as u8 }
            } else if 0x2C40 <= a && a < 0x2C80 {
                DeluxeRead::Earom { offset: (a % 64) as u8 }
            } else {
                DeluxeRead::Value(0)
            },
            None => DeluxeRead::Value(0),
        }
    }

    /// Write the bus. What the write asks of other devices, and what it tells a
    /// debugger.
    pub fn bus_write(&mut self, addr: u16, data: u8) -> (r: (DeluxeWrite, Option<DebugEvent>))
        requires
            old(self)@.wf(),
        ensures
            final(self)@.wf(),
            final(self)@ == old(self)@.after_write(addr, data),
            r.0 == DeluxeView::write_access(addr, data),
            r.1 == old(self)@.board.write_event(addr % 0x8000, data),
    {
        let a: u16 = addr % 0x8000;
        proof {
            lemma_map(a);
            lemma_map_sizes();
        }
        let event: Option<DebugEvent> = self.board.trace_main_write(a, data);
        let action: DeluxeWrite = match self.board.find(a) {
            Some(w) => if w.region != Region::Io {
                self.board.write_backing(a, data);
                DeluxeWrite::Done
            } else if 0x2C00 <= a && a < 0x2C10 {
                DeluxeWrite::Pokey { register: (a % 16) as u8, data }
            } else if a == 0x3000 {
                DeluxeWrite::StartDvg
            } else if 0x3200 <= a && a < 0x3240 {
                DeluxeWrite::EaromLatch { offset: (a % 64) as u8, data }
            } else if a == 0x3400 {
                self.board.watchdog_frame_count = 0;
                DeluxeWrite::Done
            } else if a == 0x3A00 {
                DeluxeWrite::EaromControl {
                    clock: bit_is_set(data, 0),
                    cs1: bit_is_set(data, 3),
                    c1: !bit_is_set(data, 1),
                    c2: bit_is_set(data, 2),
                }
            } else {
                DeluxeWrite::Done
            },
            None => DeluxeWrite::Done,
        };
        (action, event)
    }

    /// The CPU's interrupt lines. The POKEY's line comes in as an argument.
    pub fn check_interrupts(&self, pokey_irq: bool) -> (s: InterruptState)
        ensures
            s == InterruptState::lines(self@.board.nmi_pending, pokey_irq),
    {
        InterruptState::of_lines(self.board.nmi_pending, pokey_irq)
    }

    pub fn machine_id(&self) -> (id: &'static str)
        ensures
            id@ == "astdelux"@,
    {
        "astdelux"
    }

    pub fn input_controls(&self) -> (v: Vec<InputControl>)
        ensures
            v@ == control_table(),
    {
        controls()
    }

    /// Apply an input event. Only buttons matter.
    pub fn handle_input(&mut self, event: InputEvent)
        ensures
            final(self)@ == match event {
                InputEvent::Button { id, pressed } => old(self)@.after_button(id.0 as u8, pressed),
                _ => old(self)@,
            },
    {
        match event {
            InputEvent::Button { id, pressed } => {
                let code: u8 = id.0 as u8;
                if code == INPUT_COIN {
                    set_bit_active_high(&mut self.in1, 0, pressed);
                } else if code == INPUT_START1 {
                    set_bit_active_high(&mut self.in1, 3, pressed);
                } else if code == INPUT_START2 {
                    set_bit_active_high(&mut self.in1, 4, pressed);
                } else if code == INPUT_THRUST {
                    set_bit_active_high(&mut self.in1, 5, pressed);
                } else if code == INPUT_ROT_RIGHT {
                    set_bit_active_high(&mut self.in1, 6, pressed);
                } else if code == INPUT_ROT_LEFT {
                    set_bit_active_high(&mut self.in1, 7, pressed);
                } else if code == INPUT_FIRE {
                    set_bit_active_high(&mut self.in0, 4, pressed);
                } else if code == INPUT_SHIELD {
                    set_bit_active_high(&mut self.in0, 3, pressed);
                }
            },
            _ => {},
        }
    }

    pub fn dip_banks(&self) -> (banks: Vec<DipSwitchBank>)
        ensures
            tables(banks@) == dip_tables(),
            all_immediate(banks@),
    {
        let banks: Vec<DipSwitchBank> = vec![options_bank(), coinage_bank()];
        assert(tables(banks@) =~= dip_tables());
        banks
    }

    pub fn dip_bank_value(&self, bank: usize) -> (v: u8)
        ensures
            v == self@.bank(bank as int),
    {
        if bank == 0 {
            self.dip_switches
        } else if bank == 1 {
            self.dip_l8
        } else {
            0
        }
    }

    pub fn set_dip_bank_value(&mut self, bank: usize, value: u8)
        ensures
            final(self)@ == old(self)@.with_bank(bank as int, value),
    {
        if bank == 0 {
            self.dip_switches = value;
        } else if bank == 1 {
            self.dip_l8 = value;
            self.refresh_dip_pots();
        }
    }

    /// Choose a setting of one option.
    pub fn set_dip_option(&mut self, bank: usize, option: usize, value: u8)
        requires
            bank < dip_tables().len(),
            option < dip_tables()[bank as int].1.len(),
        ensures
            final(self)@ == old(self)@.with_bank(
                bank as int,
                masked(
                    old(self)@.bank(bank as int),
                    dip_tables()[bank as int].1[option as int].1,
                    value,
                ),
            ),
    {
        let banks: Vec<DipSwitchBank> = self.dip_banks();
        assert(tables(banks@)[bank as int] == banks@[bank as int].table());
        assert(banks@[bank as int].table().1[option as int]
            == banks@[bank as int].options@[option as int].table());
        let mask: u8 = banks[bank].options[option].mask;
        let current: u8 = self.dip_bank_value(bank);
        self.set_dip_bank_value(bank, apply_mask(current, mask, value));
    }

    /// Reset the board. The pots are wiring, so the switches drive them again.
    pub fn reset(&mut self)
        ensures
            final(self)@ == old(self)@.after_reset(),
    {
        self.board.reset();
        self.refresh_dip_pots();
    }

    /// Frame end. Whether the watchdog reset the machine.
    pub fn end_frame(&mut self) -> (expired: bool)
        requires
            old(self)@.board.watchdog_frame_count < 255,
        ensures
            expired == old(self)@.watchdog_expires(),
            final(self)@ == old(self)@.after_frame(),
    {
        let expired: bool = self.board.end_frame();
        if expired {
            self.reset();
        }
        expired
    }
}

impl Default for AsteroidsDeluxeSystem {
    fn default() -> (sys: AsteroidsDeluxeSystem)
        ensures
            sys@.wf(),
            sys@ == DeluxeView::powered_on(),
    {
        AsteroidsDeluxeSystem::new()
    }
}

/// What is saved of the machine beside its CPU and devices.
pub struct DeluxeSnapshot {
    /// The board's RAM and counters.
    pub board: Vec<u8>,
    pub in0: u8,
    pub in1: u8,
}

impl DeluxeView {
    /// `s` holds the saved part of this machine.
    pub open spec fn saved_as(&self, s: DeluxeSnapshot) -> bool {
        &&& s.board@ == self.board.state_bytes()
        &&& s.in0 == self.in0
        &&& s.in1 == self.in1
    }

    /// A snapshot long enough to restore.
    pub open spec fn accepts(&self, s: DeluxeSnapshot) -> bool {
        s.board@.len() >= self.board.state_len()
    }

    /// This machine with the saved part taken from `s`. Switches, ROM and
    /// wiring stay.
    pub open spec fn restored_from(self, s: DeluxeSnapshot) -> DeluxeView {
        DeluxeView {
            board: self.board.with_state(s.board@.take(self.board.state_len())),
            in0: s.in0,
            in1: s.in1,
            ..self
        }
    }
}

impl AsteroidsDeluxeSystem {
    /// Take a snapshot.
    pub fn save_state(&self) -> (s: DeluxeSnapshot)
        ensures
            self@.saved_as(s),
    {
        let mut w: StateWriter = StateWriter::new();
        self.board.save_state(&mut w);
        let board: Vec<u8> = w.into_vec();
        assert(board@ =~= self@.board.state_bytes());
        DeluxeSnapshot { board, in0: self.in0, in1: self.in1 }
    }

    /// Restore a snapshot. One that ends too early is refused and changes
    /// nothing.
    pub fn load_state(&mut self, s: &DeluxeSnapshot) -> (r: Result<(), SaveError>)
        requires
            old(self)@.wf(),
        ensures
            final(self)@.wf(),
            r == if old(self)@.accepts(*s) { Ok::<(), SaveError>(()) } else { Err(SaveError::UnexpectedEnd) },
            final(self)@ == if old(self)@.accepts(*s) { old(self)@.restored_from(*s) } else { old(self)@ },
    {
        let mut r: StateReader = StateReader::new(s.board.as_slice());
        match self.board.load_state(&mut r) {
            Ok(_) => {},
            Err(e) => {
                return Err(e);
            },
        }
        self.in0 = s.in0;
        self.in1 = s.in1;
        Ok(())
    }
}

/// Restoring a snapshot brings back what was saved and leaves ROM and switches
/// as they are.
pub proof fn law_snapshot_round_trip(a: DeluxeView, b: DeluxeView, s: DeluxeSnapshot)
    requires
        a.wf(),
        b.wf(),
        a.saved_as(s),
    ensures
        b.accepts(s),
        b.restored_from(s) == (DeluxeView {
            board: DvgView {
                ram: a.board.ram,
                vector_ram: a.board.vector_ram,
                clock: a.board.clock,
                nmi_counter: a.board.nmi_counter,
                nmi_pending: a.board.nmi_pending,
                watchdog_frame_count: a.board.watchdog_frame_count,
                ..b.board
            },
            in0: a.in0,
            in1: a.in1,
            ..b
        }),
{
    law_state_round_trip(a.board, b.board);
    assert(s.board@.take(b.board.state_len()) =~= a.board.state_bytes());
}

/// RAM reads back what was written to it.
pub proof fn law_ram_read_after_write(m: DeluxeView, addr: u16, data: u8, dvg_halted: bool)
    requires
        m.wf(),
        addr < 0x0400 || 0x4000 <= addr < 0x4800,
    ensures
        m.after_write(addr, data).read_access(addr, dvg_halted) == DeluxeRead::Value(data),
{
    lemma_map_sizes();
}

/// The four option reads together give the game option byte.
pub proof fn law_option_reads_hold_the_bank(m: DeluxeView, dvg_halted: bool)
    ensures
        ({
            let pair = |n: int| m.read_access((0x2800 + n) as u16, dvg_halted)->Value_0 as int;
            m.dip_switches == 64 * pair(0) + 16 * pair(1) + 4 * pair(2) + pair(3)
        }),
{
    law_toggle_pairs_hold_the_byte(m.dip_switches);
}

/// Whatever is done to the switches and however often the machine resets, the
/// pots follow the coinage bank.
pub proof fn law_pots_follow_the_coinage_bank(m: DeluxeView, bank: int, value: u8)
    requires
        m.pots == pot_levels(m.dip_l8),
    ensures
        m.with_bank(bank, value).pots == pot_levels(m.with_bank(bank, value).dip_l8),
        m.after_reset().pots == pot_levels(m.after_reset().dip_l8),
{
}

/// A write that the devices see, or that lands in I/O, changes no memory.
pub proof fn law_io_writes_touch_no_memory(m: DeluxeView, addr: u16, data: u8)
    requires
        m.wf(),
        0x2000 <= addr % 0x8000 < 0x4000,
    ensures
        m.after_write(addr, data).board.ram == m.board.ram,
        m.after_write(addr, data).board.vector_ram == m.board.vector_ram,
        m.after_write(addr, data).board.vector_rom == m.board.vector_rom,
        m.after_write(addr, data).board.program_rom == m.board.program_rom,
{
}

/// The top address line is not decoded.
pub proof fn law_top_address_line_is_ignored(m: DeluxeView, addr: u16, data: u8, dvg_halted: bool)
    requires
        addr < 0x8000,
    ensures
        m.read_access((addr + 0x8000) as u16, dvg_halted) == m.read_access(addr, dvg_halted),
        m.after_write((addr + 0x8000) as u16, data) == m.after_write(addr, data),
{
    assert((addr + 0x8000) % 0x8000 == addr as int % 0x8000);
}

/// A button pressed and released leaves its port as if it had only been
/// released.
pub proof fn law_release_undoes_press(m: DeluxeView, id: u8)
    ensures
        m.after_button(id, true).after_button(id, false) == m.after_button(id, false),
{
    lemma_with_bit_twice(m.in0, 3, true, false);
    lemma_with_bit_twice(m.in0, 4, true, false);
    lemma_with_bit_twice(m.in1, 0, true, false);
    lemma_with_bit_twice(m.in1, 3, true, false);
    lemma_with_bit_twice(m.in1, 4, true, false);
    lemma_with_bit_twice(m.in1, 5, true, false);
    lemma_with_bit_twice(m.in1, 6, true, false);
    lemma_with_bit_twice(m.in1, 7, true, false);
}

/// `n` frames go by without a write to the machine.
pub open spec fn frames_after(m: DeluxeView, n: nat) -> DeluxeView
    decreases n,
{
    if n == 0 {
        m
    } else {
        frames_after(m, (n - 1) as nat).after_frame()
    }
}

/// Clearing the watchdog holds the reset off for seven frame ends; the eighth
/// resets the machine.
pub proof fn law_watchdog_allows_eight_frames(m: DeluxeView, data: u8, n: nat)
    requires
        n <= 8,
    ensures
        ({
            let cleared = m.after_write(0x3400, data);
            &&& n < 8 ==> frames_after(cleared, n).board.watchdog_frame_count == n
            &&& n < 8 ==> (frames_after(cleared, n).watchdog_expires() <==> n == 7)
            &&& n == 8 ==> frames_after(cleared, n).board.watchdog_frame_count == 0
        }),
    decreases n,
{
    if n > 0 {
        law_watchdog_allows_eight_frames(m, data, (n - 1) as nat);
    }
}

} // verus!
