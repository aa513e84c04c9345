//! Burger Time (Data East, 1982): the btime board with this game's ROM
//! manifest, cabinet controls and DIP switches.

use vstd::prelude::*;

use crate::bits::{set_bit_active_high, set_bit_active_low, with_bit, bit, bit_is_set, lemma_with_bit, lemma_with_bit_twice};
use crate::btime::{BtimeBoard, BtimeConfig, BtimeView, decodes_chars, decodes_wide, timing};
use crate::dip::{
    BankTable, DipOption, DipSwitchBank, all_immediate, apply_mask, choice, masked, option, tables, valid_bank,
};
use crate::input::{
    ActionRole, DefaultBinding, DefaultBindings, Direction, InputControl, InputEvent, InputKind,
    KeyId, SharedBindings, control, control_of,
};
use crate::memory::overlaid;
use crate::rom::{RomEntry, RomRegion, RomTable, chip, chips_fit};

verus! {

/// Main program ROM. The region starts at 0xB000; its first 0x1000 bytes are a gap.
pub open spec fn main_rom_chips() -> Seq<RomTable> {
    seq![
        ("aa04.9b", 0x1000int, 0x1000int, seq![0x368a25b5u32]),
        ("aa06.13b", 0x1000int, 0x2000int, seq![0xb4ba400du32]),
        ("aa05.10b", 0x1000int, 0x3000int, seq![0x8005bffau32]),
        ("aa07.15b", 0x1000int, 0x4000int, seq![0x086440adu32]),
    ]
}

/// Main program ROM. The region starts at 0xB000; its first 0x1000 bytes are a gap.
pub fn burgertime_main_rom() -> (r: RomRegion)
    ensures
        r.size == 0x5000,
        r.table() == main_rom_chips(),
        chips_fit(r.size as int, r.table()),
{
    let c0: RomEntry = chip("aa04.9b", 0x1000, 0x1000, vec![0x368a25b5]);
    assert(c0.crc32@ =~= main_rom_chips()[0].3);
    let c1: RomEntry = chip("aa06.13b", 0x1000, 0x2000, vec![0xb4ba400d]);
    assert(c1.crc32@ =~= main_rom_chips()[1].3);
    let c2: RomEntry = chip("aa05.10b", 0x1000, 0x3000, vec![0x8005bffa]);
    assert(c2.crc32@ =~= main_rom_chips()[2].3);
    let c3: RomEntry = chip("aa07.15b", 0x1000, 0x4000, vec![0x086440ad]);
    assert(c3.crc32@ =~= main_rom_chips()[3].3);
    let r: RomRegion = RomRegion { size: 0x5000, entries: vec![c0, c1, c2, c3] };
    assert(r.table() =~= main_rom_chips());
    r
}

/// Character and sprite graphics.
pub open spec fn gfx1_rom_chips() -> Seq<RomTable> {
    seq![
        ("aa12.7k", 0x1000int, 0x0000int, seq![0xc4617243u32]),
        ("ab13.9k", 0x1000int, 0x1000int, seq![0xac01042fu32]),
        ("ab10.10k", 0x1000int, 0x2000int, seq![0x854a872au32]),
        ("ab11.12k", 0x1000int, 0x3000int, seq![0xd4848014u32]),
        ("aa8.13k", 0x1000int, 0x4000int, seq![0x8650c788u32]),
        ("ab9.15k", 0x1000int, 0x5000int, seq![0x8dec15e6u32]),
    ]
}

/// Character and sprite graphics.
pub fn burgertime_gfx1_rom() -> (r: RomRegion)
    ensures
        r.size == 0x6000,
        r.table() == gfx1_rom_chips(),
        chips_fit(r.size as int, r.table()),
{
    let c0: RomEntry = chip("aa12.7k", 0x1000, 0x0000, vec![0xc4617243]);
    assert(c0.crc32@ =~= gfx1_rom_chips()[0].3);
    let c1: RomEntry = chip("ab13.9k", 0x1000, 0x1000, vec![0xac01042f]);
    assert(c1.crc32@ =~= gfx1_rom_chips()[1].3);
    let c2: RomEntry = chip("ab10.10k", 0x1000, 0x2000, vec![0x854a872a]);
    assert(c2.crc32@ =~= gfx1_rom_chips()[2].3);
    let c3: RomEntry = chip("ab11.12k", 0x1000, 0x3000, vec![0xd4848014]);
    assert(c3.crc32@ =~= gfx1_rom_chips()[3].3);
    let c4: RomEntry = chip("aa8.13k", 0x1000, 0x4000, vec![0x8650c788]);
    assert(c4.crc32@ =~= gfx1_rom_chips()[4].3);
    let c5: RomEntry = chip("ab9.15k", 0x1000, 0x5000, vec![0x8dec15e6]);
    assert(c5.crc32@ =~= gfx1_rom_chips()[5].3);
    let r: RomRegion = RomRegion { size: 0x6000, entries: vec![c0, c1, c2, c3, c4, c5] };
    assert(r.table() =~= gfx1_rom_chips());
    r
}

/// Background tile graphics.
pub open spec fn gfx2_rom_chips() -> Seq<RomTable> {
    seq![
        ("ab00.1b", 0x0800int, 0x0000int, seq![0xc7a14485u32]),
        ("ab01.3b", 0x0800int, 0x0800int, seq![0x25b49078u32]),
        ("ab02.4b", 0x0800int, 0x1000int, seq![0xb8ef56c3u32]),
    ]
}

/// Background tile graphics.
pub fn burgertime_gfx2_rom() -> (r: RomRegion)
    ensures
        r.size == 0x1800,
        r.table() == gfx2_rom_chips(),
        chips_fit(r.size as int, r.table()),
{
    let c0: RomEntry = chip("ab00.1b", 0x0800, 0x0000, vec![0xc7a14485]);
    assert(c0.crc32@ =~= gfx2_rom_chips()[0].3);
    let c1: RomEntry = chip("ab01.3b", 0x0800, 0x0800, vec![0x25b49078]);
    assert(c1.crc32@ =~= gfx2_rom_chips()[1].3);
    let c2: RomEntry = chip("ab02.4b", 0x0800, 0x1000, vec![0xb8ef56c3]);
    assert(c2.crc32@ =~= gfx2_rom_chips()[2].3);
    let r: RomRegion = RomRegion { size: 0x1800, entries: vec![c0, c1, c2] };
    assert(r.table() =~= gfx2_rom_chips());
    r
}

/// Background map.
pub open spec fn bg_map_rom_chips() -> Seq<RomTable> {
    seq![
        ("ab03.6b", 0x0800int, 0x0000int, seq![0xd26bc1f3u32]),
    ]
}

/// Background map.
pub fn burgertime_bg_map_rom() -> (r: RomRegion)
    ensures
        r.size == 0x0800,
        r.table() == bg_map_rom_chips(),
        chips_fit(r.size as int, r.table()),
{
    let c0: RomEntry = chip("ab03.6b", 0x0800, 0x0000, vec![0xd26bc1f3]);
    assert(c0.crc32@ =~= bg_map_rom_chips()[0].3);
    let r: RomRegion = RomRegion { size: 0x0800, entries: vec![c0] };
    assert(r.table() =~= bg_map_rom_chips());
    r
}

/// Sound program ROM.
pub open spec fn sound_rom_chips() -> Seq<RomTable> {
    seq![
        ("ab14.12h", 0x1000int, 0x0000int, seq![0xf55e5211u32]),
    ]
}

/// Sound program ROM.
pub fn burgertime_sound_rom() -> (r: RomRegion)
    ensures
        r.size == 0x1000,
        r.table() == sound_rom_chips(),
        chips_fit(r.size as int, r.table()),
{
    let c0: RomEntry = chip("ab14.12h", 0x1000, 0x0000, vec![0xf55e5211]);
    assert(c0.crc32@ =~= sound_rom_chips()[0].3);
    let r: RomRegion = RomRegion { size: 0x1000, entries: vec![c0] };
    assert(r.table() =~= sound_rom_chips());
    r
}

pub const INPUT_P1_RIGHT: u8 = 0;

pub const INPUT_P1_LEFT: u8 = 1;

pub const INPUT_P1_UP: u8 = 2;

pub const INPUT_P1_DOWN: u8 = 3;

pub const INPUT_P1_BUTTON1: u8 = 4;

pub const INPUT_P2_RIGHT: u8 = 5;

pub const INPUT_P2_LEFT: u8 = 6;

pub const INPUT_P2_UP: u8 = 7;

pub const INPUT_P2_DOWN: u8 = 8;

pub const INPUT_P2_BUTTON1: u8 = 9;

pub const INPUT_COIN1: u8 = 10;

pub const INPUT_START1: u8 = 11;

pub const INPUT_START2: u8 = 12;

pub const INPUT_COIN2: u8 = 13;

pub const INPUT_TILT: u8 = 14;

/// The cabinet's controls.
pub open spec fn control_table() -> Seq<InputControl> {
    seq![
        control_of(INPUT_P1_RIGHT as u16, "p1_right", "P1 Right", InputKind::DigitalDirection(Direction::Right), Some(1u8), DefaultBindings::Shared(SharedBindings::P1Right)),
        control_of(INPUT_P1_LEFT as u16, "p1_left", "P1 Left", InputKind::DigitalDirection(Direction::Left), Some(1u8), DefaultBindings::Shared(SharedBindings::P1Left)),
        control_of(INPUT_P1_UP as u16, "p1_up", "P1 Up", InputKind::DigitalDirection(Direction::Up), Some(1u8), DefaultBindings::Shared(SharedBindings::P1Up)),
        control_of(INPUT_P1_DOWN as u16, "p1_down", "P1 Down", InputKind::DigitalDirection(Direction::Down), Some(1u8), DefaultBindings::Shared(SharedBindings::P1Down)),
        control_of(INPUT_P1_BUTTON1 as u16, "p1_button1", "P1 Pepper", InputKind::Action(ActionRole::Primary), Some(1u8), DefaultBindings::Unbound),
        control_of(INPUT_P2_RIGHT as u16, "p2_right", "P2 Right", InputKind::DigitalDirection(Direction::Right), Some(2u8), DefaultBindings::Shared(SharedBindings::P2Right)),
        control_of(INPUT_P2_LEFT as u16, "p2_left", "P2 Left", InputKind::DigitalDirection(Direction::Left), Some(2u8), DefaultBindings::Shared(SharedBindings::P2Left)),
        control_of(INPUT_P2_UP as u16, "p2_up", "P2 Up", InputKind::DigitalDirection(Direction::Up), Some(2u8), DefaultBindings::Shared(SharedBindings::P2Up)),
        control_of(INPUT_P2_DOWN as u16, "p2_down", "P2 Down", InputKind::DigitalDirection(Direction::Down), Some(2u8), DefaultBindings::Shared(SharedBindings::P2Down)),
        control_of(INPUT_P2_BUTTON1 as u16, "p2_button1", "P2 Pepper", InputKind::Action(ActionRole::Primary), Some(2u8), DefaultBindings::Unbound),
        control_of(INPUT_COIN1 as u16, "coin1", "Coin", InputKind::Coin, None, DefaultBindings::Shared(SharedBindings::Coin)),
        control_of(INPUT_START1 as u16, "start1", "P1 Start", InputKind::Start, Some(1u8), DefaultBindings::Shared(SharedBindings::P1Start)),
        control_of(INPUT_START2 as u16, "start2", "P2 Start", InputKind::Start, Some(2u8), DefaultBindings::Shared(SharedBindings::P2Start)),
        control_of(INPUT_COIN2 as u16, "coin2", "Coin 2", InputKind::Coin, None, DefaultBindings::One(DefaultBinding::Key(KeyId::Num6))),
        control_of(INPUT_TILT as u16, "tilt", "Tilt", InputKind::Action(ActionRole::Secondary), None, DefaultBindings::One(DefaultBinding::Key(KeyId::T))),
    ]
}

fn controls() -> (v: Vec<InputControl>)
    ensures
        v@ == control_table(),
{
    let v: Vec<InputControl> = vec![
        control(INPUT_P1_RIGHT as u16, "p1_right", "P1 Right", InputKind::DigitalDirection(Direction::Right), Some(1), DefaultBindings::Shared(SharedBindings::P1Right)),
        control(INPUT_P1_LEFT as u16, "p1_left", "P1 Left", InputKind::DigitalDirection(Direction::Left), Some(1), DefaultBindings::Shared(SharedBindings::P1Left)),
        control(INPUT_P1_UP as u16, "p1_up", "P1 Up", InputKind::DigitalDirection(Direction::Up), Some(1), DefaultBindings::Shared(SharedBindings::P1Up)),
        control(INPUT_P1_DOWN as u16, "p1_down", "P1 Down", InputKind::DigitalDirection(Direction::Down), Some(1), DefaultBindings::Shared(SharedBindings::P1Down)),
        control(INPUT_P1_BUTTON1 as u16, "p1_button1", "P1 Pepper", InputKind::Action(ActionRole::Primary), Some(1), DefaultBindings::Unbound),
        control(INPUT_P2_RIGHT as u16, "p2_right", "P2 Right", InputKind::DigitalDirection(Direction::Right), Some(2), DefaultBindings::Shared(SharedBindings::P2Right)),
        control(INPUT_P2_LEFT as u16, "p2_left", "P2 Left", InputKind::DigitalDirection(Direction::Left), Some(2), DefaultBindings::Shared(SharedBindings::P2Left)),
        control(INPUT_P2_UP as u16, "p2_up", "P2 Up", InputKind::DigitalDirection(Direction::Up), Some(2), DefaultBindings::Shared(SharedBindings::P2Up)),
        control(INPUT_P2_DOWN as u16, "p2_down", "P2 Down", InputKind::DigitalDirection(Direction::Down), Some(2), DefaultBindings::Shared(SharedBindings::P2Down)),
        control(INPUT_P2_BUTTON1 as u16, "p2_button1", "P2 Pepper", InputKind::Action(ActionRole::Primary), Some(2), DefaultBindings::Unbound),
        control(INPUT_COIN1 as u16, "coin1", "Coin", InputKind::Coin, None, DefaultBindings::Shared(SharedBindings::Coin)),
        control(INPUT_START1 as u16, "start1", "P1 Start", InputKind::Start, Some(1), DefaultBindings::Shared(SharedBindings::P1Start)),
        control(INPUT_START2 as u16, "start2", "P2 Start", InputKind::Start, Some(2), DefaultBindings::Shared(SharedBindings::P2Start)),
        control(INPUT_COIN2 as u16, "coin2", "Coin 2", InputKind::Coin, None, DefaultBindings::One(DefaultBinding::Key(KeyId::Num6))),
        control(INPUT_TILT as u16, "tilt", "Tilt", InputKind::Action(ActionRole::Secondary), None, DefaultBindings::One(DefaultBinding::Key(KeyId::T))),
    ];
    assert(v@ =~= control_table());
    v
}

/// First switch bank. Its top bit is the live vertical blank, no switch.
pub open spec fn dsw1_table() -> BankTable {
    (
        "DSW1 (15D)",
        seq![
            (
                "Coin A",
                0x03u8,
                seq![
                    ("1 Coin/1 Credit", 0x03u8),
                    ("1 Coin/2 Credits", 0x02u8),
                    ("1 Coin/3 Credits", 0x01u8),
                    ("2 Coins/1 Credit", 0x00u8),
                ],
            ),
            (
                "Coin B",
                0x0Cu8,
                seq![
                    ("1 Coin/1 Credit", 0x0Cu8),
                    ("1 Coin/2 Credits", 0x08u8),
                    ("1 Coin/3 Credits", 0x04u8),
                    ("2 Coins/1 Credit", 0x00u8),
                ],
            ),
            (
                "Leave Off",
                0x10u8,
                seq![
                    ("Off", 0x10u8),
                    ("On", 0x00u8),
                ],
            ),
            (
                "Cabinet",
                0x40u8,
                seq![
                    ("Upright", 0x00u8),
                    ("Cocktail", 0x40u8),
                ],
            ),
        ],
    )
}

fn dsw1_bank() -> (bank: DipSwitchBank)
    ensures
        bank.table() == dsw1_table(),
        bank.immediate(),
{
    let o0: DipOption = option(
        "Coin A",
        0x03,
        vec![
            choice("1 Coin/1 Credit", 0x03),
            choice("1 Coin/2 Credits", 0x02),
            choice("1 Coin/3 Credits", 0x01),
            choice("2 Coins/1 Credit", 0x00),
        ],
    );
    assert(o0.table().2 =~= dsw1_table().1[0].2);
    let o1: DipOption = option(
        "Coin B",
        0x0C,
        vec![
            choice("1 Coin/1 Credit", 0x0C),
            choice("1 Coin/2 Credits", 0x08),
            choice("1 Coin/3 Credits", 0x04),
            choice("2 Coins/1 Credit", 0x00),
        ],
    );
    assert(o1.table().2 =~= dsw1_table().1[1].2);
    let o2: DipOption = option(
        "Leave Off",
        0x10,
        vec![
            choice("Off", 0x10),
            choice("On", 0x00),
        ],
    );
    assert(o2.table().2 =~= dsw1_table().1[2].2);
    let o3: DipOption = option(
        "Cabinet",
        0x40,
        vec![
            choice("Upright", 0x00),
            choice("Cocktail", 0x40),
        ],
    );
    assert(o3.table().2 =~= dsw1_table().1[3].2);
    let bank: DipSwitchBank = DipSwitchBank { name: "DSW1 (15D)", options: vec![o0, o1, o2, o3] };
    assert(bank.table().1 =~= dsw1_table().1);
    bank
}

/// Second switch bank.
pub open spec fn dsw2_table() -> BankTable {
    (
        "DSW2 (14D)",
        seq![
            (
                "Lives",
                0x01u8,
                seq![
                    ("3", 0x01u8),
                    ("5", 0x00u8),
                ],
            ),
            (
                "Bonus Life",
                0x06u8,
                seq![
                    ("10000", 0x06u8),
                    ("15000", 0x04u8),
                    ("20000", 0x02u8),
                    ("30000", 0x00u8),
                ],
            ),
            (
                "Enemies",
                0x08u8,
                seq![
                    ("4", 0x08u8),
                    ("6", 0x00u8),
                ],
            ),
            (
                "End of Level Pepper",
                0x10u8,
                seq![
                    ("Yes", 0x00u8),
                    ("No", 0x10u8),
                ],
            ),
        ],
    )
}

fn dsw2_bank() -> (bank: DipSwitchBank)
    ensures
        bank.table() == dsw2_table(),
        bank.immediate(),
{
    let o0: DipOption = option(
        "Lives",
        0x01,
        vec![
            choice("3", 0x01),
            choice("5", 0x00),
        ],
    );
    assert(o0.table().2 =~= dsw2_table().1[0].2);
    let o1: DipOption = option(
        "Bonus Life",
        0x06,
        vec![
            choice("10000", 0x06),
            choice("15000", 0x04),
            choice("20000", 0x02),
            choice("30000", 0x00),
        ],
    );
    assert(o1.table().2 =~= dsw2_table().1[1].2);
    let o2: DipOption = option(
        "Enemies",
        0x08,
        vec![
            choice("4", 0x08),
            choice("6", 0x00),
        ],
    );
    assert(o2.table().2 =~= dsw2_table().1[2].2);
    let o3: DipOption = option(
        "End of Level Pepper",
        0x10,
        vec![
            choice("Yes", 0x00),
            choice("No", 0x10),
        ],
    );
    assert(o3.table().2 =~= dsw2_table().1[3].2);
    let bank: DipSwitchBank = DipSwitchBank { name: "DSW2 (14D)", options: vec![o0, o1, o2, o3] };
    assert(bank.table().1 =~= dsw2_table().1);
    bank
}

/// Choices lie under their masks, options share no switch, and the power-on
/// bytes select a choice of every option.
pub proof fn law_dip_tables_are_valid()
    ensures
        valid_bank(dsw1_table(), 0x1F),
        valid_bank(dsw2_table(), 0x0B),
{
    assert({
        &&& 0x03u8 != 0
        &&& 0x03u8 & !0x03u8 == 0
        &&& 0x02u8 & !0x03u8 == 0
        &&& 0x01u8 & !0x03u8 == 0
        &&& 0x00u8 & !0x03u8 == 0
        &&& 0x1Fu8 & 0x03u8 == 0x03
        &&& 0x03u8 & 0x0Cu8 == 0
        &&& 0x03u8 & 0x10u8 == 0
        &&& 0x03u8 & 0x40u8 == 0
        &&& 0x0Cu8 != 0
        &&& 0x0Cu8 & !0x0Cu8 == 0
        &&& 0x08u8 & !0x0Cu8 == 0
        &&& 0x04u8 & !0x0Cu8 == 0
        &&& 0x00u8 & !0x0Cu8 == 0
        &&& 0x1Fu8 & 0x0Cu8 == 0x0C
        &&& 0x0Cu8 & 0x10u8 == 0
        &&& 0x0Cu8 & 0x40u8 == 0
        &&& 0x10u8 != 0
        &&& 0x10u8 & !0x10u8 == 0
        &&& 0x00u8 & !0x10u8 == 0
        &&& 0x1Fu8 & 0x10u8 == 0x10
        &&& 0x10u8 & 0x40u8 == 0
        &&& 0x40u8 != 0
        &&& 0x00u8 & !0x40u8 == 0
        &&& 0x40u8 & !0x40u8 == 0
        &&& 0x1Fu8 & 0x40u8 == 0x00
        &&& 0x01u8 != 0
        &&& 0x01u8 & !0x01u8 == 0
        &&& 0x00u8 & !0x01u8 == 0
        &&& 0x0Bu8 & 0x01u8 == 0x01
        &&& 0x01u8 & 0x06u8 == 0
        &&& 0x01u8 & 0x08u8 == 0
        &&& 0x01u8 & 0x10u8 == 0
        &&& 0x06u8 != 0
        &&& 0x06u8 & !0x06u8 == 0
        &&& 0x04u8 & !0x06u8 == 0
        &&& 0x02u8 & !0x06u8 == 0
        &&& 0x00u8 & !0x06u8 == 0
        &&& 0x0Bu8 & 0x06u8 == 0x02
        &&& 0x06u8 & 0x08u8 == 0
        &&& 0x06u8 & 0x10u8 == 0
        &&& 0x08u8 != 0
        &&& 0x08u8 & !0x08u8 == 0
        &&& 0x00u8 & !0x08u8 == 0
        &&& 0x0Bu8 & 0x08u8 == 0x08
        &&& 0x08u8 & 0x10u8 == 0
        &&& 0x0Bu8 & 0x10u8 == 0x00
    }) by (bit_vector);
    assert(dsw1_table().1[0].2[0].1 == 0x1Fu8 & dsw1_table().1[0].1);
    assert(dsw1_table().1[1].2[0].1 == 0x1Fu8 & dsw1_table().1[1].1);
    assert(dsw1_table().1[2].2[0].1 == 0x1Fu8 & dsw1_table().1[2].1);
    assert(dsw1_table().1[3].2[0].1 == 0x1Fu8 & dsw1_table().1[3].1);
    assert(dsw2_table().1[0].2[0].1 == 0x0Bu8 & dsw2_table().1[0].1);
    assert(dsw2_table().1[1].2[2].1 == 0x0Bu8 & dsw2_table().1[1].1);
    assert(dsw2_table().1[2].2[0].1 == 0x0Bu8 & dsw2_table().1[2].1);
    assert(dsw2_table().1[3].2[0].1 == 0x0Bu8 & dsw2_table().1[3].1);
}

/// The board after a coin line changes: a press that the line did not already
/// show raises the main interrupt.
pub open spec fn after_coin(b: BtimeView, n: u8, pressed: bool) -> BtimeView {
    BtimeView {
        system: with_bit(b.system, n, pressed),
        main_irq: b.main_irq || (pressed && !bit(b.system, n)),
        ..b
    }
}

/// The board after a control changes. Player and start lines are pulled high
/// and grounded when pressed; coin lines go high.
pub open spec fn after_button(b: BtimeView, id: u8, pressed: bool) -> BtimeView {
    if id <= INPUT_P1_BUTTON1 {
        BtimeView { p1: with_bit(b.p1, id, !pressed), ..b }
    } else if id <= INPUT_P2_BUTTON1 {
        BtimeView { p2: with_bit(b.p2, (id - INPUT_P2_RIGHT) as u8, !pressed), ..b }
    } else if id == INPUT_START1 {
        BtimeView { system: with_bit(b.system, 0, !pressed), ..b }
    } else if id == INPUT_START2 {
        BtimeView { system: with_bit(b.system, 1, !pressed), ..b }
    } else if id == INPUT_TILT {
        BtimeView { system: with_bit(b.system, 2, !pressed), ..b }
    } else if id == INPUT_COIN1 {
        after_coin(b, 6, pressed)
    } else if id == INPUT_COIN2 {
        after_coin(b, 7, pressed)
    } else {
        b
    }
}

/// Value of a switch bank as the menu shows it.
pub open spec fn bank_value(b: BtimeView, bank: usize) -> u8 {
    if bank == 0 {
        b.dsw1 & 0x7F
    } else if bank == 1 {
        b.dsw2
    } else {
        0
    }
}

/// The board with a switch bank set.
pub open spec fn with_bank(b: BtimeView, bank: usize, value: u8) -> BtimeView {
    if bank == 0 {
        BtimeView { dsw1: value & 0x7F, ..b }
    } else if bank == 1 {
        BtimeView { dsw2: value, ..b }
    } else {
        b
    }
}

/// The switch banks of the machine.
pub open spec fn dip_tables() -> Seq<BankTable> {
    seq![dsw1_table(), dsw2_table()]
}

/// The btime board wired as Burger Time.
pub struct BurgertimeSystem {
    pub board: BtimeBoard,
}

impl View for BurgertimeSystem {
    type V = BtimeView;

    open spec fn view(&self) -> BtimeView {
        self.board@
    }
}

impl BurgertimeSystem {
    /// A machine as it powers on.
    pub fn new() -> (sys: BurgertimeSystem)
        ensures
            sys.board.wf(),
            sys@.powered_on(),
            sys@.config.name@ == "burgertime"@,
    {
        BurgertimeSystem { board: BtimeBoard::new(BtimeConfig { name: "burgertime" }) }
    }

    pub fn machine_id(&self) -> (id: &str)
        ensures
            id@ == self@.config.name@,
    {
        self.board.machine_id()
    }

    /// The native raster, before the monitor's mounting turns it.
    pub fn display_size(&self) -> (size: (u32, u32))
        ensures
            size == (240u32, 240u32),
    {
        timing().display_size()
    }

    /// The shape the picture is shown in.
    pub fn display_aspect(&self) -> (aspect: Option<(u32, u32)>)
        ensures
            aspect == Some((3u32, 4u32)),
    {
        timing().display_aspect()
    }

    /// Drive a coin line. The rising edge raises the main interrupt.
    fn coin(&mut self, n: u8, pressed: bool)
        requires
            n < 8,
        ensures
            final(self)@ == after_coin(old(self)@, n, pressed),
    {
        let was_set: bool = bit_is_set(self.board.system, n);
        set_bit_active_high(&mut self.board.system, n, pressed);
        if pressed && !was_set {
            self.board.main_irq = true;
        }
    }

    /// Put the region images into the board.
    pub fn load_rom_set(
        &mut self,
        main: &[u8],
        sound: &[u8],
        gfx1: &[u8],
        gfx2: &[u8],
        bg_map: &[u8],
    )
        requires
            old(self).board.wf(),
            main@.len() == 0x5000,
            sound@.len() == 0x1000,
            gfx1@.len() == 0x6000,
            gfx2@.len() == 0x1800,
            bg_map@.len() == 0x800,
        ensures
            final(self).board.wf(),
            decodes_chars(final(self)@.chars, gfx1@),
            decodes_wide(final(self)@.sprites, gfx1@, 256, 0x2000),
            decodes_wide(final(self)@.bg_tiles, gfx2@, 64, 0x0800),
            final(self)@ == (BtimeView {
                main_rom: main@,
                sound_rom: sound@,
                bg_map: bg_map@,
                chars: final(self)@.chars,
                sprites: final(self)@.sprites,
                bg_tiles: final(self)@.bg_tiles,
                ..old(self)@
            }),
    {
        let ghost before = self@;
        self.board.load_main_rom(main);
        self.board.load_sound_rom(sound);
        self.board.load_gfx1(gfx1);
        self.board.load_gfx2(gfx2);
        self.board.load_bg_map(bg_map);
        assert(overlaid(before.bg_map, bg_map@) =~= bg_map@);
    }

    pub fn input_controls(&self) -> (v: Vec<InputControl>)
        ensures
            v@ == control_table(),
    {
        controls()
    }

    /// Apply an input event. Only buttons are wired.
    pub fn handle_input(&mut self, event: InputEvent)
        ensures
            final(self)@ == match event {
                InputEvent::Button { id, pressed } => after_button(old(self)@, id.0 as u8, pressed),
                _ => old(self)@,
            },
    {
        if let InputEvent::Button { id, pressed } = event {
            let code: u8 = id.0 as u8;
            if code <= INPUT_P1_BUTTON1 {
                set_bit_active_low(&mut self.board.p1, code, pressed);
            } else if code <= INPUT_P2_BUTTON1 {
                set_bit_active_low(&mut self.board.p2, code - INPUT_P2_RIGHT, pressed);
            } else if code == INPUT_START1 {
                set_bit_active_low(&mut self.board.system, 0, pressed);
            } else if code == INPUT_START2 {
                set_bit_active_low(&mut self.board.system, 1, pressed);
            } else if code == INPUT_TILT {
                set_bit_active_low(&mut self.board.system, 2, pressed);
            } else if code == INPUT_COIN1 {
                self.coin(6, pressed);
            } else if code == INPUT_COIN2 {
                self.coin(7, pressed);
            }
        }
    }

    pub fn dip_banks(&self) -> (banks: Vec<DipSwitchBank>)
        ensures
            tables(banks@) == dip_tables(),
            all_immediate(banks@),
    {
        let banks: Vec<DipSwitchBank> = vec![dsw1_bank(), dsw2_bank()];
        assert(tables(banks@) =~= dip_tables());
        banks
    }

    /// Value of a switch bank. Bit 7 of the first is no switch.
    pub fn dip_bank_value(&self, bank: usize) -> (v: u8)
        ensures
            v == bank_value(self@, bank),
    {
        if bank == 0 {
            self.board.dsw1 & 0x7F
        } else if bank == 1 {
            self.board.dsw2
        } else {
            0
        }
    }

    pub fn set_dip_bank_value(&mut self, bank: usize, value: u8)
        ensures
            final(self)@ == with_bank(old(self)@, bank, value),
    {
        if bank == 0 {
            self.board.dsw1 = value & 0x7F;
        } else if bank == 1 {
            self.board.dsw2 = value;
        }
    }

    /// Choose a setting of one option.
    pub fn set_dip_option(&mut self, bank: usize, option: usize, value: u8)
        requires
            bank < dip_tables().len(),
            option < dip_tables()[bank as int].1.len(),
        ensures
            final(self)@ == with_bank(
                old(self)@,
                bank,
                masked(
                    bank_value(old(self)@, bank),
                    dip_tables()[bank as int].1[option as int].1,
                    value,
                ),
            ),
    {
        let banks: Vec<DipSwitchBank> = self.dip_banks();
        assert(tables(banks@)[bank as int] == banks@[bank as int].table());
        assert(banks@[bank as int].table().1[option as int]
            == banks@[bank as int].options@[option as int].table());
        let mask: u8 = banks[bank].options[option].mask;
        let current: u8 = self.dip_bank_value(bank);
        self.set_dip_bank_value(bank, apply_mask(current, mask, value));
    }
}

impl Default for BurgertimeSystem {
    fn default() -> (sys: BurgertimeSystem)
        ensures
            sys.board.wf(),
            sys@.powered_on(),
            sys@.config.name@ == "burgertime"@,
    {
        BurgertimeSystem::new()
    }
}

/// A coin raises one interrupt per press: pressing while the line is already
/// high raises none, and after a release the next press raises one again.
pub proof fn law_coin_interrupt_is_edge_triggered(b: BtimeView, n: u8)
    requires
        n < 8,
    ensures
        !bit(b.system, n) ==> after_coin(b, n, true).main_irq,
        bit(after_coin(b, n, true).system, n),
        after_coin(BtimeView { main_irq: false, ..after_coin(b, n, true) }, n, true).main_irq
            == false,
        after_coin(after_coin(b, n, false), n, true).main_irq,
{
    lemma_with_bit(b.system, n, n, true);
    lemma_with_bit(b.system, n, n, false);
}

/// Letting go of a control undoes its press on the port it drives.
pub proof fn law_release_undoes_press(b: BtimeView, id: u8)
    requires
        after_button(b, id, false) == b,
    ensures
        after_button(after_button(b, id, true), id, false) == (BtimeView {
            main_irq: after_button(b, id, true).main_irq,
            ..b
        }),
{
    if id <= INPUT_P1_BUTTON1 {
        lemma_with_bit_twice(b.p1, id, false, true);
    } else if id <= INPUT_P2_BUTTON1 {
        lemma_with_bit_twice(b.p2, (id - INPUT_P2_RIGHT) as u8, false, true);
    } else {
        lemma_with_bit_twice(b.system, 0, false, true);
        lemma_with_bit_twice(b.system, 1, false, true);
        lemma_with_bit_twice(b.system, 2, false, true);
        lemma_with_bit_twice(b.system, 6, true, false);
        lemma_with_bit_twice(b.system, 7, true, false);
    }
}

} // verus!
