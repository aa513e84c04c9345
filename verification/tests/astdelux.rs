use phosphor_machines::astdelux::{
    AsteroidsDeluxeSystem, DeluxeRead, DeluxeSnapshot, DeluxeWrite, astdelux_program_rom,
    astdelux_vector_rom,
};
use phosphor_machines::atari_dvg::{NMI_PERIOD_CYCLES, timing};
use phosphor_machines::dip::DipSwitchBank;
use phosphor_machines::input::{InputEvent, InputId};
use phosphor_machines::memory::SaveError;
use phosphor_machines::trace::DebugEventKind;

fn assert_dip_banks_valid(banks: &[DipSwitchBank], values: &[u8]) {
    assert_eq!(banks.len(), values.len());
    for (bank, value) in banks.iter().zip(values) {
        let mut seen = 0u8;
        for o in &bank.options {
            assert_ne!(o.mask, 0);
            assert_eq!(seen & o.mask, 0, "{} shares a switch", o.name);
            seen |= o.mask;
            for (i, c) in o.choices.iter().enumerate() {
                assert_eq!(c.value & !o.mask, 0, "{} {}", o.name, c.label);
                for d in &o.choices[i + 1..] {
                    assert_ne!(c.value, d.value, "{}", o.name);
                }
            }
            assert!(
                o.choices.iter().any(|c| c.value == value & o.mask),
                "{} has no choice for {value:#04x}",
                o.name
            );
        }
    }
}

fn value(sys: &AsteroidsDeluxeSystem, addr: u16) -> u8 {
    match sys.bus_read(addr, true) {
        DeluxeRead::Value(v) => v,
        other => panic!("a device answers at {addr:#06x}: {other:?}"),
    }
}

#[test]
fn astdelux_dip_default_and_metadata() {
    let sys = AsteroidsDeluxeSystem::new();
    assert_eq!(sys.machine_id(), "astdelux");
    assert_eq!(sys.dip_bank_value(0), 0x00);
    assert_eq!(sys.dip_bank_value(1), 0xFF);
    assert_dip_banks_valid(
        &sys.dip_banks(),
        &[sys.dip_bank_value(0), sys.dip_bank_value(1)],
    );
}

#[test]
fn astdelux_set_dip_option_masks_only_its_bits() {
    let mut sys = AsteroidsDeluxeSystem::new();
    // Bonus Life is option 4 (mask 0xC0); pick "None" (0xC0).
    sys.set_dip_option(0, 4, 0xC0);
    assert_eq!(sys.dip_bank_value(0), 0xC0);
}

#[test]
fn astdelux_the_dip_mux_reads_pairs_from_the_top_of_the_byte_down() {
    let mut sys = AsteroidsDeluxeSystem::new();
    sys.set_dip_bank_value(0, 0b11_10_01_00);
    for (offset, expect) in [(0, 3), (1, 2), (2, 1), (3, 0)] {
        let got = value(&sys, 0x2800 + offset);
        assert_eq!(got, expect, "read of 0x{:04X}", 0x2800 + offset);
    }

    // Only DB0 and DB1 are driven; nothing else on the byte is.
    sys.set_dip_bank_value(0, 0xFF);
    for offset in 0..4 {
        let got = value(&sys, 0x2800 + offset);
        assert_eq!(
            got,
            0x03,
            "read of 0x{:04X} with every toggle set",
            0x2800 + offset
        );
    }
}

#[test]
fn setting_l8_drives_the_pokey_pots() {
    let mut sys = AsteroidsDeluxeSystem::new();
    for n in 0..8 {
        assert_eq!(sys.pots[n], 0x00, "pot {n} at power-on");
    }

    sys.set_dip_bank_value(1, 0x42);
    for n in 0..8 {
        let expect = if 0x42 & (1 << n) != 0 { 0x00 } else { 0x80 };
        assert_eq!(sys.pots[n], expect, "pot {n} after set");
    }

    // And a reset must not drop the wiring on the floor.
    sys.pots = vec![0; 8];
    sys.reset();
    assert_eq!(sys.pots[1], 0x00);
    assert_eq!(sys.pots[6], 0x00);
    assert_eq!(sys.pots[0], 0x80);
}

#[test]
fn l8_choices_reproduce_the_manual_price_recipes() {
    let banks = AsteroidsDeluxeSystem::new().dip_banks();
    let l8 = &banks[1];
    assert_eq!(l8.name, "L8 (Coinage)");

    let choice = |option: &str, label: &str| -> u8 {
        let o = l8.options.iter().find(|o| o.name == option).unwrap();
        o.choices.iter().find(|c| c.label == label).unwrap().value
    };

    let price_50c = choice("Game Price", "2 Coins/1 Play");
    let price_25c = choice("Game Price", "1 Coin/1 Play");
    let straight_door = choice("Right Coin Mech", "x1");
    let dollar_door = choice("Right Coin Mech", "x4");
    let no_bonus = choice("Coin Bonus Adder", "None");
    let every_2_plus_1 = choice("Coin Bonus Adder", "Every 2 Coins, +1");
    let every_4_plus_1 = choice("Coin Bonus Adder", "Every 4 Coins, +1");
    let every_4_plus_2 = choice("Coin Bonus Adder", "Every 4 Coins, +2");

    // Toggle n is bit n-1 and a closed (On) toggle reads 0, so a recipe's byte
    // is the sum of the bits its *open* toggles claim.
    let recipe = |open: &[u8]| -> u8 { open.iter().fold(0u8, |b, t| b | 1 << (t - 1)) };

    // --- 50c per play, Straight 25c Door ---
    assert_eq!(price_50c | straight_door | no_bonus, recipe(&[2, 1]));
    assert_eq!(
        price_50c | straight_door | every_4_plus_2,
        recipe(&[7, 6, 2, 1]),
        "$1.00 = 3 plays"
    );
    assert_eq!(
        price_50c | straight_door | every_2_plus_1,
        recipe(&[6, 2, 1]),
        "$.50/$.75/$1.00 = 1/2/3 plays"
    );

    // --- 25c per play, Straight 25c Door ---
    assert_eq!(price_25c | straight_door | no_bonus, recipe(&[2]));
    assert_eq!(
        price_25c | straight_door | every_2_plus_1,
        recipe(&[6, 2]),
        "$.50 = 3 plays"
    );
    assert_eq!(
        price_25c | straight_door | every_4_plus_1,
        recipe(&[7, 2]),
        "$1.00 = 5 plays"
    );

    // The 25c/$1.00-door rows are the six above with toggle 3 opened.
    assert_eq!(dollar_door, recipe(&[3]));

    for byte in [
        price_50c | straight_door | no_bonus,
        price_25c | dollar_door | every_4_plus_1,
    ] {
        assert_eq!(byte & 0x18, 0, "toggles 4 and 5 are On throughout Figure 8");
    }
}

#[test]
fn l8_bytes_match_what_the_game_displayed() {
    let sys = AsteroidsDeluxeSystem::new();
    assert_eq!(sys.dip_bank_value(1), 0xFF);

    let banks = sys.dip_banks();
    let l8 = &banks[1];
    let selected = |byte: u8, option: &str| -> &str {
        let o = l8.options.iter().find(|o| o.name == option).unwrap();
        let slice = byte & o.mask;
        o.choices.iter().find(|c| c.value == slice).unwrap().label
    };

    assert_eq!(selected(0xFF, "Game Price"), "2 Coins/1 Play");
    assert_eq!(selected(0xFF, "Coin Bonus Adder"), "None (7)");
    assert_eq!(selected(0x02, "Game Price"), "1 Coin/1 Play");
    assert_eq!(selected(0x01, "Game Price"), "1 Coin/2 Plays");
    assert_eq!(selected(0x00, "Game Price"), "Free Play");
    assert_eq!(selected(0x22, "Coin Bonus Adder"), "Every 2 Coins, +1");
    assert_eq!(selected(0x42, "Coin Bonus Adder"), "Every 4 Coins, +1");
    assert_eq!(selected(0x63, "Coin Bonus Adder"), "Every 4 Coins, +2");
    assert_eq!(selected(0x22, "Game Price"), "1 Coin/1 Play");
    assert_eq!(selected(0x42, "Game Price"), "1 Coin/1 Play");
    assert_eq!(selected(0x63, "Game Price"), "2 Coins/1 Play");
}

#[test]
fn astdelux_save_load_round_trip() {
    let mut sys = AsteroidsDeluxeSystem::new();

    // Set known state
    sys.board.ram[0x100] = 0xAA;
    sys.board.vector_ram[0x200] = 0xBB;
    sys.in0 = 0x18;
    sys.in1 = 0xE8;
    sys.board.clock = 75_000;
    sys.board.nmi_counter = 3000;
    sys.board.nmi_pending = true;
    sys.board.watchdog_frame_count = 5;

    let data = sys.save_state();

    // Mutate everything
    let mut sys2 = AsteroidsDeluxeSystem::new();
    sys2.board.ram[0x100] = 0xFF;
    sys2.in0 = 0xFF;
    sys2.board.clock = 999;

    assert_eq!(sys2.load_state(&data), Ok(()));

    assert_eq!(sys2.board.ram[0x100], 0xAA);
    assert_eq!(sys2.board.vector_ram[0x200], 0xBB);
    assert_eq!(sys2.in0, 0x18);
    assert_eq!(sys2.in1, 0xE8);
    assert_eq!(sys2.board.clock, 75_000);
    assert_eq!(sys2.board.nmi_counter, 3000);
    assert!(sys2.board.nmi_pending);
    assert_eq!(sys2.board.watchdog_frame_count, 5);
}

#[test]
fn astdelux_save_does_not_include_rom() {
    let mut sys = AsteroidsDeluxeSystem::new();
    sys.board.program_rom[0] = 0xDE;
    sys.board.vector_rom[0] = 0xAD;

    let data = sys.save_state();

    let mut sys2 = AsteroidsDeluxeSystem::new();
    assert_eq!(sys2.load_state(&data), Ok(()));

    assert_eq!(sys2.board.program_rom[0], 0x00);
    assert_eq!(sys2.board.vector_rom[0], 0x00);
}

#[test]
fn astdelux_short_state_is_refused() {
    let mut sys = AsteroidsDeluxeSystem::new();
    sys.board.ram[0] = 7;
    let short = DeluxeSnapshot {
        board: vec![0; 0x400 + 0x800 + 17],
        in0: 1,
        in1: 2,
    };
    assert_eq!(sys.load_state(&short), Err(SaveError::UnexpectedEnd));
    assert_eq!(sys.board.ram[0], 7);
    assert_eq!(sys.in0, 0);
}

/// The strobes that erase, write and read one byte of the score memory.
#[test]
fn earom_strobes_are_decoded() {
    let mut sys = AsteroidsDeluxeSystem::new();
    let (w, _) = sys.bus_write(0x3205, 0xAB);
    assert_eq!(
        w,
        DeluxeWrite::EaromLatch {
            offset: 5,
            data: 0xAB
        }
    );
    let strobes = [
        (0x0F, true, false, true),
        (0x0E, false, false, true),
        (0x0B, true, false, false),
        (0x0A, false, false, false),
        (0x09, true, true, false),
        (0x08, false, true, false),
    ];
    for (data, clock, c1, c2) in strobes {
        let (w, _) = sys.bus_write(0x3A00, data);
        assert_eq!(
            w,
            DeluxeWrite::EaromControl {
                clock,
                cs1: true,
                c1,
                c2
            }
        );
    }
    assert_eq!(sys.bus_read(0x2C45, true), DeluxeRead::Earom { offset: 5 });
}

#[test]
fn astdelux_bus_decodes_memory_ports_and_devices() {
    let mut sys = AsteroidsDeluxeSystem::new();
    let program: Vec<u8> = (0..0x2000).map(|i| (i % 251) as u8).collect();
    let vector: Vec<u8> = (0..0x1000).map(|i| (i % 241) as u8).collect();
    sys.load_rom_set(&program, &vector);
    assert_eq!(value(&sys, 0x6000), program[0]);
    assert_eq!(value(&sys, 0x7FFF), program[0x1FFF]);
    assert_eq!(value(&sys, 0xFFFC), program[0x1FFC]);
    assert_eq!(value(&sys, 0x4800), vector[0]);
    assert_eq!(value(&sys, 0x57FF), vector[0xFFF]);
    assert_eq!(value(&sys, 0x5800), 0);

    sys.bus_write(0x0123, 0x5A);
    assert_eq!(value(&sys, 0x8123), 0x5A);
    sys.bus_write(0x4321, 0xA5);
    assert_eq!(value(&sys, 0x4321), 0xA5);
    sys.bus_write(0x6000, 0xEE);
    assert_eq!(value(&sys, 0x6000), program[0]);

    assert_eq!(
        sys.bus_read(0x2C0A, true),
        DeluxeRead::Pokey { register: 10 }
    );
    assert_eq!(
        sys.bus_write(0x2C03, 9).0,
        DeluxeWrite::Pokey {
            register: 3,
            data: 9
        }
    );
    assert_eq!(sys.bus_write(0x3000, 0).0, DeluxeWrite::StartDvg);
    assert_eq!(sys.bus_write(0x3600, 0).0, DeluxeWrite::Done);

    // The 3 kHz clock and the generator's running line.
    assert_eq!(value(&sys, 0x2001), 0);
    sys.board.clock = 0x100;
    assert_eq!(value(&sys, 0x2001), 0x80);
    assert_eq!(sys.bus_read(0x2002, true), DeluxeRead::Value(0));
    assert_eq!(sys.bus_read(0x2002, false), DeluxeRead::Value(0x80));
}

#[test]
fn astdelux_buttons_reach_their_mux_lines() {
    let mut sys = AsteroidsDeluxeSystem::new();
    let lines = [
        (0, 0x2400),
        (1, 0x2403),
        (2, 0x2404),
        (3, 0x2405),
        (7, 0x2406),
        (6, 0x2407),
        (4, 0x2004),
        (5, 0x2003),
    ];
    for (id, addr) in lines {
        assert_eq!(value(&sys, addr), 0x00);
        sys.handle_input(InputEvent::Button {
            id: InputId(id),
            pressed: true,
        });
        assert_eq!(value(&sys, addr), 0x80, "control {id}");
        sys.handle_input(InputEvent::Button {
            id: InputId(id),
            pressed: false,
        });
        assert_eq!(value(&sys, addr), 0x00);
    }
    assert_eq!(sys.input_controls().len(), 8);
    sys.handle_input(InputEvent::Relative {
        id: InputId(0),
        delta: 3,
    });
    assert_eq!((sys.in0, sys.in1), (0, 0));
}

#[test]
fn astdelux_watchdog_resets_after_eight_frames() {
    let mut sys = AsteroidsDeluxeSystem::new();
    for frame in 1..=8 {
        sys.board.nmi_pending = true;
        let expired = sys.end_frame();
        assert_eq!(expired, frame == 8);
        assert!(!sys.board.nmi_pending);
    }
    assert_eq!(sys.board.watchdog_frame_count, 0);
    sys.end_frame();
    sys.bus_write(0x3400, 0);
    assert_eq!(sys.board.watchdog_frame_count, 0);
}

#[test]
fn astdelux_writes_are_traced_with_the_decoded_address() {
    let mut sys = AsteroidsDeluxeSystem::new();
    assert!(sys.bus_write(0x8100, 1).1.is_none());
    sys.board.tracing = true;
    let event = sys.bus_write(0x8100, 1).1.unwrap();
    assert_eq!(event.kind, DebugEventKind::MemoryWrite);
    assert_eq!(event.addr, Some(0x0100));
    assert_eq!(event.region, Some("RAM"));
    assert!(sys.bus_write(0x3000, 1).1.is_none());
}

#[test]
fn astdelux_interrupt_lines() {
    let mut sys = AsteroidsDeluxeSystem::new();
    for _ in 0..NMI_PERIOD_CYCLES - 1 {
        sys.board.begin_cycle(None);
    }
    assert!(!sys.check_interrupts(false).nmi);
    sys.board.begin_cycle(None);
    assert!(sys.check_interrupts(false).nmi);
    assert!(sys.check_interrupts(true).irq);
    for _ in 0..15 {
        sys.board.begin_cycle(None);
    }
    assert!(sys.check_interrupts(false).nmi);
    sys.board.begin_cycle(None);
    assert!(!sys.check_interrupts(false).nmi);
    assert_eq!(timing().cycles_per_frame(), 25_200);
    assert_eq!(NMI_PERIOD_CYCLES, 6048);
}

#[test]
fn astdelux_rom_manifests() {
    let program = astdelux_program_rom();
    assert_eq!(program.size, 0x2000);
    assert_eq!(program.entries.len(), 4);
    assert_eq!(program.entries[3].name, "036433-03.j1");
    assert_eq!(program.entries[3].crc32, vec![0x0dcc0be6]);
    let vector = astdelux_vector_rom();
    assert_eq!(vector.size, 0x1000);
    assert_eq!(vector.entries[1].offset, 0x0800);
}
