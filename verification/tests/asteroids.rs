use phosphor_machines::asteroids::{
    AsteroidsSnapshot, AsteroidsSystem, AsteroidsWrite, asteroids_program_rom,
    asteroids_vector_rom,
};
use phosphor_machines::atari_dvg::{DSW_UNDRIVEN, NMI_PERIOD_CYCLES};
use phosphor_machines::dip::DipSwitchBank;
use phosphor_machines::input::{InputEvent, InputId};
use phosphor_machines::memory::SaveError;

fn assert_dip_banks_valid(banks: &[DipSwitchBank], values: &[u8]) {
    assert_eq!(banks.len(), values.len());
    for (bank, value) in banks.iter().zip(values) {
        let mut seen = 0u8;
        for o in &bank.options {
            assert_ne!(o.mask, 0);
            assert_eq!(seen & o.mask, 0, "{} shares a switch", o.name);
            seen |= o.mask;
            for (i, c) in o.choices.iter().enumerate() {
                assert_eq!(c.value & !o.mask, 0, "{} {}", o.name, c.label);
                for d in &o.choices[i + 1..] {
                    assert_ne!(c.value, d.value, "{}", o.name);
                }
            }
            assert!(o.choices.iter().any(|c| c.value == value & o.mask));
        }
    }
}

#[test]
fn asteroids_dip_default_and_metadata() {
    let sys = AsteroidsSystem::new();
    assert_eq!(sys.machine_id(), "asteroids");
    assert_eq!(sys.dip_bank_value(0), 0x84); // English, 3 lives, 1C/1C
    assert_dip_banks_valid(
        &sys.dip_banks(),
        &[sys.dip_bank_value(0), sys.dip_bank_value(1)],
    );
    // The self-test switch powers on released.
    assert_eq!(sys.dip_bank_value(1), 0x00);
}

#[test]
fn asteroids_set_dip_option_masks_only_its_bits() {
    let mut sys = AsteroidsSystem::new();
    // Coinage is option 4 (mask 0xC0); pick "2 Coins/1 Credit" (0xC0).
    sys.set_dip_option(0, 4, 0xC0);
    assert_eq!(sys.dip_bank_value(0), 0xC4); // 0x84 low bits kept, top two set
}

#[test]
fn asteroids_the_dip_mux_reads_pairs_from_the_top_of_the_byte_down() {
    let mut sys = AsteroidsSystem::new();
    sys.set_dip_bank_value(0, 0b11_10_01_00);
    for (offset, expect) in [(0, 3), (1, 2), (2, 1), (3, 0)] {
        let got = sys.bus_read(0x2800 + offset, true);
        assert_eq!(
            got,
            DSW_UNDRIVEN | expect,
            "read of 0x{:04X}",
            0x2800 + offset
        );
    }

    // Only DB0 and DB1 carry a toggle; the six the mux never drives float high.
    sys.set_dip_bank_value(0, 0x00);
    for offset in 0..4 {
        let got = sys.bus_read(0x2800 + offset, true);
        assert_eq!(
            got,
            DSW_UNDRIVEN,
            "read of 0x{:04X} with every toggle clear",
            0x2800 + offset
        );
    }
    assert_eq!(DSW_UNDRIVEN, 0xFC);
}

#[test]
fn the_default_byte_is_the_manuals_suggested_setting() {
    let sys = AsteroidsSystem::new();
    assert_eq!(sys.dip_bank_value(0), 0x84);
    // 0x2800 is toggles 7-8 (Coinage), down to 0x2803 for toggles 1-2.
    for (offset, expect, what) in [
        (0, 0b10, "coinage: 1 coin / 1 play"),
        (1, 0b00, "right coin mech x1"),
        (2, 0b01, "3-ship game, center mech x1"),
        (3, 0b00, "English"),
    ] {
        let got = sys.bus_read(0x2800 + offset, true);
        assert_eq!(got, DSW_UNDRIVEN | expect, "{what}");
    }
}

#[test]
fn asteroids_save_load_round_trip() {
    let mut sys = AsteroidsSystem::new();

    // Set known state
    sys.board.ram[0x100] = 0xAA;
    sys.board.vector_ram[0x200] = 0xBB;
    sys.in0 = 0x18;
    sys.in1 = 0xE8;
    sys.board.clock = 75_000;
    sys.board.nmi_counter = 3000;
    sys.board.nmi_pending = true;
    sys.board.watchdog_frame_count = 5;
    sys.sound.write_thump(0x15);
    sys.ramsel = true;

    let data = sys.save_state();

    // Mutate everything
    let mut sys2 = AsteroidsSystem::new();
    sys2.board.ram[0x100] = 0xFF;
    sys2.in0 = 0xFF;
    sys2.board.clock = 999;

    assert_eq!(sys2.load_state(&data), Ok(()));

    assert_eq!(sys2.board.ram[0x100], 0xAA);
    assert_eq!(sys2.board.vector_ram[0x200], 0xBB);
    assert_eq!(sys2.in0, 0x18);
    assert_eq!(sys2.in1, 0xE8);
    assert_eq!(sys2.board.clock, 75_000);
    assert_eq!(sys2.board.nmi_counter, 3000);
    assert!(sys2.board.nmi_pending);
    assert_eq!(sys2.board.watchdog_frame_count, 5);
    assert_eq!(sys2.sound.thump_reg, 0x15);
    assert!(sys2.ramsel);
}

#[test]
fn asteroids_save_does_not_include_rom() {
    let mut sys = AsteroidsSystem::new();
    sys.board.program_rom[0] = 0xDE;
    sys.board.vector_rom[0] = 0xAD;

    let data = sys.save_state();

    let mut sys2 = AsteroidsSystem::new();
    assert_eq!(sys2.load_state(&data), Ok(()));

    assert_eq!(sys2.board.program_rom[0], 0x00);
    assert_eq!(sys2.board.vector_rom[0], 0x00);
}

#[test]
fn asteroids_short_state_is_refused() {
    let mut sys = AsteroidsSystem::new();
    let good = sys.save_state();
    let short = AsteroidsSnapshot {
        board: good.board.clone(),
        sound: vec![0; 2],
        in0: 9,
        in1: 9,
        ramsel: true,
    };
    assert_eq!(sys.load_state(&short), Err(SaveError::UnexpectedEnd));
    assert!(!sys.ramsel);
}

#[test]
fn ramsel_swaps_the_upper_quarters_of_the_ram() {
    let mut sys = AsteroidsSystem::new();
    sys.bus_write(0x0110, 0x11);
    sys.bus_write(0x0210, 0x22);
    sys.bus_write(0x0310, 0x33);
    assert_eq!(sys.bus_read(0x0610, true), 0x22); // mirror
    sys.bus_write(0x3200, 0x04);
    assert!(sys.ramsel);
    assert_eq!(sys.bus_read(0x0110, true), 0x11);
    assert_eq!(sys.bus_read(0x0210, true), 0x33);
    assert_eq!(sys.bus_read(0x0310, true), 0x22);
    assert_eq!(sys.bus_read(0x0710, true), 0x22);
    sys.bus_write(0x0210, 0x44);
    sys.bus_write(0x3200, 0xFB);
    assert!(!sys.ramsel);
    assert_eq!(sys.bus_read(0x0310, true), 0x44);
}

#[test]
fn sound_writes_reach_their_registers() {
    let mut sys = AsteroidsSystem::new();
    sys.bus_write(0x3600, 0xBC);
    sys.bus_write(0x3A00, 0x1A);
    sys.bus_write(0x3C03, 0x80);
    sys.bus_write(0x3C05, 0xFF);
    sys.bus_write(0x3C04, 0x7F); // the latch takes data line 7 only
    sys.bus_write(0x3E00, 0);
    assert_eq!(sys.sound.explosion_reg, 0xBC);
    assert_eq!(sys.sound.thump_reg, 0x1A);
    assert_eq!(sys.sound.audio_latch, 0x28);
    assert!(sys.sound.take_noise_reset());
    assert!(!sys.sound.take_noise_reset());
    assert_eq!(sys.bus_write(0x3000, 0).0, AsteroidsWrite::StartDvg);
    sys.reset();
    assert_eq!(sys.sound.audio_latch, 0);
}

#[test]
fn the_self_test_switch_gates_the_nmi() {
    let mut sys = AsteroidsSystem::new();
    sys.set_dip_bank_value(1, 0xFF);
    assert_eq!(sys.dip_bank_value(1), 0x80);
    assert_eq!(sys.in0, 0x80);
    assert_eq!(sys.bus_read(0x2007, true), 0x80);
    for _ in 0..2 * NMI_PERIOD_CYCLES {
        sys.begin_cycle();
        sys.board.begin_cycle(None);
        assert!(!sys.check_interrupts().nmi);
    }
    sys.set_dip_option(1, 0, 0x00);
    for _ in 0..NMI_PERIOD_CYCLES {
        sys.begin_cycle();
        sys.board.begin_cycle(None);
    }
    assert!(sys.check_interrupts().nmi);
    assert!(!sys.check_interrupts().irq);
}

#[test]
fn asteroids_buttons_reach_their_mux_lines() {
    let mut sys = AsteroidsSystem::new();
    let lines = [
        (0, 0x2400),
        (1, 0x2403),
        (2, 0x2404),
        (3, 0x2405),
        (7, 0x2406),
        (6, 0x2407),
        (4, 0x2004),
        (5, 0x2003),
    ];
    for (id, addr) in lines {
        for pressed in [true, false] {
            sys.handle_input(InputEvent::Button {
                id: InputId(id),
                pressed,
            });
            assert_eq!(sys.bus_read(addr, true), if pressed { 0x80 } else { 0 });
        }
    }
    let names: Vec<&str> = sys.input_controls().iter().map(|c| c.stable_name).collect();
    assert_eq!(
        names,
        [
            "coin",
            "p1_start",
            "p2_start",
            "thrust",
            "fire",
            "hyperspace",
            "rotate_left",
            "rotate_right"
        ]
    );
}

#[test]
fn asteroids_watchdog_resets_after_eight_frames() {
    let mut sys = AsteroidsSystem::new();
    for frame in 1..=8 {
        assert_eq!(sys.end_frame(), frame == 8);
    }
    assert_eq!(sys.board.watchdog_frame_count, 0);
    for _ in 0..5 {
        sys.end_frame();
    }
    sys.bus_write(0x3400, 0);
    for frame in 1..=8 {
        assert_eq!(sys.end_frame(), frame == 8);
    }
}

#[test]
fn asteroids_rom_images_land_where_the_cpu_sees_them() {
    let mut sys = AsteroidsSystem::new();
    let program: Vec<u8> = (0..0x1800).map(|i| (i % 251) as u8).collect();
    let vector: Vec<u8> = (0..0x0800).map(|i| (i % 241) as u8).collect();
    sys.load_rom_set(&program, &vector);
    assert_eq!(sys.bus_read(0x6800, true), program[0]);
    assert_eq!(sys.bus_read(0x7FFF, true), program[0x17FF]);
    assert_eq!(sys.bus_read(0x5000, true), vector[0]);
    assert_eq!(sys.bus_read(0x57FF, true), vector[0x7FF]);
    assert_eq!(sys.bus_read(0x6000, true), 0);
    assert_eq!(asteroids_program_rom().entries[0].name, "035145-04e.ef2");
    assert_eq!(asteroids_program_rom().entries[0].crc32, vec![0xb503eaf7]);
    assert_eq!(asteroids_vector_rom().size, 0x0800);
    // The generator sees the vector ROM at half its address space.
    let start = sys.board.trigger_dvg();
    assert_eq!(start.memory.len(), 0x2000);
    assert_eq!(start.memory[0x1000], vector[0]);
    assert_eq!(start.memory[0x17FF], vector[0x7FF]);
    assert_eq!(start.memory[0x1800], 0);
}
