use phosphor_machines::burgertime::{
    BurgertimeSystem, INPUT_COIN1, INPUT_COIN2, INPUT_P1_LEFT, INPUT_TILT, burgertime_bg_map_rom,
    burgertime_gfx1_rom, burgertime_gfx2_rom, burgertime_main_rom, burgertime_sound_rom,
};
use phosphor_machines::dip::DipSwitchBank;
use phosphor_machines::input::{InputEvent, InputId};
use phosphor_machines::machine::BusMaster;

fn assert_dip_banks_valid(banks: &[DipSwitchBank], values: &[u8]) {
    assert_eq!(banks.len(), values.len());
    for (bank, value) in banks.iter().zip(values) {
        let mut seen = 0u8;
        for o in &bank.options {
            assert_ne!(o.mask, 0);
            assert_eq!(seen & o.mask, 0, "{} shares a switch", o.name);
            seen |= o.mask;
            for (i, c) in o.choices.iter().enumerate() {
                assert_eq!(c.value & !o.mask, 0, "{} {}", o.name, c.label);
                for d in &o.choices[i + 1..] {
                    assert_ne!(c.value, d.value, "{}", o.name);
                }
            }
            assert!(o.choices.iter().any(|c| c.value == value & o.mask));
        }
    }
}

#[test]
fn metadata_matches_board() {
    let sys = BurgertimeSystem::new();
    assert_eq!(sys.machine_id(), "burgertime");
    assert_eq!(sys.display_size(), (240, 240)); // native square raster
    assert_eq!(sys.display_aspect(), Some((3, 4))); // presented 3:4 portrait
}

#[test]
fn input_controls_exposed() {
    let sys = BurgertimeSystem::new();
    let controls = sys.input_controls();
    // P1/P2 4-way+button (10), coin1/coin2, start1/start2, tilt.
    assert_eq!(controls.len(), 15);
    assert!(controls.iter().any(|c| c.stable_name == "coin1"));
    assert!(controls.iter().any(|c| c.stable_name == "tilt"));
}

#[test]
fn p1_input_is_active_low() {
    let mut sys = BurgertimeSystem::new();
    assert_eq!(sys.board.p1, 0xFF);
    sys.handle_input(InputEvent::Button {
        id: InputId(INPUT_P1_LEFT as u16),
        pressed: true,
    });
    assert_eq!(sys.board.p1 & 0x02, 0, "P1 Left clears IN0 bit 1");
}

fn press(sys: &mut BurgertimeSystem, id: u8, pressed: bool) {
    sys.handle_input(InputEvent::Button {
        id: InputId(id as u16),
        pressed,
    });
}

#[test]
fn coin_irq_is_edge_triggered() {
    let mut sys = BurgertimeSystem::new();
    press(&mut sys, INPUT_COIN1, true);
    assert_ne!(sys.board.system & 0x40, 0, "coin sets system bit 6");
    assert!(sys.board.main_irq, "rising edge asserts IRQ");

    // Simulate the CPU acknowledging (vector fetch), then a redundant press
    // while still held: no new edge, so no re-assert.
    sys.board.main_irq = false;
    press(&mut sys, INPUT_COIN1, true);
    assert!(!sys.board.main_irq, "held coin does not re-assert");

    // Release then press: a fresh edge re-asserts.
    press(&mut sys, INPUT_COIN1, false);
    press(&mut sys, INPUT_COIN1, true);
    assert!(sys.board.main_irq, "new edge re-asserts IRQ");
}

#[test]
fn tilt_and_coin2_map_to_system() {
    let mut sys = BurgertimeSystem::new();
    press(&mut sys, INPUT_TILT, true);
    assert_eq!(
        sys.board.system & 0x04,
        0,
        "tilt clears system bit 2 (active-low)"
    );
    press(&mut sys, INPUT_COIN2, true);
    assert_ne!(
        sys.board.system & 0x80,
        0,
        "coin2 sets system bit 7 (active-high)"
    );
    assert!(sys.board.main_irq, "coin2 edge asserts IRQ");
}

#[test]
fn dip_banks_valid_with_defaults() {
    let sys = BurgertimeSystem::new();
    assert_dip_banks_valid(
        &sys.dip_banks(),
        &[sys.dip_bank_value(0), sys.dip_bank_value(1)],
    );
    assert_eq!(sys.dip_bank_value(0), 0x1F);
    assert_eq!(sys.dip_bank_value(1), 0x0B);
}

#[test]
fn dip_set_option_preserves_other_bits() {
    let mut sys = BurgertimeSystem::new();
    // DSW2 Lives (bank 1, option 0): switch to "5" (0x00).
    sys.set_dip_option(1, 0, 0x00);
    assert_eq!(sys.board.dsw2 & 0x01, 0x00);
    // Bonus/enemies bits untouched.
    assert_eq!(sys.board.dsw2 & 0x0E, 0x0A);
}

#[test]
fn burgertime_rom_images_reach_the_buses() {
    let mut sys = BurgertimeSystem::new();
    let main: Vec<u8> = (0..0x5000).map(|i| (i % 253) as u8).collect();
    let sound: Vec<u8> = (0..0x1000).map(|i| (i % 247) as u8).collect();
    sys.load_rom_set(
        &main,
        &sound,
        &vec![0; 0x6000],
        &vec![0; 0x1800],
        &vec![7; 0x800],
    );
    assert_eq!(sys.board.bus_read(BusMaster::Cpu(0), 0xB000), main[0]);
    assert_eq!(sys.board.bus_read(BusMaster::Cpu(0), 0xFFFF), main[0x4FFF]);
    assert_eq!(sys.board.bus_read(BusMaster::Cpu(1), 0xE123), sound[0x123]);
    assert_eq!(sys.board.bus_read(BusMaster::Cpu(1), 0xF123), sound[0x123]);
    assert_eq!(sys.board.bg_map()[0x7FF], 7);
}

#[test]
fn burgertime_manifests_cover_their_regions() {
    for r in [
        burgertime_main_rom(),
        burgertime_gfx1_rom(),
        burgertime_gfx2_rom(),
        burgertime_bg_map_rom(),
        burgertime_sound_rom(),
    ] {
        let mut covered = vec![false; r.size];
        for e in &r.entries {
            assert!(!e.crc32.is_empty(), "{}", e.name);
            for c in &mut covered[e.offset..e.offset + e.size] {
                assert!(!*c, "{} overlaps", e.name);
                *c = true;
            }
        }
    }
}

#[test]
fn unknown_controls_change_nothing() {
    let mut sys = BurgertimeSystem::new();
    press(&mut sys, 99, true);
    sys.handle_input(InputEvent::Relative {
        id: InputId(0),
        delta: 1,
    });
    assert_eq!((sys.board.p1, sys.board.p2, sys.board.system), (0xFF, 0xFF, 0x07));
    sys.set_dip_bank_value(7, 0xAA);
    assert_eq!(sys.dip_bank_value(7), 0);
    assert_eq!(sys.dip_bank_value(0), 0x1F);
}
