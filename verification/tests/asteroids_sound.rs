use phosphor_machines::asteroids_noise::{NOISE_SEED, cycle_length, next_noise};
use phosphor_machines::asteroids_sound::{AsteroidsDiscreteSound, SoundDrive, explosion_divider};
use phosphor_machines::memory::SaveError;
use phosphor_machines::state::{StateReader, StateWriter};

#[test]
fn the_thrust_noise_register_runs_a_full_cycle() {
    assert_eq!(
        cycle_length(NOISE_SEED),
        (1 << 15) - 1,
        "thrust noise is running a short cycle, which is a tone and not noise"
    );
}

#[test]
fn the_explosion_noise_runs_the_same_recurrence_as_thrust() {
    // Seed 0 is one step off the cycle rather than on it, so count where the
    // sequence rejoins itself instead of counting states visited.
    let mut lfsr = NOISE_SEED;
    let mut seen = std::collections::HashMap::new();
    let mut step = 0u64;
    while !seen.contains_key(&lfsr) {
        seen.insert(lfsr, step);
        let fb = !(((lfsr >> 6) ^ (lfsr >> 14)) & 1) & 1;
        let next = (lfsr << 1) | fb;
        assert_eq!(next_noise(lfsr), next);
        lfsr = next;
        step += 1;
    }
    assert_eq!(step - seen[&lfsr], cycle_length(NOISE_SEED) as u64);
}

#[test]
fn the_lock_state_stays_locked() {
    assert_eq!(next_noise(0xFFFF), 0xFFFF);
    assert_eq!(cycle_length(0xFFFF), 1);
    assert_eq!(next_noise(0x0000), 0x0001);
    assert_eq!(next_noise(0x0040), 0x0080);
}

#[test]
fn explosion_register_maps_volume_and_pitch() {
    let mut s = AsteroidsDiscreteSound::new();
    // bits 2-5 = 0b1111 (vol 15), bits 6-7 = 0b10 -> divider 3.
    s.write_explosion(0b1011_1100);
    assert_eq!((s.explosion_reg >> 2) & 0x0F, 0x0F);
    assert_eq!(explosion_divider(s.explosion_reg) as f64, 3.0);
    assert_eq!(explosion_divider(0b0000_0000) as f64, 12.0);
    assert_eq!(explosion_divider(0b0100_0000) as f64, 6.0);
    assert_eq!(explosion_divider(0b1000_0000) as f64, 3.0);
    assert_eq!(explosion_divider(0b1100_0000) as f64, 5.0);
}

#[test]
fn thump_register_maps_enable_and_data() {
    let mut s = AsteroidsDiscreteSound::new();
    s.write_thump(0x1A); // enable (bit 4) + data 0x0A
    assert_eq!(s.thump_reg & 0x10, 0x10);
    assert_eq!(s.thump_reg & 0x0F, 0x0A);
    assert!(s.drive().thump_en);
    assert_eq!(s.drive().thump_data, 0x0A);
}

#[test]
fn audio_latch_bits_map_to_effects() {
    let mut s = AsteroidsDiscreteSound::new();
    for bit in 0..6u8 {
        s.write_audio_latch_bit(bit, true);
    }
    assert_eq!(s.audio_latch & 0x3F, 0x3F);
    let regs = s.debug_registers(0);
    // All six latch-driven effect registers should now read 1.
    for name in [
        "SAUCER",
        "SAUCER_FIRE",
        "SAUCER_SEL",
        "THRUST",
        "SHIP_FIRE",
        "LIFE",
    ] {
        let r = regs.iter().find(|r| r.name == name).unwrap();
        assert_eq!(r.value, 1, "{name} should be enabled");
    }
    s.write_audio_latch_bit(3, false);
    assert_eq!(s.audio_latch & 0x08, 0);
    assert!(!s.drive().thrust_en);
    assert!(s.drive().life_en);
}

#[test]
fn registers_drive_the_circuit() {
    let mut s = AsteroidsDiscreteSound::new();
    assert_eq!(
        s.drive(),
        SoundDrive {
            explosion_vol: 0,
            explosion_pitch: 12,
            thump_en: false,
            thump_data: 0,
            saucer_en: false,
            saucer_fire: false,
            saucer_sel: false,
            thrust_en: false,
            ship_fire: false,
            life_en: false,
        }
    );
    s.write_explosion(0b0110_1100);
    assert_eq!(s.drive().explosion_vol, 11);
    assert_eq!(s.drive().explosion_pitch, 6);
    let regs = s.debug_registers(0xBEEF);
    assert_eq!(regs.len(), 11);
    assert_eq!(regs[8].name, "EXPLODE_DATA");
    assert_eq!(regs[8].value, 11);
    assert_eq!(regs[9].value, 6);
    assert_eq!((regs[10].name, regs[10].value, regs[10].width), ("MIX", 0xBEEF, 16));
    s.reset();
    assert_eq!(s.explosion_reg, 0);
}

/// The registers' part of a saved state.
#[test]
fn asteroids_sound_save_load_round_trip() {
    let mut s1 = AsteroidsDiscreteSound::new();
    s1.write_explosion(0b0110_1100);
    s1.write_thump(0x15);
    s1.write_audio_latch_bit(3, true); // thrust
    s1.write_audio_latch_bit(5, true); // life

    let mut w = StateWriter::new();
    s1.save_registers(&mut w);
    let data = w.into_vec();
    assert_eq!(data, vec![0b0110_1100, 0x15, 0x28]);

    let mut s2 = AsteroidsDiscreteSound::new();
    let mut r = StateReader::new(&data);
    assert_eq!(s2.load_registers(&mut r), Ok(()));
    assert_eq!(r.left(), 0);

    assert_eq!(s2.explosion_reg, s1.explosion_reg);
    assert_eq!(s2.thump_reg, s1.thump_reg);
    assert_eq!(s2.audio_latch, s1.audio_latch);

    let mut short = StateReader::new(&data[..2]);
    assert_eq!(
        s2.load_registers(&mut short),
        Err(SaveError::UnexpectedEnd)
    );
}
