use phosphor_machines::asteroids_circuit::asteroids_circuit;
use phosphor_machines::atari_dvg::beam_current;
use phosphor_machines::bits::{bit_is_set, drive_bit, set_bit_active_high, set_bit_active_low};
use phosphor_machines::circuit::{Netlist, Part, Ratio};
use phosphor_machines::congo_circuit::congo_circuit;
use phosphor_machines::congo_sound::voice_starts;
use phosphor_machines::dip::apply_mask;
use phosphor_machines::gfx::{GfxCache, GfxLayout, decode_gfx, pal_nbit, rotate_90_ccw};
use phosphor_machines::machine::{FramePlan, RateDivider, TimingConfig};
use phosphor_machines::memory::{SaveError, overlay};
use phosphor_machines::state::{StateReader, StateWriter, u32_at, u64_at};

#[test]
fn switches_drive_one_line() {
    let mut port = 0b1010_0101;
    set_bit_active_high(&mut port, 1, true);
    assert_eq!(port, 0b1010_0111);
    set_bit_active_low(&mut port, 7, true);
    assert_eq!(port, 0b0010_0111);
    set_bit_active_low(&mut port, 7, false);
    assert_eq!(port, 0b1010_0111);
    assert!(bit_is_set(port, 5));
    assert_eq!(drive_bit(0xFF, 0, false), 0xFE);
}

#[test]
fn an_option_replaces_only_its_bits() {
    assert_eq!(apply_mask(0b1100_1010, 0b0000_1100, 0b1111_0111), 0b1100_0110);
}

#[test]
fn a_frame_splits_at_scanline_boundaries() {
    let t = TimingConfig {
        cpu_clock_hz: 1000,
        cycles_per_scanline: 10,
        total_scanlines: 4,
        display_width: 1,
        display_height: 1,
        display_aspect: None,
    };
    assert_eq!(
        FramePlan::of(&t, 20),
        FramePlan {
            lead: 0,
            whole: 40,
            tail: 0
        }
    );
    assert_eq!(
        FramePlan::of(&t, 27),
        FramePlan {
            lead: 3,
            whole: 30,
            tail: 7
        }
    );
}

#[test]
fn a_divided_clock_keeps_its_rate() {
    let mut third = RateDivider::new(1, 3);
    let due: Vec<bool> = (0..6).map(|_| third.tick()).collect();
    assert_eq!(due, [false, false, true, false, false, true]);
    let mut d = RateDivider::new(250_000, 3_041_250);
    let n = (0..3_041_250).filter(|_| d.tick()).count();
    assert_eq!(n, 250_000);
    assert_eq!(d.owed, 0);
}

#[test]
fn planes_make_pens() {
    let layout = GfxLayout {
        plane_offsets: vec![0, 16],
        x_offsets: vec![0, 1],
        y_offsets: vec![0, 8],
        char_increment: 32,
    };
    // One 2 by 2 tile: plane 0 in the first two bytes, plane 1 in the next.
    let rom = [0b1000_0000, 0b0100_0000, 0b0100_0000, 0b0100_0000];
    let cache: GfxCache = decode_gfx(&rom, 1, &layout);
    assert_eq!(cache.pixel(0, 0, 0), 1);
    assert_eq!(cache.pixel(0, 1, 0), 2);
    assert_eq!(cache.pixel(0, 0, 1), 0);
    assert_eq!(cache.pixel(0, 1, 1), 3);
    assert_eq!((cache.count(), cache.width(), cache.height()), (1, 2, 2));
}

#[test]
fn a_quarter_turn_puts_the_right_edge_on_top() {
    // 2 by 1: left pixel 1, right pixel 2.
    let out = rotate_90_ccw(&[1, 1, 1, 2, 2, 2], 2, 1);
    assert_eq!(out, vec![2, 2, 2, 1, 1, 1]);
    // 2 by 2.
    let src = [1, 1, 1, 2, 2, 2, 3, 3, 3, 4, 4, 4];
    assert_eq!(
        rotate_90_ccw(&src, 2, 2),
        vec![2, 2, 2, 4, 4, 4, 1, 1, 1, 3, 3, 3]
    );
}

#[test]
fn colour_values_fill_eight_bits() {
    assert_eq!(pal_nbit(0, 3), 0);
    assert_eq!(pal_nbit(7, 3), 255);
    assert_eq!(pal_nbit(4, 3), 0b1001_0010);
    assert_eq!(pal_nbit(2, 2), 0b1010_1010);
    assert_eq!(pal_nbit(3, 2), 255);
}

#[test]
fn saved_fields_come_back_in_order() {
    let mut w = StateWriter::new();
    w.write_u8(7);
    w.write_bool(true);
    w.write_u32_le(0x0102_0304);
    w.write_u64_le(0x1112_1314_1516_1718);
    w.write_bytes(&[9, 8]);
    let bytes = w.into_vec();
    assert_eq!(bytes.len(), 16);
    assert_eq!(bytes[2], 0x04);
    assert_eq!(u32_at(&bytes, 2), 0x0102_0304);
    assert_eq!(u64_at(&bytes, 6), 0x1112_1314_1516_1718);
    let mut r = StateReader::new(&bytes);
    assert_eq!(r.take_bytes(2), Ok(vec![7, 1]));
    assert_eq!(r.left(), 14);
    assert_eq!(r.take_bytes(15), Err(SaveError::UnexpectedEnd));
    assert_eq!(r.left(), 14);
}

#[test]
fn an_image_is_cut_to_its_memory() {
    let mut memory = vec![0u8; 3];
    overlay(&mut memory, &[1, 2]);
    assert_eq!(memory, vec![1, 2, 0]);
    overlay(&mut memory, &[5, 6, 7, 8]);
    assert_eq!(memory, vec![5, 6, 7]);
}

#[test]
fn intensity_codes_follow_the_tube() {
    assert_eq!(beam_current(0), 0);
    assert_eq!(beam_current(9), 175);
    assert_eq!(beam_current(15), 255);
    assert_eq!(beam_current(0x1F), 255);
}

fn assert_settles(net: &Netlist) {
    for (i, n) in net.nodes.iter().enumerate() {
        assert!(n.inputs.iter().all(|&k| k < i), "{}", n.name);
    }
    // Everything reaches the output.
    let mut heard = vec![false; net.nodes.len()];
    heard[net.output] = true;
    for i in (0..net.nodes.len()).rev() {
        if heard[i] {
            for &k in &net.nodes[i].inputs {
                heard[k] = true;
            }
        }
    }
    assert!(heard.iter().all(|&h| h));
}

fn stage<'a>(net: &'a Netlist, name: &str) -> &'a Part {
    &net.nodes.iter().find(|n| n.name == name).unwrap().part
}

#[test]
fn the_asteroids_circuit_is_complete() {
    let net = asteroids_circuit();
    assert_settles(&net);
    assert_eq!(net.nodes.len(), 50);
    assert_eq!(net.nodes[net.output].name, "AUDIO_COUPLING");
    assert_eq!(net.nodes[48].name, "MIX");
    assert_eq!(net.nodes[48].inputs.len(), 7);
    assert_eq!(
        *stage(&net, "THRUST_BP"),
        Part::BandPass {
            signal_ohms: 47_000,
            reference_ohms: 1_200,
            feedback_ohms: 270_000,
            picofarads: 100_000,
            rail: 12_000
        }
    );
    let total = 1000.0 + 600.0 + 100.0 + 131.6 + 76.1 + 53.0 + 49.5;
    let gain = |name: &str| match *stage(&net, name) {
        Part::Gain(Ratio { num, den }) => num as f64 / den as f64,
        other => panic!("{other:?}"),
    };
    assert!((gain("EXPLODE") - 1000.0 / total).abs() < 1e-12);
    assert!((gain("SAUCER") - 76.1 / total).abs() < 1e-12);
    assert!((gain("THUMP") - 131.6 / total / 1.9).abs() < 1e-12);
    assert!((gain("SHIP_FIRE_OUT") - 53.0 / total / 2.15).abs() < 1e-12);
    let centre = 270_000.0 / (2.0 * 47_000.0);
    let thrust = (10_000.0 / 6_800.0) * (600.0 / total) * 7.6 / centre;
    assert!((gain("THRUST") - thrust).abs() < 1e-12);
}

#[test]
fn the_thump_ladder_matches_its_resistors() {
    let net = asteroids_circuit();
    let denom = 1.0 / 220e3 + 1.0 / 100e3 + 1.0 / 47e3 + 1.0 / 22e3 + 1.0 / 6.8e3 + 1.0 / 47e3;
    let Part::Ladder { w0, w1, w2, w3 } = *stage(&net, "THUMP_DAC") else {
        panic!("not a ladder");
    };
    for (w, r) in [(w0, 220e3), (w1, 100e3), (w2, 47e3), (w3, 22e3)] {
        let weight = w.num as f64 / w.den as f64;
        assert!((weight - 3.5 / (r * denom)).abs() < 1e-9);
    }
    let Part::Constant(off) = *stage(&net, "THUMP_DAC_OFF") else {
        panic!("not a constant");
    };
    assert!((off.num as f64 / off.den as f64 - 4.3 / (6.8e3 * denom)).abs() < 1e-9);
}

#[test]
fn the_congo_circuit_is_complete() {
    let net = congo_circuit();
    assert_settles(&net);
    assert_eq!(net.nodes[net.output].inputs.len(), 6);
    assert_eq!(
        net.nodes[9].part,
        Part::Drum {
            hz: 90,
            decay: 55,
            drop: Ratio { num: 13, den: 10 }
        }
    );
}

#[test]
fn voices_start_on_the_rising_edge() {
    assert!(voice_starts(true, false, false, true));
    assert!(!voice_starts(true, true, false, false));
    assert!(!voice_starts(true, false, true, true));
    assert!(voice_starts(true, false, true, false));
    assert!(!voice_starts(false, true, false, false));
}
