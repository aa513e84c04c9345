use phosphor_machines::atari_jsa::{
    AtariJsa1, GainRatio, IRQ_PERIOD_CYCLES, JsaPokey, JsaRead, JsaWrite,
};
use phosphor_machines::memory::SaveError;

fn value(jsa: &mut AtariJsa1, addr: u16) -> u8 {
    match jsa.read(addr) {
        JsaRead::Value(v) => v,
        other => panic!("a chip answers at {addr:#06x}: {other:?}"),
    }
}

fn gain(g: GainRatio) -> f32 {
    g.num as f32 / g.den as f32
}

/// The board's own part of `cycles` cycles.
fn run(jsa: &mut AtariJsa1, cycles: usize) {
    for _ in 0..cycles {
        jsa.begin_tick();
        jsa.end_tick();
    }
}

/// The bus accesses of a sound program that polls the I/O port, collects a
/// command and answers with the same byte.
fn run_echo(jsa: &mut AtariJsa1, cycles: usize) {
    for _ in 0..cycles / 4 {
        run(jsa, 4);
        if value(jsa, 0x2804) & 0x40 == 0 {
            let command = value(jsa, 0x2802);
            assert_eq!(jsa.write(0x2A02, command), JsaWrite::Done);
        }
    }
}

#[test]
fn the_rom_splits_into_four_banks_and_a_fixed_window() {
    let mut jsa = AtariJsa1::new(JsaPokey::Absent);
    let mut image = vec![0u8; 0x10000];
    // Stamp each 4 KB page of the low 16 KB with its own page number.
    for page in 0..4usize {
        image[page * 0x1000] = 0xA0 + page as u8;
    }
    image[0x4000] = 0x5A; // first byte of the fixed window
    image[0xFFFF] = 0x5B; // last byte of it
    jsa.load_rom(&image);

    for page in 0..4u8 {
        jsa.write_wrio((page << 6) | 0x01);
        assert_eq!(jsa.bank(), page);
        assert_eq!(
            value(&mut jsa, 0x3000),
            0xA0 + page,
            "bank {page} in the 0x3000 window"
        );
    }

    assert_eq!(value(&mut jsa, 0x4000), 0x5A);
    assert_eq!(value(&mut jsa, 0xFFFF), 0x5B);

    // A short image is ignored.
    jsa.load_rom(&image[1..]);
    assert_eq!(value(&mut jsa, 0x4000), 0x5A);
}

#[test]
fn the_command_response_handshake_completes() {
    let mut jsa = AtariJsa1::new(JsaPokey::Fitted);
    run_echo(&mut jsa, 200);

    assert!(!jsa.command_pending());
    assert!(!jsa.response_pending());

    jsa.write_command(0x42);
    assert!(
        jsa.command_pending(),
        "the flag is up as soon as it latches"
    );

    run_echo(&mut jsa, 400);

    assert!(!jsa.command_pending(), "the sound CPU collected it");
    assert!(jsa.response_pending(), "and answered");
    assert_eq!(jsa.read_response(), 0x42);
    assert!(!jsa.response_pending(), "reading it drops the main IRQ");
}

#[test]
fn the_rdio_port_reports_both_handshake_flags() {
    let mut jsa = AtariJsa1::new(JsaPokey::Fitted);

    // Idle: the NMI line reads high and nothing else is set.
    assert_eq!(jsa.read_rdio(), 0x40);

    jsa.write_command(0x11);
    assert_eq!(jsa.read_rdio() & 0x40, 0, "command waiting pulls it low");

    jsa.response_pending = true;
    assert_eq!(jsa.read_rdio() & 0x20, 0x20, "response not collected");

    jsa.set_self_test(true);
    assert_eq!(jsa.read_rdio() & 0x80, 0x80, "self test");
}

#[test]
fn coin_switches_read_back_on_the_io_port() {
    let mut jsa = AtariJsa1::new(JsaPokey::Fitted);
    assert_eq!(jsa.read_rdio() & 0x03, 0);

    jsa.set_coin(0, true);
    assert_eq!(jsa.read_rdio() & 0x03, 0x01);
    jsa.set_coin(1, true);
    assert_eq!(jsa.read_rdio() & 0x03, 0x03);
    jsa.set_coin(0, false);
    assert_eq!(jsa.read_rdio() & 0x03, 0x02);

    // There are four switches, and only two index lines.
    jsa.set_coin(3, true);
    assert_eq!(jsa.read_rdio() & 0x0F, 0x0A);
    jsa.set_coin(4, true);
    assert_eq!(jsa.read_rdio() & 0x0F, 0x0B);
}

#[test]
fn the_periodic_interrupt_fires_on_its_own_and_acknowledges() {
    let mut jsa = AtariJsa1::new(JsaPokey::Absent);
    jsa.reset_pending = false;

    assert!(!jsa.timed_int);
    run(&mut jsa, IRQ_PERIOD_CYCLES as usize - 1);
    assert!(!jsa.timed_int, "not yet");
    run(&mut jsa, 1);
    assert!(jsa.timed_int, "fires at its period");
    assert!(jsa.check_interrupts(false).irq);
    assert_eq!(IRQ_PERIOD_CYCLES, 7168);

    // A read of the acknowledge strobe clears it.
    jsa.read(0x2806);
    assert!(!jsa.timed_int);

    // So does a write.
    jsa.timed_int = true;
    jsa.write(0x2806, 0);
    assert!(!jsa.timed_int);
}

#[test]
fn the_mix_register_sets_both_volumes() {
    let mut jsa = AtariJsa1::new(JsaPokey::Fitted);

    // Powers up at full so a board that never writes it is still audible.
    assert_eq!(jsa.ym_code(), 7);
    assert_eq!(jsa.pokey_code(), 3);
    assert!((gain(jsa.ym_gain()) - 2.80).abs() < 0.01);
    assert!((gain(jsa.pokey_gain()) - 0.94).abs() < 0.01);

    jsa.write(0x2A06, 0x00);
    assert_eq!(gain(jsa.ym_gain()), 0.0);
    assert_eq!(gain(jsa.pokey_gain()), 0.0);

    // POKEY at 2 of 3, YM at 4 of 7. Both ladders are linear in the code.
    jsa.write(0x2A06, 0x20 | 0x08);
    assert_eq!(jsa.pokey_code(), 2);
    assert_eq!(jsa.ym_code(), 4);
    assert!((gain(jsa.pokey_gain()) - 2.0 * (47.0 / 150.0)).abs() < 1e-6);
    assert!((gain(jsa.ym_gain()) - 4.0 * (12.0 / 30.0)).abs() < 1e-6);
}

/// The POKEY reaches a speaker only through the legs that the YM2151's pins
/// gate.
#[test]
fn clearing_both_ct_pins_mutes_the_pokey() {
    let jsa = AtariJsa1::new(JsaPokey::Fitted);
    for (ct1, ct2) in [(false, false), (true, false), (false, true), (true, true)] {
        let plan = jsa.mix_plan(ct1, ct2);
        let expect = if ct1 || ct2 { 141 } else { 0 };
        assert_eq!(plan.pokey, GainRatio { num: expect, den: 150 });
        assert_eq!(plan.ym, GainRatio { num: 84, den: 30 });
    }
}

#[test]
fn the_low_pass_switches_on_lpf_or_an_odd_ym_code() {
    let mut jsa = AtariJsa1::new(JsaPokey::Fitted);

    // Even YM code, filter off.
    jsa.write(0x2A06, 0x04);
    assert!(!jsa.mix_plan(true, true).shunt_closed);

    // Filter bit alone.
    jsa.write(0x2A06, 0x05);
    assert!(jsa.mix_plan(true, true).shunt_closed);

    // Odd YM code alone, with the filter bit clear.
    jsa.write(0x2A06, 0x02);
    assert!(
        jsa.mix_plan(true, true).shunt_closed,
        "YM0 reaches the same base"
    );
}

#[test]
fn an_absent_pokey_is_open_bus() {
    let mut jsa = AtariJsa1::new(JsaPokey::Absent);
    assert_eq!(jsa.read(0x2C00), JsaRead::Value(0xFF));
    assert_eq!(jsa.write(0x2C00, 0x55), JsaWrite::Done);

    let mut fitted = AtariJsa1::new(JsaPokey::Fitted);
    assert_eq!(fitted.read(0x2C07), JsaRead::Pokey { register: 7 });
    assert_eq!(
        fitted.write(0x2C08, 0x55),
        JsaWrite::Pokey {
            register: 8,
            data: 0x55
        }
    );
}

#[test]
fn a_reset_pulse_drops_an_uncollected_response() {
    let mut jsa = AtariJsa1::new(JsaPokey::Fitted);
    run_echo(&mut jsa, 200);

    jsa.write_command(0x77);
    run_echo(&mut jsa, 400);
    assert!(jsa.response_pending());

    jsa.reset_pulse();
    assert!(!jsa.response_pending(), "the response goes with the reset");
    assert!(jsa.begin_tick(), "the CPU boots from its vector");
    assert!(!jsa.begin_tick());

    // And the CPU comes back up and still answers.
    run_echo(&mut jsa, 200);
    jsa.write_command(0x33);
    run_echo(&mut jsa, 400);
    assert_eq!(jsa.read_response(), 0x33);
}

#[test]
fn atari_jsa_save_load_round_trip() {
    let mut jsa = AtariJsa1::new(JsaPokey::Fitted);
    run_echo(&mut jsa, 500);
    jsa.write_wrio(0x80 | 0x01); // bank 2
    jsa.mix = 0x2A;
    jsa.write_command(0x5A);
    run_echo(&mut jsa, 200);
    let before = jsa.debug_state();
    let snapshot = jsa.save_state();

    let mut other = AtariJsa1::new(JsaPokey::Fitted);
    assert_eq!(other.load_state(&snapshot), Ok(()));

    assert_eq!(other.debug_state(), before);
    assert_eq!(other.bank(), 2);
    assert_eq!(other.mix, 0x2A);

    let mut wrong = jsa.save_state();
    wrong.ram.pop();
    assert_eq!(other.load_state(&wrong), Err(SaveError::SizeMismatch));
}

/// Reading the command latch takes the NMI with it, so a program that polls
/// does not see it late.
#[test]
fn collecting_a_command_drops_its_nmi() {
    let mut jsa = AtariJsa1::new(JsaPokey::Fitted);
    jsa.write_command(1);
    assert!(jsa.check_interrupts(false).nmi);
    assert!(!jsa.check_interrupts(false).nmi, "one shot");
    jsa.write_command(2);
    assert_eq!(value(&mut jsa, 0x2802), 2);
    assert!(!jsa.check_interrupts(false).nmi);
    assert!(jsa.check_interrupts(true).irq, "the FM chip's timer");
}

#[test]
fn chips_and_registers_are_decoded() {
    let mut jsa = AtariJsa1::new(JsaPokey::Fitted);
    assert_eq!(jsa.read(0x2001), JsaRead::Ym { port: 1 });
    assert_eq!(
        jsa.write(0x2000, 0x1B),
        JsaWrite::Ym {
            port: 0,
            data: 0x1B
        }
    );
    assert_eq!(jsa.write(0x2A04, 0x40), JsaWrite::YmReset);
    assert_eq!(jsa.write(0x2A04, 0x41), JsaWrite::Done);
    assert_eq!(jsa.bank(), 1);
    assert_eq!(jsa.write(0x2BFC, 0xC1), JsaWrite::Done, "mirrored strobe");
    assert_eq!(jsa.bank(), 3);
    jsa.write(0x1FFF, 0x12);
    assert_eq!(value(&mut jsa, 0x1FFF), 0x12);
    assert_eq!(value(&mut jsa, 0x2D00), 0xFF);
    let regs = jsa.debug_registers();
    assert_eq!(regs[1].name, "BANK");
    assert_eq!(regs[1].value, 3);
    jsa.reset();
    assert_eq!(jsa.bank(), 0);
    assert_eq!(jsa.debug_state(), (0, false, false));
}
