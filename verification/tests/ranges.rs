use phosphor_machines::astdelux::AsteroidsDeluxeSystem;
use phosphor_machines::asteroids::AsteroidsSystem;
use phosphor_machines::asteroids_sound::AsteroidsDiscreteSound;
use phosphor_machines::atari_jsa::AtariJsa1;
use phosphor_machines::atari_system1::{AtariSystem1Board, GfxBank, get_pf_bank};
use phosphor_machines::atari_system1_sound::{STATE_LEN, tms_clock_for_pb4};
use phosphor_machines::btime::{BtimeBoard, BtimeConfig, FRAME_CYCLES, timing};
use phosphor_machines::burgertime::BurgertimeSystem;
use phosphor_machines::ccastles::{
    CTRL_TRACKBALL_X, CTRL_TRACKBALL_Y, CrystalCastlesBoard, CrystalCastlesSystem, TrackballInput,
};
use phosphor_machines::congo_bongo::{CongoBongoBoard, CongoBongoSystem, coinage};
use phosphor_machines::dip::{DipApplyTiming, DipSwitchBank};
use phosphor_machines::gfx::GfxCache;
use phosphor_machines::input::{
    DefaultBinding, DefaultBindings, InputControl, InputEvent, InputId, KeyId, MouseControl,
    PadButton, PadControl, SharedBindings,
};
use phosphor_machines::machine::FramePlan;
use phosphor_machines::memory::SaveError;

#[test]
fn a_snapshot_holds_the_sound_board_and_its_speech() {
    let mut a = AtariSystem1Board::new(true);
    a.bus_write(0x86_0000, 0x80);
    a.bus_write(0xFE_0000, 0x5A);
    a.sound.sound_ram[17] = 0xC3;
    a.sound.mainlatch = 0x77;
    a.sound.response_pending = true;
    a.sound.clock = 123_456_789_012;
    let mut speech = a.sound.speech.unwrap();
    speech.tms_clock_hz = tms_clock_for_pb4(true);
    speech.clock_acc = 999;
    a.sound.speech = Some(speech);
    let s = a.save_state();
    assert_eq!(s.sound.len(), STATE_LEN + 12);

    let mut b = AtariSystem1Board::new(true);
    b.sound.sound_rom[0] = 0x11;
    assert_eq!(b.load_state(&s), Ok(()));
    assert_eq!(b.sound_debug(), (false, 123_456_789_012, true, true));
    assert_eq!(b.sound.soundlatch, 0x5A);
    assert!(b.sound.sound_nmi && b.sound.reset_pending);
    assert_eq!(b.sound.sound_ram[17], 0xC3);
    assert_eq!(b.sound.speech, Some(speech));
    assert_eq!(b.sound.sound_rom[0], 0x11);
    assert_eq!(b.bus_read(0xFC_0000, 0), 0x77);
}

#[test]
fn a_snapshot_whose_sound_part_ends_early_is_refused() {
    let mut a = AtariSystem1Board::new(false);
    a.xscroll = 9;
    let plain = a.save_state();
    assert_eq!(plain.sound.len(), STATE_LEN);
    // Without speech fitted the same bytes are enough; with it they are not.
    let mut b = AtariSystem1Board::new(true);
    assert_eq!(b.load_state(&plain), Err(SaveError::UnexpectedEnd));
    assert_eq!(b.xscroll, 0);
    let mut c = AtariSystem1Board::new(false);
    assert_eq!(c.load_state(&plain), Ok(()));
    assert_eq!(c.xscroll, 9);
    let mut short = a.save_state();
    short.sound.pop();
    assert_eq!(c.load_state(&short), Err(SaveError::UnexpectedEnd));
}

#[test]
fn the_sound_board_powers_on_blank_and_resets_its_speech_clock() {
    let mut b = AtariSystem1Board::new(true);
    assert!(b.sound.sound_ram.iter().all(|&v| v == 0));
    assert!(b.sound.sound_rom.iter().all(|&v| v == 0xFF));
    let fresh = b.sound.speech.unwrap();
    assert_eq!(fresh.tms_clock_hz, 650_826);
    let mut tuned = fresh;
    tuned.tms_clock_hz = 795_454;
    tuned.clock_acc = 5;
    b.sound.speech = Some(tuned);
    b.reset();
    assert_eq!(b.sound.speech, Some(fresh));
}

#[test]
fn system1_ports_answer_at_both_addresses_of_their_pair() {
    let mut b = AtariSystem1Board::new(false);
    b.bus_write(0x80_0001, 0x123);
    b.bus_write(0x82_0001, 0x145);
    b.bus_write(0x84_0001, 0x67);
    assert_eq!((b.xscroll, b.yscroll, b.priority_pens), (0x123, 0x145, 0x67));
    b.bus_write(0x86_0001, 0x80);
    assert_eq!(b.bankselect, 0x80);
    b.watchdog_count = 3;
    b.bus_write(0x88_0001, 0);
    assert_eq!(b.watchdog_count, 0);
    b.video_int = true;
    b.bus_write(0x8A_0001, 0);
    assert!(!b.video_int);
    b.bus_write(0x8C_0001, 0);
    b.bus_write(0xF0_0003, 0xAB);
    assert_eq!(b.bus_read(0xF0_0002, 0), 0xAB);
    b.bus_write(0xFE_0001, 0x42);
    assert_eq!(b.sound.soundlatch, 0x42);
    b.scanline_int = true;
    assert_eq!(b.bus_read(0x2E_0001, 0), 0x80);
    b.sound.mainlatch = 0x99;
    b.sound.response_pending = true;
    assert_eq!(b.bus_read(0xFC_0001, 0), 0x99);
    assert!(!b.sound.response_pending);
    b.slapstic_rom[0x2000] = 0xDE;
    b.slapstic_rom[0x2001] = 0xAD;
    assert_eq!(b.bus_read(0x08_0001, 1), 0xDEAD);
}

#[test]
fn a_tile_bank_is_decoded_once_per_depth() {
    let tiles = vec![0u8; 0x80000];
    let mut banks: Vec<GfxBank> = vec![GfxBank::blank()];
    let mut keys = Vec::new();
    // Bank 1 at 4, then 6, then 4 planes again, whatever the PROM's own depth.
    assert_eq!(get_pf_bank(0xEF, 0xFF, 4, &tiles, &mut banks, &mut keys), 1);
    assert_eq!(get_pf_bank(0xEF, 0xFF, 6, &tiles, &mut banks, &mut keys), 2);
    assert_eq!(get_pf_bank(0xEF, 0x00, 4, &tiles, &mut banks, &mut keys), 1);
    assert_eq!(banks.len(), 3);
    assert_eq!((banks[1].bpp, banks[2].bpp), (4, 6));
    // No bank line low, and a bank past the ROM.
    assert_eq!(get_pf_bank(0xFF, 0xFF, 4, &tiles, &mut banks, &mut keys), 0);
    assert_eq!(get_pf_bank(0xDF, 0xFF, 4, &tiles, &mut banks, &mut keys), 0);
    assert_eq!(banks.len(), 3);
}

fn all_apply_at_once(banks: Vec<DipSwitchBank>) -> usize {
    let mut n = 0;
    for bank in &banks {
        for option in &bank.options {
            assert_eq!(option.apply, DipApplyTiming::Immediate, "{}", option.name);
            n += 1;
        }
    }
    n
}

#[test]
fn every_switch_applies_at_once() {
    assert_eq!(all_apply_at_once(AsteroidsSystem::new().dip_banks()), 6);
    assert_eq!(all_apply_at_once(AsteroidsDeluxeSystem::new().dip_banks()), 9);
    assert_eq!(all_apply_at_once(BurgertimeSystem::new().dip_banks()), 8);
    assert_eq!(all_apply_at_once(CrystalCastlesSystem::new(vec![0; 8]).dip_banks()), 1);
    assert_eq!(all_apply_at_once(CongoBongoSystem::new().dip_banks()), 7);
}

#[test]
fn background_rows_cover_the_native_screen_and_no_more() {
    assert_eq!(BtimeBoard::bg_tile_row(0, false), Some(0));
    assert_eq!(BtimeBoard::bg_tile_row(255, false), Some(15));
    assert_eq!(BtimeBoard::bg_tile_row(256, false), None);
    assert_eq!(BtimeBoard::bg_tile_row(0, true), Some(15));
    assert_eq!(BtimeBoard::bg_tile_row(255, true), Some(0));
    assert_eq!(BtimeBoard::bg_tile_row(256, true), None);
    assert_eq!(BtimeBoard::bg_tile_row(0x7FFF_FFFF, true), None);
}

#[test]
fn a_tile_is_clipped_wherever_it_stands() {
    let mut cache = GfxCache::new(1, 8, 8);
    for x in 0..8 {
        cache.set_pixel(0, x, 2, x as u8);
    }
    let blit = |sx: i32, sy: i32, flipx: bool, transparent: bool, y: usize| {
        let mut row = vec![0xEEu8; 256];
        BtimeBoard::blit_tile_row(
            &mut row, &cache, 0, sx, sy, flipx, false, 8, transparent, y,
        );
        row
    };
    let far = blit(i32::MIN, 0, false, false, 2);
    assert!(far.iter().all(|&v| v == 0xEE));
    let right = blit(252, -100, false, true, 0);
    assert!(right.iter().all(|&v| v == 0xEE));
    let edge = blit(-4, 1_000_000, true, true, 1_000_002);
    assert_eq!(edge[..5], [11, 10, 9, 0xEE, 0xEE]);
    let opaque = blit(-4, 1_000_000, true, false, 1_000_002);
    assert_eq!(opaque[..5], [11, 10, 9, 8, 0xEE]);
    // A tile number past the cache draws nothing, whatever its position.
    let mut row = vec![7u8; 256];
    BtimeBoard::blit_tile_row(
        &mut row, &cache, 1, i32::MAX, i32::MIN, false, false, 0, false, usize::MAX,
    );
    assert!(row.iter().all(|&v| v == 7));
}

#[test]
fn the_map_source_wraps_at_any_row() {
    let mut b = CongoBongoBoard::new();
    b.bg_position = vec![0x34, 0xFA];
    // Position 0x234, doubled.
    assert_eq!(b.bg_src_y(0), 4096 - 0x468);
    assert_eq!(b.bg_src_y(4095), 4095 - 0x468);
    assert_eq!(b.bg_src_y(10_000), (10_000 + 4096 - 0x468) % 4096);
    assert_eq!(CongoBongoBoard::bg_src_x(0, 0), 0x3F);
    assert_eq!(CongoBongoBoard::bg_src_x(600, 5), (5 + 0x3F + 512 - 300) % 256);
}

#[test]
fn coin_prices_move_to_any_nibble() {
    let v = coinage(1);
    assert_eq!((v[0].label, v[0].value), ("4 Coins/1 Credit", 0x1E));
    assert_eq!(coinage(7)[5].value, 0x80);
    assert_eq!(coinage(4)[15].value, 0xE0);
}

#[test]
fn only_the_inverted_axis_has_a_limit() {
    let mut sys = CrystalCastlesSystem::new(vec![0; 8]);
    let turned = sys.handle_input(InputEvent::Relative {
        id: InputId(CTRL_TRACKBALL_X),
        delta: i32::MIN,
    });
    assert_eq!(turned, TrackballInput::Turned { counter: 1, delta: i32::MIN });
    let up = sys.handle_input(InputEvent::Relative {
        id: InputId(CTRL_TRACKBALL_Y),
        delta: i32::MIN + 1,
    });
    assert_eq!(up, TrackballInput::Turned { counter: 0, delta: i32::MAX });
    let other = sys.handle_input(InputEvent::Relative { id: InputId(400), delta: i32::MIN });
    assert_eq!(other, TrackballInput::Nothing);
}

#[test]
fn the_nmi_follows_its_counter_from_power_on() {
    let mut sys = AsteroidsSystem::default();
    for n in 1..=20_000u64 {
        let _ = sys.board.begin_cycle(None);
        assert_eq!(sys.board.nmi_counter, n % 6048);
        assert_eq!(sys.board.nmi_pending, n >= 6048 && n % 6048 < 16, "cycle {n}");
    }
}

#[test]
fn defaults_are_the_powered_on_machines() {
    assert_eq!(AsteroidsSystem::default().dip_switches, AsteroidsSystem::new().dip_switches);
    assert_eq!(AsteroidsDeluxeSystem::default().board.clock, 0);
    let _ = AsteroidsDiscreteSound::default();
    let jsa = AtariJsa1::default();
    assert!(!jsa.pokey_fitted);
    assert!(jsa.rom.iter().all(|&v| v == 0xFF));
}

fn binding(controls: &[InputControl], name: &str) -> DefaultBindings {
    controls.iter().find(|c| c.stable_name == name).unwrap().default_bindings
}

#[test]
fn controls_carry_their_default_bindings() {
    let bt = BurgertimeSystem::new().input_controls();
    assert_eq!(
        binding(&bt, "coin2"),
        DefaultBindings::One(DefaultBinding::Key(KeyId::Num6))
    );
    assert_eq!(
        binding(&bt, "tilt"),
        DefaultBindings::One(DefaultBinding::Key(KeyId::T))
    );
    assert_eq!(binding(&bt, "p1_button1"), DefaultBindings::Unbound);
    let cc = CrystalCastlesSystem::new(vec![0; 8]).input_controls();
    assert_eq!(
        binding(&cc, "jump_left"),
        DefaultBindings::Four(
            DefaultBinding::Key(KeyId::Num1),
            DefaultBinding::Key(KeyId::Space),
            DefaultBinding::Pad(PadControl::Button(PadButton::Start)),
            DefaultBinding::Mouse(MouseControl::Left),
        )
    );
    assert_eq!(
        binding(&cc, "jump_right"),
        DefaultBindings::Three(
            DefaultBinding::Key(KeyId::Num2),
            DefaultBinding::Key(KeyId::LShift),
            DefaultBinding::Mouse(MouseControl::Right),
        )
    );
    assert_eq!(
        binding(&cc, "trackball_y"),
        DefaultBindings::One(DefaultBinding::Mouse(MouseControl::AxisY))
    );
    let congo = CongoBongoSystem::new().input_controls();
    assert_eq!(
        binding(&congo, "service"),
        DefaultBindings::Shared(SharedBindings::Service)
    );
    let ast = AsteroidsSystem::new().input_controls();
    assert_eq!(
        binding(&ast, "thrust"),
        DefaultBindings::Shared(SharedBindings::P1Up)
    );
}

fn filled_board(clock: u64) -> BtimeBoard {
    let mut b = BtimeBoard::new(BtimeConfig { name: "frame-test" });
    b.clock = clock;
    b
}

/// A stand-in for the CPUs: scroll and palette follow the clock.
fn cycle(b: &mut BtimeBoard) {
    if b.clock % 40 == 0 {
        b.palette_rgb[0] = (b.clock as u8, (b.clock / 256) as u8, 7);
    }
    b.end_cycle();
}

#[test]
fn a_frame_is_its_cycles_on_and_off_a_boundary() {
    for start in [0u64, 96, 1, 95, 26_000, 26_111] {
        let mut planned = filled_board(start);
        let plan = FramePlan::of(&timing(), start);
        for _ in 0..plan.lead {
            planned.begin_tick(false);
            cycle(&mut planned);
        }
        for _ in 0..plan.whole / 96 {
            planned.begin_scanline(planned.current_scanline());
            for _ in 0..96 {
                planned.begin_main_cycle(false);
                cycle(&mut planned);
            }
        }
        for _ in 0..plan.tail {
            planned.begin_tick(false);
            cycle(&mut planned);
        }
        let mut single = filled_board(start);
        for _ in 0..FRAME_CYCLES {
            single.begin_tick(false);
            cycle(&mut single);
        }
        assert_eq!(planned.clock, start + 26_112);
        assert_eq!(single.clock, start + 26_112);
        assert!(planned.framebuffer == single.framebuffer, "start {start}");
    }
}

#[test]
fn bitmap_writes_wrap_and_keep_protected_nibbles() {
    let mut b = CrystalCastlesBoard::new(vec![0; 8]);
    b.wp_prom = vec![0; 256];
    b.write_vram(0x9235, 0xAB, false, 7);
    assert_eq!(b.video_ram[0x1234..0x1236], [0xAB, 0xAB]);
    // Entry 0x17: line 0 of the address, no pixel mode, pixel 3.
    b.wp_prom[0x17] = 0b1010;
    b.write_vram(0x9235, 0x12, false, 7);
    assert_eq!(b.video_ram[0x1234..0x1236], [0xA2, 0xA2]);
    b.wp_prom[0x67] = 0b0111;
    b.write_vram(0xFFFF, 0xFF, true, 3);
    assert_eq!(b.video_ram[0x7FFE..], [0x00, 0xF0]);
}
