use phosphor_machines::atari_system1::{
    AtariSystem1Board, GfxBank, Region, VBLANK_SCANLINE, VISIBLE_WIDTH, build_map,
    irgb4444_to_rgb, timing,
};
use phosphor_machines::atari_system1_sound::{
    AtariSystem1Sound, SOUND_CLOCK_HZ, SoundStep, Speech, SpeechRead, System1SoundRead,
    System1SoundWrite, tms_clock_for_pb4,
};
use phosphor_machines::gfx::GfxCache;
use phosphor_machines::memory::SaveError;
use phosphor_machines::state::{StateReader, StateWriter};

/// Scanline the motion-object timer entry built by [`timer_entry_board`]
/// targets. Any visible line works; 100 is comfortably inside the picture.
const TIMER_LINE: u16 = 100;

/// A board whose display list holds exactly one motion-object timer entry,
/// aimed at [`TIMER_LINE`].
///
/// Entry 0 of bank 0 (`bankselect` is 0 after construction). Word 1 is the
/// 0xFFFF flag that marks the entry a timer rather than a sprite. Word 0
/// carries the height and Y that place the band: with the size nibble 0 the
/// height is one tile, so `256 - (word0 >> 5) - 8 - 1` is the target, and
/// `word0 = 147 << 5 = 0x1260` puts it on line 100. Word 3's link is 0,
/// pointing the list at the entry already visited, which ends the walk.
fn timer_entry_board(scanline_interrupt: bool) -> AtariSystem1Board {
    let mut board = AtariSystem1Board::new(false);
    if scanline_interrupt {
        board = board.with_scanline_interrupt();
    }
    let mob = &mut board.mob;
    mob[0x00] = 0x12; // word 0 = 0x1260
    mob[0x01] = 0x60;
    mob[0x80] = 0xFF; // word 0x40 = 0xFFFF: this entry is a timer
    mob[0x81] = 0xFF;
    board
}

/// The same display list on both cartridges, with opposite outcomes.
///
/// The circuit that turns a timer entry into IRQ3 is on the LSI cartridges
/// 2, 3 and 4 and on the cockpit boards, and is absent from the TTL and LSI
/// cartridges that Marble Madness ships on.
#[test]
fn the_motion_object_timer_interrupt_is_a_cartridge_option() {
    let mut roadrunner = timer_entry_board(true);
    roadrunner.begin_scanline(TIMER_LINE);
    assert!(
        roadrunner.scanline_int,
        "an LSI-cartridge board takes IRQ3 from a timer entry"
    );
    assert_eq!(roadrunner.interrupt_level(), 3, "IRQ3 reaches the CPU");
    assert_eq!(
        roadrunner.int3_state(),
        0x0080,
        "and reads back at 0x2E0000"
    );

    let mut marble = timer_entry_board(false);
    marble.begin_scanline(TIMER_LINE);
    assert!(
        !marble.scanline_int,
        "a cartridge without the circuit ignores the same entry"
    );
    assert_eq!(marble.interrupt_level(), 0, "no interrupt reaches the CPU");
    assert_eq!(
        marble.int3_state(),
        0x0000,
        "and 0x2E0000 reads a flat zero"
    );
}

/// A board that has the circuit asserts only on the line the entry names.
#[test]
fn the_timer_interrupt_lasts_one_scanline() {
    let mut board = timer_entry_board(true);

    board.begin_scanline(TIMER_LINE - 1);
    assert!(!board.scanline_int, "not yet on the line before");
    board.begin_scanline(TIMER_LINE);
    assert!(board.scanline_int, "asserted on the line itself");
    board.begin_scanline(TIMER_LINE + 1);
    assert!(!board.scanline_int, "released on the line after");
}

// -----------------------------------------------------------------------
// Per-scanline rendering
// -----------------------------------------------------------------------

const GREEN: (u8, u8, u8) = (0, 254, 0);

/// Walk the beam over a whole frame's scanlines so every visible row is
/// drawn. The picture only exists once the beam has passed over it, so a
/// test that pokes video state has to scan before it can look.
fn scan_frame(board: &mut AtariSystem1Board) {
    for s in 0..timing().total_scanlines as u16 {
        board.begin_scanline(s);
    }
}

fn px(board: &AtariSystem1Board, x: usize, y: usize) -> (u8, u8, u8) {
    let o = (y * VISIBLE_WIDTH + x) * 3;
    (
        board.framebuffer[o],
        board.framebuffer[o + 1],
        board.framebuffer[o + 2],
    )
}

/// A board with one gfx bank whose tile 0 has a pen-5 pixel at its top-left
/// corner, and a palette in which the motion-object index for that pen is
/// pure green.
fn board_with_one_green_sprite_pen() -> AtariSystem1Board {
    let mut board = AtariSystem1Board::new(false);
    let mut cache = GfxCache::new(1, 8, 8);
    cache.set_pixel(0, 0, 0, 5);
    board.playfield.banks.push(GfxBank { cache, bpp: 4 });
    board.playfield.mo_lookup[0] = 1 << 8;

    // Sprite pen 5, palcolor 0 → motion palette index 0x105 = pure green.
    let palette = &mut board.palette;
    palette[0x105 * 2] = 0xF0;
    palette[0x105 * 2 + 1] = 0xF0;
    board
}

/// The motion-object bank is read live by each row, so switching it partway
/// down the screen shows one bank's list above the switch and the other's
/// below.
#[test]
fn a_mid_frame_mo_bank_switch_changes_only_the_rows_below_it() {
    let mut board = board_with_one_green_sprite_pen();

    // A sprite in MO bank 0 at screen y=0, and one in MO bank 1 at y=200
    // (word[0] encodes Y; words 1-3 = 0 → colour/code 0, no prio, link 0).
    let mob = &mut board.mob;
    mob[0] = 0x1F; // bank 0 entry 0 word[0] = 0x1F00 → y 0
    mob[1] = 0x00;
    mob[0x200] = 0x06; // bank 1 entry 0 word[0] = 0x0600 → y 200
    mob[0x201] = 0x00;

    // Scan the top of the frame on bank 0, switch at scanline 120, finish.
    for s in 0..120u16 {
        board.begin_scanline(s);
    }
    board.clock = 120 * timing().cycles_per_scanline;
    board.bankselect_w(0x08); // MO bank 1
    for s in 120..timing().total_scanlines as u16 {
        board.begin_scanline(s);
    }

    assert_eq!(
        px(&board, 0, 0),
        GREEN,
        "the bank-0 sprite drew before the switch"
    );
    assert_eq!(
        px(&board, 0, 200),
        GREEN,
        "the bank-1 sprite draws after it"
    );
}

/// A write to the ACTIVE motion-object bank during active display changes
/// what the beam draws from the next line on. Road Runner depends on it.
#[test]
fn a_mid_frame_write_to_the_active_mo_bank_changes_only_the_rows_below_it() {
    let mut board = board_with_one_green_sprite_pen();

    // Entry 0 of the active bank places a sprite at y=0; entry 1 is unused
    // and entry 0 links to it, so the list is 0 -> 1 -> 1 (terminates).
    let mob = &mut board.mob;
    mob[0] = 0x1F; // word[0] = 0x1F00 → y 0
    mob[1] = 0x00;
    mob[0xC0 * 2] = 0x00; // entry 0 word[3] = link 1
    mob[0xC0 * 2 + 1] = 0x01;

    for s in 0..120u16 {
        board.begin_scanline(s);
    }
    // Mid-frame, the game rewrites entry 1 of the *active* bank to place a
    // second sprite at y=200. On hardware the beam picks it up below here.
    let mob = &mut board.mob;
    mob[2] = 0x06; // entry 1 word[0] = 0x0600 → y 200
    mob[3] = 0x00;
    for s in 120..timing().total_scanlines as u16 {
        board.begin_scanline(s);
    }

    assert_eq!(
        px(&board, 0, 0),
        GREEN,
        "the sprite that was already in the list drew at the top"
    );
    assert_eq!(
        px(&board, 0, 200),
        GREEN,
        "the sprite written mid-frame draws below the write"
    );
}

/// Both System 1 games double-buffer the display list in software: they
/// rebuild it during vblank and publish it by swapping the MO bank.
/// The picture must show the list the beam scanned out.
#[test]
fn the_picture_holds_the_list_the_beam_scanned_out_not_the_one_staged_after() {
    let mut board = board_with_one_green_sprite_pen();

    // The list the beam scans out: one sprite at y=0 in bank 0.
    let mob = &mut board.mob;
    mob[0] = 0x1F;
    mob[1] = 0x00;
    scan_frame(&mut board);

    // Now the game does what it does in vblank: tear down bank 0's entry,
    // stage a new sprite in bank 1, and publish by swapping the bank.
    let mob = &mut board.mob;
    mob[0] = 0x00;
    mob[1] = 0x00;
    mob[0x200] = 0x06;
    mob[0x201] = 0x00;
    board.bankselect_w(0x08);

    assert_eq!(
        px(&board, 0, 0),
        GREEN,
        "the sprite the beam scanned out is still what the frame shows"
    );
    assert_eq!(
        px(&board, 0, 200),
        (0, 0, 0),
        "the list staged afterwards belongs to the next frame, not this one"
    );
}

/// A blanked line has no row to draw, and drawing one would run off the end
/// of a framebuffer sized to the visible window.
#[test]
fn blanking_scanlines_have_no_row_to_draw() {
    let mut board = board_with_one_green_sprite_pen();
    let mob = &mut board.mob;
    mob[0] = 0x1F;
    mob[1] = 0x00;
    board.framebuffer.fill(0);
    for s in VBLANK_SCANLINE..timing().total_scanlines as u16 {
        board.begin_scanline(s);
    }
    assert!(
        board.framebuffer.iter().all(|&c| c == 0),
        "the blanked lines drew nothing"
    );
}

#[test]
fn playfield_tile_horizontal_flip() {
    // Bit 15 of a playfield cell word mirrors its 8×8 tile left-to-right.
    let mut board = AtariSystem1Board::new(false);

    // One real gfx bank (index 1 — banks[0] is the blank placeholder) whose
    // tile 0 has a single pen-5 pixel at its left edge (x=0, y=0).
    let mut cache = GfxCache::new(1, 8, 8);
    cache.set_pixel(0, 0, 0, 5);
    board.playfield.banks.push(GfxBank { cache, bpp: 4 });
    // Playfield lookup 0 → gfx bank 1, code 0, palcolor 0.
    board.playfield.lookup[0] = 1 << 8;

    // Playfield pen 5, palcolor 0 → index 0x100 + 0x20*8 + 5 = 0x205 = green.
    let palette = &mut board.palette;
    palette[0x205 * 2] = 0xF0;
    palette[0x205 * 2 + 1] = 0xF0;

    // Cell 0 (screen x 0..7): no flip. Cell 1 (screen x 8..15): bit 15 set.
    let pf = &mut board.playfield_ram;
    pf[2] = 0x80; // cell 1 word high byte → hflip

    scan_frame(&mut board);

    let px = |x: usize, y: usize| px(&board, x, y);
    // Unflipped cell: the pen stays at the tile's left edge.
    assert_eq!(px(0, 0), GREEN, "unflipped pen at left edge");
    assert_ne!(px(7, 0), GREEN, "unflipped right edge is blank");
    // Flipped cell: the same pen moves to the tile's right edge.
    assert_ne!(px(8, 0), GREEN, "flipped left edge is blank");
    assert_eq!(px(15, 0), GREEN, "flipped pen at right edge");
}

// ---------------------------------------------------------------------------
// Sound board
// ---------------------------------------------------------------------------

/// Run the sound board's own part of `cycles` cycles, with the bus accesses of
/// a program that answers each NMI with the command plus one.
fn run(snd: &mut AtariSystem1Sound, cycles: usize) {
    for _ in 0..cycles {
        if snd.begin_tick() == SoundStep::Held {
            continue;
        }
        if snd.check_interrupts(false, false, false).nmi {
            let System1SoundRead::Value(command) = snd.read(0x1810) else {
                panic!("the command latch is not a chip");
            };
            snd.write(0x1810, command.wrapping_add(1));
        }
        snd.end_tick();
    }
}

#[test]
fn coin_switch_pulls_1820_bit_low() {
    let mut snd = AtariSystem1Sound::new(false);
    // Coins idle high (active-low).
    assert_eq!(snd.read_1820() & 0x07, 0x07);
    // Pressing coin 1 clears bit 0; the other coin bits stay high.
    snd.set_coin(0, true);
    assert_eq!(snd.read_1820() & 0x07, 0x06);
    // Releasing restores it.
    snd.set_coin(0, false);
    assert_eq!(snd.read_1820() & 0x07, 0x07);
}

#[test]
fn held_in_reset_until_released() {
    let mut snd = AtariSystem1Sound::new(false);
    run(&mut snd, 100);
    assert_eq!(snd.clock, 0, "frozen while held in reset");
    snd.set_reset(false); // release
    run(&mut snd, 10);
    assert!(snd.clock > 0, "runs once released");
}

#[test]
fn command_response_handshake() {
    let mut snd = AtariSystem1Sound::new(false);
    snd.set_reset(false); // release the sound CPU
    run(&mut snd, 50);

    // Main sends a command: pending, NMI pulsed.
    snd.write_command(0x42);
    assert!(snd.command_pending(), "command latched (68KBUF)");

    run(&mut snd, 60);
    assert!(!snd.command_pending(), "sound CPU consumed the command");
    assert!(snd.response_pending(), "response latched for the main CPU");

    // Main reads the response (command + 1) and clears SNDBUF.
    assert_eq!(snd.read_response(), 0x43);
    assert!(!snd.response_pending());
}

#[test]
fn command_latched_during_reset_raises_no_nmi() {
    let mut snd = AtariSystem1Sound::new(false);
    assert!(snd.held_reset, "starts held in reset");
    snd.write_command(0x00);
    assert!(snd.command_pending(), "68KBUF set for the poll path");
    assert!(!snd.sound_nmi, "no NMI edge while held in reset");

    // A command latched once the CPU is running does produce an NMI edge.
    snd.set_reset(false);
    run(&mut snd, 20);
    snd.write_command(0x10);
    assert!(snd.sound_nmi, "running CPU sees the NMI edge");
}

#[test]
fn reset_assert_acknowledges_response() {
    let mut snd = AtariSystem1Sound::new(false);
    snd.response_pending = true;
    snd.mainlatch = 0x55;
    snd.set_reset(true); // assert reset
    assert!(!snd.response_pending(), "reset clears the pending response");
}

#[test]
fn atari_system1_sound_save_load_round_trip() {
    let mut snd = AtariSystem1Sound::new(false);
    snd.set_reset(false);
    run(&mut snd, 30);
    snd.sound_ram[0x100] = 0x77;
    snd.soundlatch = 0x12;
    snd.command_pending = true;

    let mut w = StateWriter::new();
    snd.save_state(&mut w);
    let bytes = w.into_vec();

    let mut snd2 = AtariSystem1Sound::new(false);
    let mut r = StateReader::new(&bytes);
    assert_eq!(snd2.load_state(&mut r), Ok(()));
    assert_eq!(snd2.sound_ram[0x100], 0x77);
    assert_eq!(snd2.soundlatch, 0x12);
    assert!(snd2.command_pending);

    let mut short = StateReader::new(&bytes[..10]);
    assert_eq!(snd2.load_state(&mut short), Err(SaveError::UnexpectedEnd));
}

#[test]
fn no_speech_window_when_speech_disabled() {
    let mut snd = AtariSystem1Sound::new(false);
    assert!(snd.speech.is_none());
    assert_eq!(snd.read(0x1000), System1SoundRead::Value(0xFF));
    assert_eq!(snd.read(0x100F), System1SoundRead::Value(0xFF));
}

#[test]
fn speech_port_b_reports_tms_ready() {
    let mut snd = AtariSystem1Sound::new(true);
    assert!(snd.speech.is_some());
    assert_eq!(snd.read(0x1000), System1SoundRead::Speech(0));
    let SpeechRead::PortB { pins } = Speech::read(0, true, false) else {
        panic!("register 0 is port B");
    };
    assert_eq!(pins & (1 << 2), 0, "TMS /READY low → ready");
    assert_eq!(pins & (1 << 3), 1 << 3, "TMS /INT high → idle");
    assert_eq!(Speech::read(0, false, true), SpeechRead::PortB { pins: 4 });
}

#[test]
fn speech_writes_reach_the_interface_chip() {
    let mut snd = AtariSystem1Sound::new(true);
    assert_eq!(
        snd.write(0x1003, 0xFF),
        System1SoundWrite::Speech {
            register: 3,
            data: 0xFF
        }
    );
    assert!(Speech::write_reaches_chip(0x1));
    assert!(Speech::write_reaches_chip(0xF));
    assert!(!Speech::write_reaches_chip(0x0));
    assert_eq!(Speech::read(1, true, false), SpeechRead::PortA { register: 1 });
    assert_eq!(
        Speech::read(0xB, true, false),
        SpeechRead::Register { register: 11 }
    );
}

#[test]
fn speech_clocking_round_trips_through_save_load() {
    let mut sp = Speech::new();
    sp.port_b_driven(0x10);
    sp.tick(SOUND_CLOCK_HZ);
    let mut w = StateWriter::new();
    sp.save_state(&mut w);
    let bytes = w.into_vec();
    let mut other = Speech::new();
    let mut r = StateReader::new(&bytes);
    assert_eq!(other.load_state(&mut r), Ok(()));
    assert_eq!(other, sp);
}

#[test]
fn tms_clock_select_matches_the_divider() {
    assert_eq!(tms_clock_for_pb4(false), 650_826); // ÷11 nominal
    assert_eq!(tms_clock_for_pb4(true), 795_454); // ÷9
}

#[test]
fn speech_port_b_bit4_retunes_the_tms_clock() {
    let mut sp = Speech::new();
    assert_eq!(sp.tms_clock_hz, 650_826, "powers up at the ÷11 clock");
    assert_eq!(sp.port_b_driven(0x10), Some(795_454)); // bit 4 high → ÷9 clock
    assert_eq!(sp.tms_clock_hz, 795_454);
    assert_eq!(sp.port_b_driven(0x00), Some(650_826)); // bit 4 low → back to nominal
    assert_eq!(sp.tms_clock_hz, 650_826);
    assert_eq!(sp.port_b_driven(0x00), None);
}

#[test]
fn speech_clocks_come_at_their_rate() {
    let mut sp = Speech::new();
    let mut clocks = 0;
    for _ in 0..SOUND_CLOCK_HZ {
        clocks += sp.tick(SOUND_CLOCK_HZ);
    }
    assert_eq!(clocks, 650_826);
}

// ---------------------------------------------------------------------------
// Main board
// ---------------------------------------------------------------------------

#[test]
fn intensity_scales_each_channel() {
    assert_eq!(irgb4444_to_rgb(0x0FFF), (0, 0, 0));
    assert_eq!(irgb4444_to_rgb(0xF0F0), GREEN);
    let (r, g, b) = irgb4444_to_rgb(0xFFFF);
    assert_eq!((r, g, b), (254, 254, 254));
}

#[test]
fn the_map_names_each_region() {
    assert_eq!(build_map(0x000000).map(|r| r.0), Some(Region::Rom));
    assert_eq!(build_map(0xA02000).map(|r| r.0), Some(Region::Mob));
    assert_eq!(build_map(0xB00000).map(|r| r.0), Some(Region::Palette));
    assert!(build_map(0xFFFFFE).is_none());
}

#[test]
fn video_ram_reads_back_what_was_written() {
    let mut b = AtariSystem1Board::new(false);
    for addr in [0x400000, 0xA00000, 0xA02000, 0xA03000, 0xB00000] {
        b.bus_write(addr, 0x1234);
        assert_eq!(b.bus_read(addr, 0), 0x1234, "{addr:#x}");
    }
}

#[test]
fn vblank_interrupts_at_level_four() {
    let mut b = AtariSystem1Board::new(false);
    b.begin_scanline(239);
    assert_eq!(b.interrupt_level(), 0);
    b.begin_scanline(VBLANK_SCANLINE);
    assert_eq!(b.interrupt_level(), 4);
    b.set_int2(true);
    assert_eq!(b.interrupt_level(), 4);
}

#[test]
fn board_snapshots_round_trip() {
    let mut a = AtariSystem1Board::new(false);
    a.bus_write(0x400000, 0xBEEF);
    a.clock = 77;
    let s = a.save_state();
    let mut b = AtariSystem1Board::new(false);
    assert_eq!(b.load_state(&s), Ok(()));
    assert_eq!(b.bus_read(0x400000, 0), 0xBEEF);
    assert_eq!(b.clock(), 77);
    let mut wrong = a.save_state();
    wrong.ram.pop();
    assert_eq!(b.load_state(&wrong), Err(SaveError::SizeMismatch));
}

#[test]
fn the_main_watchdog_expires_on_the_eighth_frame() {
    let mut b = AtariSystem1Board::new(false);
    for frame in 1..=8 {
        assert_eq!(b.advance_watchdog(), frame == 8);
    }
}
