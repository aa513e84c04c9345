use phosphor_machines::btime::{
    AyWrite, BtimeBoard, BtimeConfig, CROP_LO, NUM_BG_TILES, NUM_CHARS, NUM_SPRITES, VISIBLE_DIM,
    clock_tree, deco_cpu7_decrypt, display_bytes, mix_psgs, timing,
};
use phosphor_machines::machine::{BusMaster, ClockDomainName, Orientation};
use phosphor_machines::memory::SaveError;

fn board() -> BtimeBoard {
    BtimeBoard::new(BtimeConfig { name: "btime-test" })
}

#[test]
fn timing_frame_rate_is_btime() {
    // ~57.44 Hz from 6 MHz / (384 * 272).
    let hz = timing().cpu_clock_hz as f64 / timing().cycles_per_frame() as f64;
    assert!((hz - 57.44).abs() < 0.5, "frame rate {hz} not ~57.44");
    assert_eq!(timing().cycles_per_frame(), 96 * 272);
}

#[test]
fn ram_read_write_roundtrip() {
    let mut b = board();
    b.bus_write(BusMaster::Cpu(0), 0x0042, 0xAB);
    assert_eq!(b.bus_read(BusMaster::Cpu(0), 0x0042), 0xAB);
}

#[test]
fn video_and_color_ram_roundtrip() {
    let mut b = board();
    b.bus_write(BusMaster::Cpu(0), 0x1005, 0x12);
    b.bus_write(BusMaster::Cpu(0), 0x1405, 0x34);
    assert_eq!(b.bus_read(BusMaster::Cpu(0), 0x1005), 0x12);
    assert_eq!(b.bus_read(BusMaster::Cpu(0), 0x1405), 0x34);
}

#[test]
fn any_write_arms_deco_decryption() {
    let mut b = board();
    assert!(!b.main_had_written);
    b.bus_write(BusMaster::Cpu(0), 0x0000, 0x00);
    assert!(b.main_had_written);
}

#[test]
fn coin_irq_reported_through_interrupts() {
    let mut b = board();
    assert!(!b.bus_check_interrupts(BusMaster::Cpu(0)).irq);
    b.main_irq = true;
    assert!(b.bus_check_interrupts(BusMaster::Cpu(0)).irq);
}

#[test]
fn irq_vector_fetch_acknowledges_coin_irq() {
    let mut b = board();
    b.main_irq = true;
    // A normal read does not clear it.
    b.bus_read(BusMaster::Cpu(0), 0x0000);
    assert!(b.main_irq);
    // Vectoring through 0xFFFE (IRQ/BRK vector) acknowledges it.
    b.bus_read(BusMaster::Cpu(0), 0xFFFE);
    assert!(!b.main_irq);
}

// --- Sound subsystem ---

#[test]
fn sound_ram_reads_write_and_mirror() {
    let mut b = board();
    b.sound_write(0x0100, 0xAB);
    assert_eq!(b.sound_read(0x0100), 0xAB);
    // RAM is mirrored across 0x0000-0x1FFF (mirror mask 0x1C00).
    assert_eq!(b.sound_read(0x0100 + 0x1C00), 0xAB);
}

#[test]
fn sound_latch_raises_and_reading_acks_the_irq() {
    let mut b = board();
    assert!(!b.bus_check_interrupts(BusMaster::Cpu(1)).irq);

    // A main-CPU write to 0x4003 latches the command and raises the sound IRQ.
    b.bus_write(BusMaster::Cpu(0), 0x4003, 0x42);
    assert!(b.sound_irq);
    assert!(b.bus_check_interrupts(BusMaster::Cpu(1)).irq);

    // The sound CPU reads the latch at 0xA000: returns the value and acks.
    assert_eq!(b.sound_read(0xA000), 0x42);
    assert!(!b.sound_irq);
    assert!(!b.bus_check_interrupts(BusMaster::Cpu(1)).irq);
}

#[test]
fn sound_nmi_is_enable_anded_with_scanline_bit3() {
    let mut b = board();
    assert!(!b.sound_nmi_asserted());

    b.sound_write(0xC000, 0x01); // audio NMI enable
    b.clock = 0; // scanline 0 -> bit3 = 0
    assert!(!b.sound_nmi_asserted());
    b.clock = 8 * 96; // scanline 8 -> bit3 = 1
    assert!(b.sound_nmi_asserted());
    assert!(b.bus_check_interrupts(BusMaster::Cpu(1)).nmi);

    b.sound_write(0xC000, 0x00); // disable
    assert!(!b.sound_nmi_asserted());
}

#[test]
fn ay_register_writes_route_to_their_chip() {
    let mut b = board();
    let cases = [
        (0x4000, 0, true),
        (0x2000, 0, false),
        (0x8000, 1, true),
        (0x6000, 1, false),
    ];
    for (addr, chip, address) in cases {
        let w = b.sound_write(addr, 0x55).unwrap();
        assert_eq!((w.chip, w.address, w.data), (chip, address, 0x55));
        let via_bus: Option<AyWrite> = b.bus_write(BusMaster::Cpu(1), addr, 0x55);
        assert!(via_bus.is_some());
    }
    assert!(b.sound_write(0xC000, 1).is_none());
    assert!(b.sound_write(0x0000, 1).is_none());
}

// --- DIP defaults + live VBLANK bit ---

#[test]
fn dsw_power_on_defaults() {
    let b = board();
    assert_eq!(b.dsw1, 0x1F); // Coin A/B 1C1C, Leave-Off set, Upright
    assert_eq!(b.dsw2, 0x0B); // 3 lives, 20000 bonus, 4 enemies, pepper on
}

#[test]
fn vblank_bit_injected_on_dsw1_read() {
    let mut b = board();
    // Visible scanline 100 -> VBLANK bit clear; DIP bits still read.
    b.clock = 100 * 96;
    let v = b.bus_read(BusMaster::Cpu(0), 0x4003);
    assert_eq!(v & 0x80, 0, "not in vblank");
    assert_eq!(v & 0x7F, 0x1F, "dsw1 bits present");
    // Scanline 0 and 260 are outside the visible [8,248) window -> bit set.
    b.clock = 0;
    assert_ne!(b.bus_read(BusMaster::Cpu(0), 0x4003) & 0x80, 0);
    b.clock = 260 * 96;
    assert_ne!(b.bus_read(BusMaster::Cpu(0), 0x4003) & 0x80, 0);
}

// --- X/Y-swap sprite-RAM mirror ---

#[test]
fn xy_swap_is_an_involution() {
    for off in 0..0x400usize {
        assert_eq!(BtimeBoard::swap(BtimeBoard::swap(off)), off);
    }
}

#[test]
fn mirror_videoram_swaps_x_and_y() {
    let mut b = board();
    // A direct write to video RAM offset 5 is reachable through the 0x1800
    // mirror at the swapped address.
    b.bus_write(BusMaster::Cpu(0), 0x1000 + 5, 0x7E);
    let mirror = 0x1800 + BtimeBoard::swap(5) as u16;
    assert_eq!(b.bus_read(BusMaster::Cpu(0), mirror), 0x7E);

    // A write through the mirror lands at the swapped video-RAM offset.
    b.bus_write(BusMaster::Cpu(0), 0x1801, 0x3C); // off 1 -> videoram[swap(1)=32]
    assert_eq!(b.bus_read(BusMaster::Cpu(0), 0x1000 + 32), 0x3C);
}

#[test]
fn mirror_colorram_swaps_x_and_y() {
    let mut b = board();
    b.bus_write(BusMaster::Cpu(0), 0x1400 + 5, 0x11);
    let mirror = 0x1C00 + BtimeBoard::swap(5) as u16;
    assert_eq!(b.bus_read(BusMaster::Cpu(0), mirror), 0x11);
}

// --- DECO CPU-7 opcode decryption ---
//
// A fresh board has `main_is_sync` set (a reset 6502 sits in Fetch), so every
// test `bus_read` behaves as an opcode fetch.

#[test]
fn deco_decrypt_pure_fn_known_vectors() {
    // Permutation: out7<-in6, out6<-in5, out5<-in3, out4<-in4,
    // out3<-in2, out2<-in7, out1<-in1, out0<-in0.
    assert_eq!(deco_cpu7_decrypt(0x84), 0x0C); // in7|in2 -> out2|out3
    assert_eq!(deco_cpu7_decrypt(0x00), 0x00);
    assert_eq!(deco_cpu7_decrypt(0xFF), 0xFF);
    assert_eq!(deco_cpu7_decrypt(0x01), 0x01); // bit0 fixed
    assert_eq!(deco_cpu7_decrypt(0x02), 0x02); // bit1 fixed
    assert_eq!(deco_cpu7_decrypt(0x10), 0x10); // bit4 fixed
    // The moving bits form one 5-cycle (2->3->5->6->7->2); applying the
    // swap five times is the identity.
    let mut v = 0xA5;
    for _ in 0..5 {
        v = deco_cpu7_decrypt(v);
    }
    assert_eq!(v, 0xA5);
}

#[test]
fn deco_decrypts_matching_address_fetch_after_write() {
    let mut b = board();
    let mut rom = vec![0u8; 0x5000];
    rom[0x1104] = 0x84; // -> 0xC104, and 0xC104 & 0x0104 == 0x0104
    b.load_main_rom(&rom);

    b.main_had_written = true; // as a prior write would set it
    let got = b.bus_read(BusMaster::Cpu(0), 0xC104);
    assert_eq!(got, 0x0C, "fetched byte deobfuscated");
    assert!(!b.main_had_written, "sync fetch consumes the flag");
}

#[test]
fn deco_leaves_nonmatching_address_raw_but_still_clears_flag() {
    let mut b = board();
    let mut rom = vec![0u8; 0x5000];
    rom[0x1000] = 0x84; // -> 0xC000, and 0xC000 & 0x0104 == 0
    b.load_main_rom(&rom);

    b.main_had_written = true;
    assert_eq!(b.bus_read(BusMaster::Cpu(0), 0xC000), 0x84, "raw byte");
    assert!(!b.main_had_written, "flag clears on any sync fetch");
}

#[test]
fn deco_no_decrypt_without_a_prior_write() {
    let mut b = board();
    let mut rom = vec![0u8; 0x5000];
    rom[0x1104] = 0x84;
    b.load_main_rom(&rom);
    // main_had_written stays false: a matching address is left untouched.
    assert_eq!(b.bus_read(BusMaster::Cpu(0), 0xC104), 0x84);
}

// --- Palette (BGR_233_inverted) ---

#[test]
fn palette_zero_ram_is_white_after_invert() {
    // palette_ram = 0x00 -> inverted 0xFF -> full R/G/B.
    let b = board();
    assert_eq!(b.palette_rgb[0], (0xFF, 0xFF, 0xFF));
}

#[test]
fn palette_write_decodes_bgr233_inverted() {
    let mut b = board();
    // 0xFF -> inverted 0x00 -> black.
    b.bus_write(BusMaster::Cpu(0), 0x0C00, 0xFF);
    assert_eq!(b.palette_rgb[0], (0, 0, 0));

    // 0xF8 -> inverted 0x07 -> R=7 only -> pure red.
    b.bus_write(BusMaster::Cpu(0), 0x0C01, 0xF8);
    assert_eq!(b.palette_rgb[1], (0xFF, 0, 0));

    // 0xC7 -> inverted 0x38 -> G=7 only -> pure green (bits 3-5).
    b.bus_write(BusMaster::Cpu(0), 0x0C02, 0xC7);
    assert_eq!(b.palette_rgb[2], (0, 0xFF, 0));

    // 0x3F -> inverted 0xC0 -> B=3 only -> pure blue (bits 6-7).
    b.bus_write(BusMaster::Cpu(0), 0x0C03, 0x3F);
    assert_eq!(b.palette_rgb[3], (0, 0, 0xFF));
}

// --- GFX decode ---

#[test]
fn gfx_cache_dimensions() {
    let b = board();
    assert_eq!((b.chars().count(), b.chars().width()), (NUM_CHARS, 8));
    assert_eq!(
        (b.sprites().count(), b.sprites().width()),
        (NUM_SPRITES, 16)
    );
    assert_eq!(
        (b.bg_tiles().count(), b.bg_tiles().height()),
        (NUM_BG_TILES, 16)
    );
    assert_eq!(b.bg_map().len(), 0x0800);
}

#[test]
fn char_decode_combines_three_planes() {
    let mut b = board();
    // gfx1 region: plane thirds at 0 / 0x2000 / 0x4000. Set pixel (0,0) of
    // char 0 in planes 0 and 1 (bit 0 and bit 1), leaving plane 2 clear.
    let mut gfx1 = vec![0u8; 0x6000];
    gfx1[0x0000] = 0x80; // plane 0 (LSB), row 0, leftmost pixel
    gfx1[0x2000] = 0x80; // plane 1, same pixel
    gfx1[0x4000] = 0x00; // plane 2 clear
    b.load_gfx1(&gfx1);
    assert_eq!(b.chars().pixel(0, 0, 0), 0b011);
    assert_eq!(b.chars().pixel(0, 1, 0), 0); // neighbor untouched
}

#[test]
fn sprite_decode_uses_split_row_halves() {
    let mut b = board();
    // Sprite x offsets are [128..135, 0..7]: column 0 comes from bit offset
    // 128 (byte 16), column 8 from bit offset 0 (byte 0).
    let mut gfx1 = vec![0u8; 0x6000];
    gfx1[16] = 0x80; // plane 0, sprite 0, row 0, column 0 (x offset 128)
    gfx1[0] = 0x80; // plane 0, sprite 0, row 0, column 8 (x offset 0)
    b.load_gfx1(&gfx1);
    assert_eq!(b.sprites().pixel(0, 0, 0), 0b001);
    assert_eq!(b.sprites().pixel(0, 8, 0), 0b001);
    assert_eq!(b.sprites().pixel(0, 1, 0), 0);
}

#[test]
fn bg_tile_decode_uses_smaller_plane_thirds() {
    let mut b = board();
    // gfx2 region (0x1800): plane thirds at 0 / 0x0800 / 0x1000.
    let mut gfx2 = vec![0u8; 0x1800];
    gfx2[0x0000] = 0x80; // plane 0
    gfx2[0x1000] = 0x80; // plane 2 (MSB)
    b.load_gfx2(&gfx2);
    assert_eq!(b.bg_tiles().pixel(0, 8, 0), 0b101); // x offset 0 -> column 8
}

#[test]
fn palette_survives_save_load() {
    let mut b = board();
    b.bus_write(BusMaster::Cpu(0), 0x0C05, 0xF8); // red
    let saved = b.save_state();

    let mut b2 = board();
    assert_eq!(b2.load_state(&saved), Ok(()));
    assert_eq!(b2.palette_ram[5], 0xF8);
    assert_eq!(b2.palette_rgb[5], (0xFF, 0, 0));
}

// --- Renderer (layers + ROT270) ---
//
// These target the square logical image (240×240); the display-aspect
// stretch is covered separately below.
//
// The board draws one row per visible scanline, so a test that wants a whole
// picture has to walk the beam over it. `scan_frame` is that walk, and it is
// deliberately the only way these tests get a frame.

/// The board's part of one single-stepped cycle.
fn tick(b: &mut BtimeBoard) {
    b.begin_tick(true);
    b.end_cycle();
}

/// The board's part of one scanline run whole.
fn run_scanline(b: &mut BtimeBoard) {
    b.begin_scanline(b.current_scanline());
    for _ in 0..timing().cycles_per_scanline {
        b.begin_main_cycle(true);
        b.end_cycle();
    }
}

fn scan_frame(b: &mut BtimeBoard) {
    for s in CROP_LO as u64..(CROP_LO + VISIBLE_DIM) as u64 {
        b.begin_scanline(s);
    }
}

fn pixel(buffer: &[u8], row: usize, col: usize) -> (u8, u8, u8) {
    let i = (row * VISIBLE_DIM + col) * 3;
    (buffer[i], buffer[i + 1], buffer[i + 2])
}

#[test]
fn render_default_frame_is_backdrop_white() {
    // No gfx loaded: every char is code 0 / all-pen-0, drawn opaque (bg
    // disabled) -> palette entry 0, which decodes to white (ram 0 inverted).
    let mut b = board();
    scan_frame(&mut b);
    assert!(
        b.framebuffer.iter().all(|&c| c == 0xFF),
        "frame should be all white"
    );
}

#[test]
fn render_char_lands_at_native_position() {
    let mut b = board();
    // char 1 = all pen 1 (plane 0 set for its 8 bytes at region offset 8).
    let mut gfx1 = vec![0u8; 0x6000];
    for byte in gfx1.iter_mut().skip(8).take(8) {
        *byte = 0xFF;
    }
    b.load_gfx1(&gfx1);
    // palette entry 1 -> red.
    b.bus_write(BusMaster::Cpu(0), 0x0C01, 0xF8);

    // Place char 1 at video RAM offset 495 (char cell x=16, y=15).
    b.videoram[495] = 1;

    scan_frame(&mut b);

    // The rows emit native (unrotated) pixels: the char occupies native
    // cols 128..135 × rows 120..127, i.e. crop rows 112..119 × cols
    // 120..127 after subtracting CROP_LO=8. ROT270 is applied centrally.
    let buffer = &b.framebuffer;
    assert_eq!(pixel(buffer, 115, 123), (0xFF, 0, 0), "char center is red");
    assert_eq!(pixel(buffer, 10, 10), (0xFF, 0xFF, 0xFF), "elsewhere white");
}

#[test]
fn render_background_uses_palette_base_8() {
    let mut b = board();
    // Every bg-tile pixel gets plane-0 bit set -> pen 1 -> palette index 9.
    let mut gfx2 = vec![0u8; 0x1800];
    for byte in gfx2.iter_mut().take(0x0800) {
        *byte = 0xFF;
    }
    b.load_gfx2(&gfx2);
    // Enable the background layer; palette entry 9 -> blue. Rows are drawn
    // as the beam passes, so the register has to be set before the scan.
    b.bnj_scroll0 = 0x10;
    b.bus_write(BusMaster::Cpu(0), 0x0C09, 0x3F);

    scan_frame(&mut b);

    // Chars are transparent over the backdrop, so the blue bg shows through.
    let has_blue = b.framebuffer.chunks_exact(3).any(|c| c == [0, 0, 0xFF]);
    assert!(has_blue, "background (palette base 8) should be visible");
}

// -----------------------------------------------------------------------
// Mid-frame bnj_scroll0
// -----------------------------------------------------------------------

/// A board whose background tiles are all pen 1, so palette entry 9 marks
/// any row the background layer reached.
fn board_with_visible_background() -> BtimeBoard {
    let mut b = board();
    let mut gfx2 = vec![0u8; 0x1800];
    for byte in gfx2.iter_mut().take(0x0800) {
        *byte = 0xFF;
    }
    b.load_gfx2(&gfx2);
    b.bus_write(BusMaster::Cpu(0), 0x0C09, 0x3F); // entry 9 -> blue
    b
}

fn row_has_blue(buffer: &[u8], y: usize) -> bool {
    let row = &buffer[y * VISIBLE_DIM * 3..(y + 1) * VISIBLE_DIM * 3];
    row.chunks_exact(3).any(|c| c == [0, 0, 0xFF])
}

/// Burger Time enables the background partway
/// down the screen (measured at scanline 91 on this ROM set), and the rows
/// above the write must not get it.
#[test]
fn a_mid_frame_background_enable_splits_the_screen() {
    const SPLIT_SCANLINE: u64 = 91;
    let split_row = (SPLIT_SCANLINE - CROP_LO as u64) as usize;

    let mut b = board_with_visible_background();
    b.bnj_scroll0 = 0x00;
    for s in CROP_LO as u64..SPLIT_SCANLINE {
        b.begin_scanline(s);
    }
    b.bnj_scroll0 = 0x13; // what the game actually writes
    for s in SPLIT_SCANLINE..(CROP_LO + VISIBLE_DIM) as u64 {
        b.begin_scanline(s);
    }

    let buffer = &b.framebuffer;
    assert!(!row_has_blue(buffer, 0), "row 0 is above the write");
    assert!(
        !row_has_blue(buffer, split_row - 1),
        "the last row above the write has no background"
    );
    assert!(
        row_has_blue(buffer, split_row),
        "the first row below the write has the background"
    );
    assert!(
        row_has_blue(buffer, VISIBLE_DIM - 1),
        "the bottom row is below the write"
    );
}

/// Video RAM is read as the beam passes it, so
/// rewriting a char partway down the screen changes only the rows below the
/// write.
///
/// The split is at native row 100, which is *inside* char row 12 (rows
/// 96..103). A whole-frame render draws a char row from one snapshot and
/// cannot produce this picture at all.
#[test]
fn a_mid_frame_vram_write_changes_only_the_rows_below_it() {
    const SPLIT_SCANLINE: u64 = 100;
    let split_row = (SPLIT_SCANLINE - CROP_LO as u64) as usize;

    let mut b = board();
    // char 1 = solid pen 1, char 2 = solid pen 2.
    let mut gfx1 = vec![0u8; 0x6000];
    for byte in gfx1.iter_mut().skip(8).take(8) {
        *byte = 0xFF; // char 1, plane 0
    }
    for byte in gfx1.iter_mut().skip(0x2010).take(8) {
        *byte = 0xFF; // char 2, plane 1
    }
    b.load_gfx1(&gfx1);
    b.bus_write(BusMaster::Cpu(0), 0x0C01, 0xF8); // entry 1 -> red
    b.bus_write(BusMaster::Cpu(0), 0x0C02, 0x3F); // entry 2 -> blue

    b.videoram.fill(1);
    for s in CROP_LO as u64..SPLIT_SCANLINE {
        b.begin_scanline(s);
    }
    b.videoram.fill(2);
    for s in SPLIT_SCANLINE..(CROP_LO + VISIBLE_DIM) as u64 {
        b.begin_scanline(s);
    }

    let red = (0xFF, 0, 0);
    let blue = (0, 0, 0xFF);
    let buffer = &b.framebuffer;
    assert_eq!(
        pixel(buffer, 0, 100),
        red,
        "row 0 was drawn before the write"
    );
    assert_eq!(
        pixel(buffer, split_row - 1, 100),
        red,
        "the last row above the write keeps the old char, mid-char-row"
    );
    assert_eq!(
        pixel(buffer, split_row, 100),
        blue,
        "the first row below the write takes the new char"
    );
    assert_eq!(
        pixel(buffer, VISIBLE_DIM - 1, 100),
        blue,
        "the bottom row is below the write"
    );
}

/// The cycle-by-cycle path and the scanline path both draw as the beam passes.
#[test]
fn the_frame_loop_draws_rows_at_scanline_boundaries() {
    let mut b = board_with_visible_background();
    b.framebuffer.fill(0);

    // Wind through vblank to the last line before the visible window. The
    // debugger's per-cycle path is the one being exercised here.
    b.bnj_scroll0 = 0x13;
    for _ in 0..CROP_LO as u64 * timing().cycles_per_scanline {
        tick(&mut b);
    }
    assert!(
        b.framebuffer.iter().all(|&c| c == 0),
        "tick() drew nothing during vblank"
    );

    // One more scanline through tick(), which crosses the first visible
    // boundary and must draw row 0 and only row 0.
    for _ in 0..timing().cycles_per_scanline {
        tick(&mut b);
    }
    assert!(row_has_blue(&b.framebuffer, 0), "tick() draws row 0");
    assert!(
        !row_has_blue(&b.framebuffer, 1),
        "and only row 0: nothing has drawn row 1 yet"
    );

    // And the hoisted loop the frame actually runs through draws too.
    run_scanline(&mut b);
    assert!(
        row_has_blue(&b.framebuffer, 1),
        "run_scanlines() draws row 1"
    );
}

/// Vblank has no row to draw, and drawing one would run off the end of a
/// framebuffer sized to the visible window.
#[test]
fn vblank_scanlines_have_no_row_to_draw() {
    let mut b = board_with_visible_background();
    b.bnj_scroll0 = 0x13;
    b.framebuffer.fill(0);
    for s in 0..CROP_LO as u64 {
        b.begin_scanline(s);
    }
    for s in (CROP_LO + VISIBLE_DIM) as u64..timing().total_scanlines {
        b.begin_scanline(s);
    }
    assert!(b.framebuffer.iter().all(|&c| c == 0), "vblank drew nothing");
}

/// A load restores `bnj_scroll0` and leaves the framebuffer alone, so the
/// picture has to come back from the rows the *next* frame draws.
#[test]
fn a_load_restores_the_register_the_next_frames_rows_read() {
    let mut saved = board_with_visible_background();
    saved.bnj_scroll0 = 0x13; // background on
    let snapshot = saved.save_state();

    let mut b = board_with_visible_background();
    b.bnj_scroll0 = 0x00; // background off, and a picture drawn without it
    scan_frame(&mut b);
    assert!(
        !row_has_blue(&b.framebuffer, 0),
        "no background before load"
    );

    assert_eq!(b.load_state(&snapshot), Ok(()));
    scan_frame(&mut b);

    assert!(
        row_has_blue(&b.framebuffer, 0),
        "the frame after a load draws from the restored register"
    );
}

#[test]
fn render_frame_is_native_square_with_3x4_aspect_hint() {
    let mut b = board();
    // Some vertical variation: a red char at one cell.
    let mut gfx1 = vec![0u8; 0x6000];
    for byte in gfx1.iter_mut().skip(8).take(8) {
        *byte = 0xFF; // char 1 = pen 1
    }
    b.load_gfx1(&gfx1);
    b.bus_write(BusMaster::Cpu(0), 0x0C01, 0xF8); // entry 1 -> red
    b.videoram[300] = 1;

    // Native raster is the square 240×240; the ROT270 rotation and 3:4
    // portrait presentation are declared and applied centrally, not baked.
    let (w, h) = timing().display_size();
    assert_eq!((w, h), (240, 240), "native square raster");
    assert_eq!(
        b.orientation(),
        Orientation::Rot270
    );
    assert_eq!(timing().display_aspect(), Some((3, 4)), "3:4 portrait hint");

    scan_frame(&mut b);
    let vis = b.framebuffer.clone();
    let mut disp = vec![0u8; (w * h * 3) as usize];
    b.render_frame(&mut disp);

    // render_frame emits the visible square verbatim, no vertical stretch.
    assert_eq!(disp, vis, "framebuffer is the native 240×240 visible image");
}

#[test]
fn flipped_characters_keep_their_rows() {
    let mut b = board();
    // Char 1: only its top line is lit.
    let mut gfx1 = vec![0u8; 0x6000];
    gfx1[8] = 0xFF;
    b.load_gfx1(&gfx1);
    b.bus_write(BusMaster::Cpu(0), 0x0C01, 0xF8); // entry 1 -> red
    b.videoram.fill(1);
    b.flip_screen = true;
    scan_frame(&mut b);
    // Turned over, the lit line is the last of each cell.
    let red = (0xFF, 0, 0);
    let white = (0xFF, 0xFF, 0xFF);
    for row in 0..VISIBLE_DIM {
        let native = row + CROP_LO;
        let expect = if native % 8 == 7 { red } else { white };
        assert_eq!(pixel(&b.framebuffer, row, 100), expect, "row {row}");
    }
}

#[test]
fn a_snapshot_with_the_wrong_size_is_refused() {
    let mut b = board();
    b.ram[3] = 9;
    let mut s = b.save_state();
    s.ram.push(0);
    let mut other = board();
    assert_eq!(other.load_state(&s), Err(SaveError::SizeMismatch));
    assert_eq!(other.ram[3], 0);
}

#[test]
fn psg_samples_are_summed_and_saturated() {
    let mut first = vec![100i16, 32_000, -32_000, 5];
    mix_psgs(&mut first, &vec![23, 1_000, -1_000]);
    assert_eq!(first, vec![123, 32_767, -32_768, 5]);
}

#[test]
fn clocks_divide_the_crystal() {
    let t = clock_tree();
    assert_eq!(t.find(ClockDomainName::Cpu), Some((1, 8)));
    assert_eq!(t.find(ClockDomainName::SoundCpu), Some((1, 24)));
    assert_eq!(t.find(ClockDomainName::Pokey), None);
    assert_eq!(display_bytes(), 172_800);
    assert_eq!(BtimeBoard::instruction_boundaries(true, true), 3);
    assert_eq!(BtimeBoard::instruction_boundaries(false, true), 2);
}

#[test]
fn reset_keeps_memory_and_clears_latches() {
    let mut b = board();
    b.bus_write(BusMaster::Cpu(0), 0x0001, 0x77);
    b.bus_write(BusMaster::Cpu(0), 0x4003, 0x42);
    b.clock = 500;
    b.main_irq = true;
    b.reset();
    assert_eq!(b.ram[1], 0x77);
    assert!(!b.sound_irq && !b.main_irq && !b.main_had_written);
    assert_eq!(b.clock, 0);
    assert_eq!(b.machine_id(), "btime-test");
    assert_eq!(b.gfx_sheets().len(), 3);
    assert_eq!(b.gfx_sheets()[1].name, "bg");
    assert_eq!(b.gfx_sheets()[1].cache.width(), 16);
}
