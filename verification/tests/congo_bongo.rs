use phosphor_machines::congo_bongo::{
    CongoBongoBoard, CongoBongoSystem, CongoDac, CongoRead, CongoRoms, CongoWrite, DSW2_DEFAULT,
    DSW3_DEFAULT, INPUT_COIN1, INPUT_P1_BUTTON, INPUT_P1_RIGHT, INPUT_P1_START, INPUT_P1_UP,
    INPUT_P2_LEFT, INPUT_P2_START, NATIVE_WIDTH, congo_gfx_palette, congo_main_rom,
    congo_palette_rgb, mix_psgs, timing,
};
use phosphor_machines::congo_sound::{CongoSound, NOISE_SEED, next_noise};
use phosphor_machines::dip::DipSwitchBank;
use phosphor_machines::gfx::{GfxCache, decode_gfx};
use phosphor_machines::gfx_registry;
use phosphor_machines::input::{InputEvent, InputId};
use phosphor_machines::machine::BusMaster;
use phosphor_machines::memory::SaveError;
use phosphor_machines::state::{StateReader, StateWriter};

/// Output levels of one ladder of resistors against a 470 ohm pulldown.
fn ladder(resistors: &[f64]) -> Vec<u8> {
    let volts: Vec<f64> = resistors.iter().map(|r| 470.0 / (470.0 + r)).collect();
    let total: f64 = volts.iter().sum();
    (0..1usize << resistors.len())
        .map(|code| {
            let level: f64 = (0..resistors.len())
                .filter(|n| code >> n & 1 == 1)
                .map(|n| 255.0 * volts[n] / total)
                .sum();
            level.round() as u8
        })
        .collect()
}

fn dac() -> CongoDac {
    CongoDac {
        rg: ladder(&[1000.0, 470.0, 220.0]),
        b: ladder(&[470.0, 220.0]),
    }
}

fn main_read(sys: &CongoBongoSystem, addr: u16) -> u8 {
    match sys.read(BusMaster::Cpu(0), addr) {
        CongoRead::Value(v) => v,
        other => panic!("a chip answers the main CPU: {other:?}"),
    }
}

fn assert_dip_banks_valid(banks: &[DipSwitchBank], values: &[u8]) {
    assert_eq!(banks.len(), values.len());
    for (bank, value) in banks.iter().zip(values) {
        let mut seen = 0u8;
        for o in &bank.options {
            assert_ne!(o.mask, 0);
            assert_eq!(seen & o.mask, 0, "{} shares a switch", o.name);
            seen |= o.mask;
            for (i, c) in o.choices.iter().enumerate() {
                assert_eq!(c.value & !o.mask, 0, "{} {}", o.name, c.label);
                for d in &o.choices[i + 1..] {
                    assert_ne!(c.value, d.value, "{}", o.name);
                }
            }
            assert!(o.choices.iter().any(|c| c.value == value & o.mask));
        }
    }
}

#[test]
fn gfx_decode_sizes_and_planes() {
    let mut board = CongoBongoBoard::new();
    // Plant a known bit pattern and confirm the planar decode reads it.
    // tx plane 0 (LSB) lives in the first half, plane 1 (MSB) at +0x800.
    board.tx_rom[0] = 0b1000_0000; // tile 0, row 0, col 0 → plane-0 bit set
    board.tx_rom[0x800] = 0b0100_0000; // tile 0, row 0, col 1 → plane-1 bit set
    board.decode_gfx_roms();

    assert_eq!(board.tx_cache().count(), 256);
    assert_eq!(
        (board.tx_cache().width(), board.tx_cache().height()),
        (8, 8)
    );
    assert_eq!(board.bg_cache().count(), 1024);
    assert_eq!(board.sprite_cache().count(), 128);
    assert_eq!(
        (board.sprite_cache().width(), board.sprite_cache().height()),
        (32, 32)
    );

    // Pixel (0,0) gets only plane 0 → value 1; pixel (1,0) only plane 1 → 2.
    assert_eq!(board.tx_cache().pixel(0, 0, 0), 1);
    assert_eq!(board.tx_cache().pixel(0, 1, 0), 2);
}

#[test]
fn palette_3_3_2_resistor_dac() {
    let mut board = CongoBongoBoard::new();
    // All bits set in entry 1 → white; entry 2 = red only (bits 0-2).
    board.palette_prom[0] = 0x00;
    board.palette_prom[1] = 0xFF;
    board.palette_prom[2] = 0x07;
    board.build_palette(&dac());

    assert_eq!(board.palette_color(0), (0, 0, 0));
    assert_eq!(board.palette_color(1), (255, 255, 255));
    let (r, g, b) = board.palette_color(2);
    assert_eq!((g, b), (0, 0));
    assert_eq!(r, 255, "all three red bits on → full red");

    // The PROM is mirrored into the upper half (CBS color bank).
    board.palette_prom[0x100] = 0xFF;
    board.build_palette(&dac());
    assert_eq!(board.palette_color(0x100), (255, 255, 255));
}

#[test]
fn foreground_tilemap_renders_with_transparency() {
    let mut board = CongoBongoBoard::new();
    // Tile 1, row 0: col 0 → plane-0 set (pen 1, opaque); col 1 → pen 0.
    board.tx_rom[8] = 0b1000_0000;
    board.decode_gfx_roms();
    // color 2 → pen base 2*8 = 16; pen 1 lands at palette[17].
    board.palette_prom[17] = 0xFF; // white
    board.build_palette(&dac());
    board.video_ram[0] = 1; // tile code
    board.color_ram[0] = 2; // color

    board.render_scanline(0);
    let buf = &board.scanline_buffer;
    assert_eq!((buf[0], buf[1], buf[2]), (255, 255, 255), "opaque pen 1");
    assert_eq!(
        (buf[3], buf[4], buf[5]),
        (0, 0, 0),
        "pen 0 transparent → black"
    );
}

#[test]
fn foreground_fg_color_offsets_palette() {
    let mut board = CongoBongoBoard::new();
    board.tx_rom[8] = 0b1000_0000; // tile 1, pen 1 at (0,0)
    board.decode_gfx_roms();
    // fg_color (CREF1) adds 0x80, so color 0 pen 1 resolves at palette[0x81].
    board.palette_prom[0x81] = 0xFF;
    board.build_palette(&dac());
    // fg_bank=1 → code 0x101 wraps to tile 1 (256-tile ROM); fg_color set.
    board.video_ram[0] = 0x01;
    board.color_ram[0] = 0x00;
    board.latch2 = (1 << 6) | (1 << 1); // fg bank (BS) + fg color (CREF1)

    board.render_scanline(0);
    let buf = &board.scanline_buffer;
    assert_eq!((buf[0], buf[1], buf[2]), (255, 255, 255));
}

#[test]
fn background_skew_source_coords() {
    let mut board = CongoBongoBoard::new();
    // No scroll: srcy = ((0<<1)^0xfff)+1 = 0x1000 & 0xfff = 0; srcx(0) = 0x3f.
    assert_eq!(board.bg_src_y(0), 0);
    assert_eq!(CongoBongoBoard::bg_src_x(0, 0), 0x3F);
    // Successive rows step the skew column left by one every two lines.
    assert_eq!(CongoBongoBoard::bg_src_x(0, 1), 0x40);
    assert_eq!(CongoBongoBoard::bg_src_x(2, 0), 0x3E);

    // 11-bit scroll split across the two position bytes (0xC028/0xC029).
    board.bg_position = vec![0x10, 0x01]; // bgpos = 0x110
    assert_eq!(board.bg_src_y(0), 0xDE0);
}

#[test]
fn background_pixmap_and_render() {
    let mut board = CongoBongoBoard::new();
    // Every bg cell: code 0, color 1 (attr 0x10) → pixmap pen = 1*8 + 0 = 8.
    for b in board.tilemap_dat[0x2000..0x4000].iter_mut() {
        *b = 0x10;
    }
    board.decode_gfx_roms();
    board.build_bg_pixmap();
    assert_eq!(board.bg_pixmap.len(), 256 * 4096);
    assert_eq!(board.bg_pixmap[0], 8, "color 1, pen 0");

    board.palette_prom[8] = 0xFF; // palette[8] = white
    board.build_palette(&dac());

    // Disabled → row stays black.
    board.bg_enabled = false;
    board.render_scanline(100);
    let off = 100 * NATIVE_WIDTH * 3;
    assert_eq!(
        (board.scanline_buffer[off], board.scanline_buffer[off + 2]),
        (0, 0)
    );

    // Enabled, uniform map → every pixel resolves to palette[8] = white.
    board.bg_enabled = true;
    board.render_scanline(100);
    assert_eq!(
        (
            board.scanline_buffer[off],
            board.scanline_buffer[off + 1],
            board.scanline_buffer[off + 2]
        ),
        (255, 255, 255)
    );
}

#[test]
fn sprite_dma_copies_descriptors_into_sprite_ram() {
    let mut sys = CongoBongoSystem::new();
    // Build one sprite descriptor in work RAM at 0x8100: slot byte then the
    // four sprite bytes (Y, code, color, X).
    let desc = [0x03u8, 0xAA, 0xBB, 0xCC, 0xDD]; // slot 3 → sprite_ram[12..16]
    for (i, b) in desc.iter().enumerate() {
        sys.write(BusMaster::Cpu(0), 0x8100 + i as u16, *b);
    }
    // Program the DMA: source 0x8100, count 0 (one descriptor), then trigger.
    sys.write(BusMaster::Cpu(0), 0xC030, 0x00);
    sys.write(BusMaster::Cpu(0), 0xC031, 0x81);
    sys.write(BusMaster::Cpu(0), 0xC032, 0x00);
    sys.write(BusMaster::Cpu(0), 0xC033, 0x01); // go

    assert_eq!(&sys.board.sprite_ram[12..16], &[0xAA, 0xBB, 0xCC, 0xDD]);
}

#[test]
fn sprite_positioning_helpers_match_mame() {
    // find_minimum_x (upright) = value + 0xf0, wrapped to 8 bits.
    assert_eq!(CongoBongoBoard::find_minimum_x(0x10, false), 0x00);
    assert_eq!(CongoBongoBoard::find_minimum_x(0x00, false), 0xF0);
    // find_minimum_y returns a value in 0..=0x100 (top scanline + 1).
    let y = CongoBongoBoard::find_minimum_y(0x20, false);
    assert!((0..=0x100).contains(&y));
}

#[test]
fn sound_command_reaches_ppi_port_a() {
    let mut sys = CongoBongoSystem::new();
    // The main CPU's sound command is driven onto the interface chip's input
    // port, and the sound CPU reads that port.
    assert_eq!(
        sys.write(BusMaster::Cpu(0), 0xC038, 0x7e),
        CongoWrite::SoundCommand(0x7e)
    );
    assert_eq!(sys.board.sound_latch, 0x7e);
    assert_eq!(
        sys.write(BusMaster::Cpu(1), 0x8003, 0x90),
        CongoWrite::Ppi {
            port: 3,
            data: 0x90
        }
    );
    assert_eq!(sys.read(BusMaster::Cpu(1), 0x8000), CongoRead::Ppi(0));
}

#[test]
fn sound_writes_route_to_psgs_and_ppi() {
    let mut sys = CongoBongoSystem::new();
    assert_eq!(
        sys.write(BusMaster::Cpu(1), 0x8001, 0x02),
        CongoWrite::Ppi {
            port: 1,
            data: 0x02
        }
    );
    assert_eq!(
        sys.write(BusMaster::Cpu(1), 0x8002, 0x0d),
        CongoWrite::Ppi {
            port: 2,
            data: 0x0d
        }
    );
    assert_eq!(
        sys.write(BusMaster::Cpu(1), 0x6000, 0x80 | 0x04),
        CongoWrite::Sn1(0x84)
    );
    assert_eq!(
        sys.write(BusMaster::Cpu(1), 0xA000, 0x80 | 0x04),
        CongoWrite::Sn2(0x84)
    );
}

/// The board's part of one main CPU cycle.
fn tick(board: &mut CongoBongoBoard) {
    board.begin_tick();
    board.begin_sound();
    while board.next_sound_step() {
        board.end_sound_step(false, false);
    }
    board.end_tick();
}

#[test]
fn sound_irq_fires_periodically() {
    let mut sys = CongoBongoSystem::new();
    sys.board.reset();
    // One frame is about 66k sound cycles, several 16384-cycle IRQ periods.
    let mut fired = false;
    for _ in 0..timing().cycles_per_frame() {
        tick(&mut sys.board);
        if sys.board.sound_irq_pending {
            fired = true;
        }
    }
    assert!(fired, "sound CPU periodic IRQ asserted");

    // The CPU closing its interrupt gate takes the interrupt.
    sys.board.end_sound_step(true, false);
    assert!(!sys.board.sound_irq_pending);
}

#[test]
fn sprite_renders_into_scanline() {
    let mut board = CongoBongoBoard::new();
    // Sprite 0, row 0, col 0 → plane-0 set (pen 1). Sprite plane 0 is at the
    // top third of the ROM; byte 0 bit 7 is sub-cell (0,0) row 0 col 0.
    board.spr_rom[0] = 0b1000_0000;
    board.decode_gfx_roms();
    assert_eq!(board.sprite_cache.pixel(0, 0, 0), 1);
    // color 0, pen 1 → palette[1].
    board.palette_prom[1] = 0xFF;
    board.build_palette(&dac());

    // One sprite, slot 0: Y, code 0, color 0, X. Pick X so the left column
    // lands at screen x 0: find_minimum_x(value) = value + 0xf0 = 0 → 0x10.
    board.sprite_ram[0] = 0x80; // Y (places the sprite somewhere on screen)
    board.sprite_ram[1] = 0x00; // code 0, no flip
    board.sprite_ram[2] = 0x00; // color 0, no flip
    board.sprite_ram[3] = 0x10; // X → screen column 0

    let sy = CongoBongoBoard::find_minimum_y(0x80, false) as usize;
    board.render_scanline(sy); // top row of the sprite
    let off = sy * NATIVE_WIDTH * 3;
    assert_eq!(
        (
            board.scanline_buffer[off],
            board.scanline_buffer[off + 1],
            board.scanline_buffer[off + 2]
        ),
        (255, 255, 255),
        "sprite pen 1 drawn at column 0"
    );
}

fn press(sys: &mut CongoBongoSystem, id: u16, pressed: bool) {
    sys.handle_input(InputEvent::Button {
        id: InputId(id),
        pressed,
    });
}

#[test]
fn input_maps_to_port_bits() {
    let mut sys = CongoBongoSystem::new();
    press(&mut sys, INPUT_P1_RIGHT, true);
    press(&mut sys, INPUT_P1_UP, true);
    press(&mut sys, INPUT_P1_BUTTON, true);
    assert_eq!(main_read(&sys, 0xC000), 0b0001_0101);

    press(&mut sys, INPUT_P2_LEFT, true);
    assert_eq!(main_read(&sys, 0xC001), 0b0000_0010);

    press(&mut sys, INPUT_P1_START, true);
    press(&mut sys, INPUT_P2_START, true);
    // SW100 start bits (2,3); no coins armed yet.
    assert_eq!(main_read(&sys, 0xC008) & 0x0C, 0x0C);

    // Releasing clears the bit.
    press(&mut sys, INPUT_P1_RIGHT, false);
    assert_eq!(main_read(&sys, 0xC000) & 0x01, 0);
}

#[test]
fn coin_latches_only_when_armed_and_clears_on_ack() {
    let mut sys = CongoBongoSystem::new();
    // Not armed → coin ignored (SW100 bit5 stays low).
    press(&mut sys, INPUT_COIN1, true);
    assert_eq!(main_read(&sys, 0xC008) & 0x20, 0);

    // Arm coin 1 (latch1 bit0 high), then insert → latches into SW100 bit5.
    sys.write(BusMaster::Cpu(0), 0xC018, 0x01);
    press(&mut sys, INPUT_COIN1, true);
    assert_eq!(
        main_read(&sys, 0xC008) & 0x20,
        0x20,
        "coin latched"
    );

    // Acknowledge as the game does (0x0B73): pulse the coin's own enable line
    // low → the latch async-clears immediately, without touching bit 2.
    sys.write(BusMaster::Cpu(0), 0xC018, 0x00);
    assert_eq!(
        main_read(&sys, 0xC008) & 0x20,
        0,
        "coin cleared"
    );
    sys.write(BusMaster::Cpu(0), 0xC018, 0x01); // re-arm for the next coin
}

#[test]
fn dip_banks_valid_and_defaults() {
    let sys = CongoBongoSystem::new();
    assert_dip_banks_valid(&sys.dip_banks(), &[DSW2_DEFAULT, DSW3_DEFAULT]);
    assert_eq!(main_read(&sys, 0xC002), DSW2_DEFAULT);
    assert_eq!(main_read(&sys, 0xC003), DSW3_DEFAULT);
}

#[test]
fn input_controls_have_stable_names() {
    let sys = CongoBongoSystem::new();
    let names: Vec<_> = sys.input_controls().iter().map(|c| c.stable_name).collect();
    for expected in ["p1_right", "p1_button", "p2_down", "coin1", "service"] {
        assert!(names.contains(&expected), "missing {expected}");
    }
}

#[test]
fn boots_and_runs_frames_without_panicking() {
    let mut sys = CongoBongoSystem::new();
    sys.board.reset();
    for _ in 0..3 * timing().cycles_per_frame() {
        tick(&mut sys.board);
    }
    let (w, h) = timing().display_size();
    assert_eq!((w, h), (224, 256));
    let buf = sys.board.render_frame();
    assert_eq!(buf.len(), (w * h * 3) as usize);
}

#[test]
fn bus_decodes_ram_video_color() {
    let mut sys = CongoBongoSystem::new();
    for (addr, val) in [(0x8000u16, 0x11u8), (0xA000, 0x22), (0xA400, 0x33)] {
        sys.write(BusMaster::Cpu(0), addr, val);
        assert_eq!(main_read(&sys, addr), val, "addr {addr:#06x}");
    }
    // Video/color RAM mirrors (+0x800) alias the same backing store.
    sys.write(BusMaster::Cpu(0), 0xA800, 0x44);
    assert_eq!(main_read(&sys, 0xA000), 0x44);

    // Program ROM is read-only: writes are ignored.
    sys.board.main_rom[0] = 0xAB;
    sys.write(BusMaster::Cpu(0), 0x0000, 0x00);
    assert_eq!(main_read(&sys, 0x0000), 0xAB);
}

#[test]
fn bus_decodes_inputs_and_control_latches() {
    let mut sys = CongoBongoSystem::new();
    sys.board.in0 = 0x55;
    sys.board.in1 = 0xAA;
    sys.board.dsw2 = 0x3C;
    sys.board.dsw3 = 0x12;
    sys.board.in2 = 0x77;
    assert_eq!(main_read(&sys, 0xC000), 0x55);
    assert_eq!(main_read(&sys, 0xC001), 0xAA);
    assert_eq!(main_read(&sys, 0xC002), 0x3C);
    assert_eq!(main_read(&sys, 0xC003), 0x12);
    assert_eq!(main_read(&sys, 0xC008), 0x77);

    // LS259: INTON (latch1 Q7) gates the VBlank IRQ.
    sys.write(BusMaster::Cpu(0), 0xC01F, 0x01);
    assert!(sys.board.int_enabled);
    sys.write(BusMaster::Cpu(0), 0xC01F, 0x00);
    assert!(!sys.board.int_enabled);

    // BEN (latch1 Q5) toggles the background enable.
    sys.write(BusMaster::Cpu(0), 0xC01D, 0x01);
    assert!(sys.board.bg_enabled);

    // Scroll, sprite-DMA, and sound latches store their bytes.
    sys.write(BusMaster::Cpu(0), 0xC028, 0x84);
    assert_eq!(sys.board.bg_position[0], 0x84);
    sys.write(BusMaster::Cpu(0), 0xC032, 0x09);
    assert_eq!(sys.board.sprite_dma[2], 0x09);
    sys.write(BusMaster::Cpu(0), 0xC038, 0x5A);
    assert_eq!(sys.board.sound_latch, 0x5A);
}

#[test]
fn vblank_irq_respects_int_enable() {
    let mut sys = CongoBongoSystem::new();
    // Disabled: no IRQ even at the VBlank cycle.
    assert!(!sys.board.check_interrupts(BusMaster::Cpu(0)).irq);

    sys.board.int_enabled = true;
    sys.board.vblank_irq_pending = true;
    assert!(sys.board.check_interrupts(BusMaster::Cpu(0)).irq);

    // Clearing INTON via the latch drops the pending IRQ.
    sys.write(BusMaster::Cpu(0), 0xC01F, 0x00);
    assert!(!sys.board.check_interrupts(BusMaster::Cpu(0)).irq);
}

#[test]
fn congo_bongo_save_load_round_trip() {
    let mut sys = CongoBongoSystem::new();
    sys.write(BusMaster::Cpu(0), 0xA000, 0xC3);
    sys.board.latch2 = 0xC0;
    sys.board.sound_latch = 0x7E;
    sys.board.clock = 12345;

    let mut w = StateWriter::new();
    sys.board.save_memory(&mut w);
    sys.board.save_sound_timing(&mut w);
    sys.board.save_position(&mut w);
    let data = w.into_vec();

    let mut sys2 = CongoBongoSystem::new();
    let mut r = StateReader::new(&data);
    assert_eq!(sys2.board.load_memory(&mut r), Ok(()));
    assert_eq!(sys2.board.load_sound_timing(&mut r), Ok(()));
    assert_eq!(sys2.board.load_position(&mut r), Ok(()));
    assert_eq!(r.left(), 0);
    assert_eq!(main_read(&sys2, 0xA000), 0xC3);
    assert_eq!(sys2.board.latch2, 0xC0);
    assert_eq!(sys2.board.sound_latch, 0x7E);
    assert_eq!(sys2.board.clock, 12345);
}

/// The registered layouts decode exactly as the board does.
#[test]
fn gfx_region_layouts_match_runtime_decode() {
    let mut board = CongoBongoBoard::new();
    for (i, b) in board.tx_rom.iter_mut().enumerate() {
        *b = (i as u8).wrapping_mul(31).wrapping_add(7);
    }
    for (i, b) in board.bg_rom.iter_mut().enumerate() {
        *b = (i as u8).wrapping_mul(17).wrapping_add(3);
    }
    for (i, b) in board.spr_rom.iter_mut().enumerate() {
        *b = (i as u8).wrapping_mul(13).wrapping_add(5);
    }
    board.decode_gfx_roms();

    let fg = gfx_registry::find("congobongo", "fg").unwrap();
    assert_caches_eq(
        &decode_gfx(&board.tx_rom, fg.count as usize, &fg.layout()),
        &board.tx_cache,
    );
    let bg = gfx_registry::find("congobongo", "bg").unwrap();
    assert_caches_eq(
        &decode_gfx(&board.bg_rom, bg.count as usize, &bg.layout()),
        &board.bg_cache,
    );
    let spr = gfx_registry::find("congobongo", "sprites").unwrap();
    assert_caches_eq(
        &decode_gfx(&board.spr_rom, spr.count as usize, &spr.layout()),
        &board.sprite_cache,
    );
}

/// A viewer's palette is the board's.
#[test]
fn gfx_palette_matches_runtime_build() {
    let mut prom = [0u8; 0x200];
    for (i, b) in prom.iter_mut().enumerate() {
        *b = (i as u8).wrapping_mul(53).wrapping_add(11);
    }

    let mut board = CongoBongoBoard::new();
    board.palette_prom.copy_from_slice(&prom);
    board.build_palette(&dac());

    assert_eq!(congo_palette_rgb(&prom, &dac()), board.palette_rgb);
    assert_eq!(congo_gfx_palette(&prom, &dac()), board.palette_rgb);
}

fn assert_caches_eq(a: &GfxCache, b: &GfxCache) {
    assert_eq!(
        (a.count(), a.width(), a.height()),
        (b.count(), b.width(), b.height())
    );
    for code in 0..a.count() {
        for py in 0..a.height() {
            for px in 0..a.width() {
                assert_eq!(
                    a.pixel(code, px, py),
                    b.pixel(code, px, py),
                    "pixel mismatch at code {code} ({px},{py})"
                );
            }
        }
    }
}

#[test]
fn short_board_states_are_refused() {
    let mut board = CongoBongoBoard::new();
    let mut r = StateReader::new(&[0; 8]);
    assert_eq!(board.load_memory(&mut r), Err(SaveError::UnexpectedEnd));
    assert_eq!(
        board.load_sound_timing(&mut r),
        Err(SaveError::UnexpectedEnd)
    );
    assert_eq!(board.load_position(&mut r), Err(SaveError::UnexpectedEnd));
    assert_eq!(r.left(), 8);
}

#[test]
fn percussion_lines_gate_their_voices() {
    for (b, c, expect) in [
        (0xff, 0xff, [false, false, false, false, false]),
        (0xfd, 0xff, [true, false, false, false, false]),
        (0xff, 0xfe, [false, true, false, false, false]),
        (0xff, 0xfd, [false, false, true, false, false]),
        (0xff, 0xfb, [false, false, false, true, false]),
        (0xff, 0xf7, [false, false, false, false, true]),
    ] {
        let mut snd = CongoSound::new();
        snd.set_triggers(b, c);
        assert_eq!(
            [snd.gorilla, snd.bass, snd.conga_low, snd.conga_high, snd.rim],
            expect
        );
        snd.reset();
        assert_eq!(snd, CongoSound::default());
    }
}

#[test]
fn percussion_noise_keeps_running() {
    let mut lfsr = NOISE_SEED;
    let (mut high, mut low) = (0, 0);
    for _ in 0..1000 {
        let (next, level) = next_noise(lfsr);
        assert!(next != 0 && next < 0x2_0000);
        if level {
            high += 1;
        } else {
            low += 1;
        }
        lfsr = next;
    }
    assert!(high > 300 && low > 300);
    assert_eq!(next_noise(1), (0x1_2000, false));
    assert_eq!(next_noise(2), (1, true));
}

#[test]
fn vblank_raises_the_main_interrupt_when_enabled() {
    let mut sys = CongoBongoSystem::new();
    sys.write(BusMaster::Cpu(0), 0xC01F, 0x01);
    sys.board.clock = 240 * 192;
    sys.board.begin_tick();
    assert!(sys.board.check_interrupts(BusMaster::Cpu(0)).irq);
}

#[test]
fn congo_rom_images_reach_the_buses() {
    let mut sys = CongoBongoSystem::new();
    let main: Vec<u8> = (0..0x8000).map(|i| (i % 251) as u8).collect();
    let sound: Vec<u8> = (0..0x2000).map(|i| (i % 241) as u8).collect();
    sys.load_rom_set(
        CongoRoms {
            main,
            sound,
            tx: vec![0; 0x1000],
            bg: vec![0; 0x6000],
            spr: vec![0; 0xC000],
            tilemap: vec![0; 0x4000],
            palette: vec![0xFF; 0x200],
        },
        &dac(),
    );
    assert_eq!(main_read(&sys, 0x7FFF), (0x7FFF % 251) as u8);
    assert_eq!(
        sys.read(BusMaster::Cpu(1), 0x1FFF),
        CongoRead::Value((0x1FFF % 241) as u8)
    );
    assert_eq!(sys.board.palette_color(3), (255, 255, 255));
    assert_eq!(congo_main_rom().size, 0x8000);
    assert_eq!(sys.machine_id(), "congobongo");
}

#[test]
fn psg_pairs_sum_without_overflow() {
    assert_eq!(mix_psgs(i16::MAX, i16::MAX), i16::MAX);
    assert_eq!(mix_psgs(i16::MIN, i16::MIN), i16::MIN);
}
