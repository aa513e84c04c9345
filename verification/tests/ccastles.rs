use phosphor_machines::ccastles::{
    CastlesRead, CastlesRoms, CastlesWrite, CrystalCastlesBoard, CrystalCastlesSystem,
    INPUT_COIN_L, INPUT_TRACK_R, INPUT_TRACK_U, TrackballInput, ccastles_program_rom, timing,
};
use phosphor_machines::dip::DipSwitchBank;
use phosphor_machines::input::{InputEvent, InputId, InputKind};
use phosphor_machines::memory::SaveError;
use phosphor_machines::state::{StateReader, StateWriter};

/// Output levels of the colour ladder: 22k, 10k and 4.7k against a 1k pulldown.
fn ladder() -> Vec<u8> {
    let volts = [22_000.0f64, 10_000.0, 4_700.0].map(|r| 1_000.0 / (1_000.0 + r));
    let total: f64 = volts.iter().sum();
    let weights = volts.map(|v| (255.0 * v / total).round() as u32);
    (0..8u32)
        .map(|code| {
            let level: u32 = (0..3).filter(|n| code >> n & 1 == 1).map(|n| weights[n]).sum();
            level.min(255) as u8
        })
        .collect()
}

fn system() -> CrystalCastlesSystem {
    CrystalCastlesSystem::new(ladder())
}

fn read(board: &mut CrystalCastlesBoard, addr: u16) -> u8 {
    match board.read(addr) {
        CastlesRead::Value(v) => v,
        other => panic!("a POKEY answers at {addr:#06x}: {other:?}"),
    }
}

fn assert_dip_banks_valid(banks: &[DipSwitchBank], values: &[u8]) {
    assert_eq!(banks.len(), values.len());
    for (bank, value) in banks.iter().zip(values) {
        for o in &bank.options {
            for c in &o.choices {
                assert_eq!(c.value & !o.mask, 0, "{} {}", o.name, c.label);
            }
            assert!(o.choices.iter().any(|c| c.value == value & o.mask));
        }
    }
}

#[test]
fn ccastles_dip_default_and_metadata() {
    let sys = system();
    assert_eq!(sys.machine_id(), "ccastles");
    assert_eq!(sys.dip_bank_value(0), 0x00); // upright
    assert_dip_banks_valid(&sys.dip_banks(), &[sys.dip_bank_value(0)]);
}

#[test]
fn ccastles_set_dip_option_masks_only_its_bits() {
    let mut sys = system();
    sys.board.dip_switches = 0x05; // stray bits outside the Cabinet mask
    // Cabinet is option 0 (mask 0x20); pick "Cocktail" (0x20).
    sys.set_dip_option(0, 0, 0x20);
    assert_eq!(sys.dip_bank_value(0), 0x25); // 0x05 preserved + cabinet bit
}

#[test]
fn ccastles_save_load_round_trip() {
    let mut sys = system();
    sys.board.video_ram[0x1000] = 0xAB;
    sys.board.sram[0x100] = 0xCD;
    sys.board.sprite_ram[0x10] = 0xEF;
    sys.board.nvram[0x20] = 0x42;
    sys.board.hscroll = 0x80;
    sys.board.vscroll = 0x40;
    sys.board.outlatch0 = 0x80;
    sys.board.outlatch1 = 0x0F;
    sys.board.in0 = 0xBF;
    sys.board.irq_state = true;
    sys.board.clock = 50_000;
    sys.board.watchdog_frame_count = 3;
    sys.board.dip_switches = 0x55;

    let mut w = StateWriter::new();
    sys.board.save_memory(&mut w);
    sys.board.save_position(&mut w);
    let data = w.into_vec();

    let mut sys2 = system();
    let mut r = StateReader::new(&data);
    assert_eq!(sys2.board.load_memory(&mut r), Ok(()));
    assert_eq!(sys2.board.load_position(&mut r), Ok(()));
    sys2.board.after_load();
    assert_eq!(r.left(), 0);

    assert_eq!(sys2.board.video_ram[0x1000], 0xAB);
    assert_eq!(sys2.board.sram[0x100], 0xCD);
    assert_eq!(sys2.board.sprite_ram[0x10], 0xEF);
    assert_eq!(sys2.board.nvram[0x20], 0x42);
    assert_eq!(sys2.board.hscroll, 0x80);
    assert_eq!(sys2.board.vscroll, 0x40);
    assert_eq!(sys2.board.outlatch0, 0x80);
    assert_eq!(sys2.board.outlatch1, 0x0F);
    assert_eq!(sys2.board.in0, 0xBF);
    assert!(sys2.board.irq_state);
    assert_eq!(sys2.board.clock, 50_000);
    assert_eq!(sys2.board.watchdog_frame_count, 3);
    assert_eq!(sys2.board.dip_switches, 0x55);

    let mut short = StateReader::new(&data[..100]);
    assert_eq!(
        sys2.board.load_memory(&mut short),
        Err(SaveError::UnexpectedEnd)
    );
}

#[test]
fn rom_banking_selects_correct_bank() {
    let mut sys = system();
    // Fill bank 0 low with 0xAA, bank 1 low with 0xBB
    sys.board.rom_bank0[..0x2000].fill(0xAA);
    sys.board.rom_bank1[..0x2000].fill(0xBB);

    // Bank 0 (default, outlatch0 bit 7 = 0)
    sys.board.outlatch0 = 0x00;
    assert_eq!(
        read(&mut sys.board, 0xA000),
        0xAA,
        "Bank 0 should read from ROM_BANK0"
    );

    // Bank 1 (outlatch0 bit 7 = 1)
    sys.board.outlatch0 = 0x80;
    assert_eq!(
        read(&mut sys.board, 0xA000),
        0xBB,
        "Bank 1 should read from ROM_BANK1"
    );
}

#[test]
fn fixed_rom_always_accessible() {
    let mut sys = system();
    sys.board.rom_fixed[0x0000] = 0xDE;
    sys.board.rom_fixed[0x1FFF] = 0xAD;

    assert_eq!(read(&mut sys.board, 0xE000), 0xDE);
    assert_eq!(read(&mut sys.board, 0xFFFF), 0xAD);
}

#[test]
fn nvram_mirroring() {
    let mut sys = system();
    sys.board.write(0x9000, 0x42);
    assert_eq!(read(&mut sys.board, 0x9100), 0x42);
    assert_eq!(read(&mut sys.board, 0x9200), 0x42);
    assert_eq!(read(&mut sys.board, 0x9300), 0x42);
}

#[test]
fn outlatch0_bit_write() {
    let mut sys = system();
    // Set bit 7 (ROM bank select) by writing data & 1 = 1 to addr 0x9E87
    sys.board.write(0x9E87, 0x01);
    assert!(sys.board.outlatch0 & 0x80 != 0);
    // Clear it
    sys.board.write(0x9E87, 0x00);
    assert!(sys.board.outlatch0 & 0x80 == 0);
}

#[test]
fn outlatch1_uses_bit3_of_data() {
    let mut sys = system();
    // Set bit 0 (/AX): data bit 3 must be set
    sys.board.write(0x9F00, 0x08);
    assert!(sys.board.outlatch1 & 1 != 0);
    // Data bit 0 should NOT set the latch (only D3 matters)
    sys.board.write(0x9F00, 0x01);
    assert!(sys.board.outlatch1 & 1 == 0);
}

#[test]
fn irq_acknowledge_clears_state() {
    let mut sys = system();
    sys.board.irq_state = true;
    sys.board.write(0x9D80, 0x00);
    assert!(!sys.board.irq_state);
}

#[test]
fn palette_entry_updates_rgb() {
    let mut sys = system();
    // Write all-zeros to palette entry 0 → all bits inverted → max brightness
    sys.board.write(0x9F80, 0x00);
    assert_eq!(sys.board.palette_rgb[0], (255, 255, 255));

    // All ones: red keeps only its top line, green and blue go dark.
    sys.board.write(0x9F80, 0xFF);
    assert_eq!(sys.board.palette_rgb[0], (144, 0, 0));
}

#[test]
fn input_active_low() {
    let mut sys = system();
    // Default: all active-low bits set (released)
    assert_eq!(sys.board.in0 & 0x02, 0x02, "Coin L should be released");
    sys.handle_input(InputEvent::Button {
        id: InputId((INPUT_COIN_L) as u16),
        pressed: true,
    });
    assert_eq!(
        sys.board.in0 & 0x02,
        0x00,
        "Coin L should be pressed (active-low)"
    );
    sys.handle_input(InputEvent::Button {
        id: InputId((INPUT_COIN_L) as u16),
        pressed: false,
    });
    assert_eq!(
        sys.board.in0 & 0x02,
        0x02,
        "Coin L should be released again"
    );
}

#[test]
fn exposes_two_analog_axes() {
    let sys = system();
    let analog = sys
        .input_controls()
        .iter()
        .filter(|c| matches!(c.kind, InputKind::AnalogAxis(_)))
        .count();
    assert_eq!(analog, 2);
}

#[test]
fn sprite_pixel_extraction() {
    let mut sys = system();
    // Set up GFX ROM for sprite 0, row 0:
    // gfx_rom[0] = 0x0B = 0000_1011 → low nibble bits 3,2,1,0 = 1,0,1,1
    // gfx_rom[0x2000] = 0xD6 = 1101_0110
    //   high nibble bits 7,6,5,4 = 1,1,0,1
    //   low nibble bits 3,2,1,0 = 0,1,1,0
    sys.board.gfx_rom[0x0000] = 0x0B;
    sys.board.gfx_rom[0x2000] = 0xD6;
    sys.board.decode_sprite_cache();

    // Pixel 0: p2=bit3(0x0B)=1, p1=bit7(0xD6)=1, p0=bit3(0xD6)=0 → 0b110 = 6
    assert_eq!(sys.board.sprite_cache.pixel(0, 0, 0), 6);
    // Pixel 1: p2=bit2(0x0B)=0, p1=bit6(0xD6)=1, p0=bit2(0xD6)=1 → 0b011 = 3
    assert_eq!(sys.board.sprite_cache.pixel(0, 1, 0), 3);
    // Pixel 2: p2=bit1(0x0B)=1, p1=bit5(0xD6)=0, p0=bit1(0xD6)=1 → 0b101 = 5
    assert_eq!(sys.board.sprite_cache.pixel(0, 2, 0), 5);
    // Pixel 3: p2=bit0(0x0B)=1, p1=bit4(0xD6)=1, p0=bit0(0xD6)=0 → 0b110 = 6
    assert_eq!(sys.board.sprite_cache.pixel(0, 3, 0), 6);
}

#[test]
fn sprite_transparent_pixel_not_drawn() {
    let mut sys = system();
    // Set all GFX ROM to produce pixel value 7 (transparent pen):
    // p0=1, p1=1, p2=1 → 7
    // Plane 0 (first half, low nibble): all 1s → 0x0F
    // Plane 1 (second half, high nibble): all 1s → 0xF0
    // Plane 2 (second half, low nibble): all 1s → 0x0F
    sys.board.gfx_rom[0..0x2000].fill(0x0F);
    sys.board.gfx_rom[0x2000..0x4000].fill(0xFF); // 0xF0 | 0x0F
    sys.board.decode_sprite_cache();

    // Place sprite 0 at position (100, 100)
    let sprites = &mut sys.board.sprite_ram;
    sprites[0] = 0; // sprite code
    sprites[1] = (256 - 16 - 100) as u8; // Y = 100
    sprites[2] = 0; // color group 0
    sprites[3] = 100; // X = 100

    sys.board.render_sprites_to_buffer();

    // All transparent → sprite buffer should remain 0x0F everywhere
    assert_eq!(sys.board.sprite_buffer[100 * 256 + 100], 0x0F);
    assert_eq!(sys.board.sprite_buffer[100 * 256 + 107], 0x0F);
}

#[test]
fn sprite_renders_to_buffer() {
    let mut sys = system();
    // Set GFX ROM so sprite 1, row 0, pixel 0 produces value 5 (not transparent):
    // p0=1, p1=0, p2=1 → 0b101 = 5
    // Pixel 0 uses bit position 3 (MSB-first: 3 - 0%4 = 3).
    // First half: sprite 1 starts at byte 32. Row 0, byte 0 = offset 32.
    //   Plane 0 (low nibble) bit 3 → set bit 3 = 0x08
    sys.board.gfx_rom[32] = 0x08;
    // Second half: offset 0x2000 + 32 = 0x2020.
    //   Plane 1 (high nibble) bit 7 → clear (want p1=0)
    //   Plane 2 (low nibble) bit 3 → set bit 3 = 0x08
    sys.board.gfx_rom[0x2020] = 0x08;
    sys.board.decode_sprite_cache();

    // Place sprite with code 1 at (50, 200)
    let sprites = &mut sys.board.sprite_ram;
    sprites[0] = 1; // sprite code
    sprites[1] = (256u16.wrapping_sub(16).wrapping_sub(200)) as u8; // Y
    sprites[2] = 0x80; // color group 1 → color_base = 8
    sprites[3] = 50; // X

    sys.board.render_sprites_to_buffer();

    // Sprite pixel 0 of row 0 should be at (50, 200): color_base(8) | 5 = 13
    assert_eq!(sys.board.sprite_buffer[200 * 256 + 50], 13);
}

#[test]
fn scanline_compositing_renders_bitmap() {
    let mut sys = system();
    // Set sync PROM: scanlines 0-23 = VBLANK (bit 0 set), 24-255 = visible
    sys.board.sync_prom[..24].fill(0x01);
    sys.board.sync_prom[24..].fill(0x00);
    sys.board.vblank_end = 24;

    // Set palette entry 5 to a known color
    sys.board.palette_ram[5] = 0x00; // all zeros → inverted = all 1s → white
    sys.board.update_palette_entry(5);
    assert_eq!(sys.board.palette_rgb[5], (255, 255, 255));

    // Write bitmap pixel value 5 at effective Y=24, X=0
    // videoram[24 * 128 + 0] low nibble = 5
    sys.board.video_ram[24 * 128] = 0x05;

    // Sprite buffer clear (transparent)
    sys.board.sprite_buffer.fill(0x0F);

    // Set a priority PROM that selects bitmap (bit 1 = 0) and no bit 4 (bit 0 = 0)
    sys.board.pri_prom[0x5F] = 0x00; // select bitmap, no bit 4

    // Render scanline 24 (first visible)
    sys.board.render_scanline_to_buffer(24);

    // Screen Y = 24 - 24 = 0. Pixel 0 should be white.
    assert_eq!(sys.board.scanline_buffer[0], 255); // R
    assert_eq!(sys.board.scanline_buffer[1], 255); // G
    assert_eq!(sys.board.scanline_buffer[2], 255); // B
}

#[test]
fn scanline_skips_vblank() {
    let mut sys = system();
    sys.board.sync_prom[10] = 0x01; // VBLANK active

    // Fill scanline buffer with a known pattern
    sys.board.scanline_buffer.fill(0xAA);

    // Rendering a VBLANK scanline should not modify the buffer
    sys.board.render_scanline_to_buffer(10);
    assert_eq!(sys.board.scanline_buffer[0], 0xAA);
}

#[test]
fn bitmap_access_through_the_latches_steps_them() {
    let mut sys = system();
    sys.board.wp_prom.fill(0);
    // Latches hold 3 and 4; stepping is enabled by the low outlatch lines.
    assert_eq!(sys.bus_write(0x0000, 3), CastlesWrite::Done);
    sys.bus_write(0x0001, 4);
    assert_eq!((sys.board.bitmode_x, sys.board.bitmode_y), (3, 4));
}

#[test]
fn pokeys_are_decoded() {
    let mut sys = system();
    assert_eq!(sys.bus_read(0x9803), CastlesRead::Pokey1(3));
    assert_eq!(sys.bus_read(0x9A0F), CastlesRead::Pokey2(15));
    assert_eq!(
        sys.bus_write(0x9A1F, 7),
        CastlesWrite::Pokey2 {
            register: 15,
            data: 7
        }
    );
}

#[test]
fn trackball_events_name_their_counter() {
    let mut sys = system();
    let held = sys.handle_input(InputEvent::Button {
        id: InputId(INPUT_TRACK_R as u16),
        pressed: true,
    });
    assert_eq!(
        held,
        TrackballInput::Held {
            counter: 1,
            up: true,
            pressed: true
        }
    );
    let up = sys.handle_input(InputEvent::Button {
        id: InputId(INPUT_TRACK_U as u16),
        pressed: false,
    });
    assert_eq!(
        up,
        TrackballInput::Held {
            counter: 0,
            up: false,
            pressed: false
        }
    );
    let turned = sys.handle_input(InputEvent::Relative {
        id: InputId(9),
        delta: 5,
    });
    assert_eq!(
        turned,
        TrackballInput::Turned {
            counter: 0,
            delta: -5
        }
    );
}

#[test]
fn the_watchdog_expires_on_the_eighth_frame() {
    let mut board = CrystalCastlesBoard::new(ladder());
    for frame in 1..=8 {
        assert_eq!(board.end_frame(), frame == 8);
    }
    board.reset();
    assert_eq!(board.watchdog_frame_count, 0);
    assert_eq!(board.in0, 0xDF);
}

#[test]
fn rom_sets_are_split_over_the_banks() {
    let mut sys = system();
    let mut program = vec![0u8; 0xA000];
    program[0x0000] = 1; // bank 0
    program[0x4000] = 2; // fixed
    program[0x6000] = 3; // bank 1
    let mut sync = vec![0u8; 0x100];
    sync[..24].fill(1);
    sys.load_rom_set(CastlesRoms {
        program,
        gfx: vec![0; 0x4000],
        sync,
        wp: vec![0; 0x100],
        pri: vec![0; 0x100],
    });
    assert_eq!(sys.bus_read(0xA000), CastlesRead::Value(1));
    assert_eq!(sys.bus_read(0xE000), CastlesRead::Value(2));
    sys.bus_write(0x9E87, 1);
    assert_eq!(sys.bus_read(0xA000), CastlesRead::Value(3));
    assert_eq!(sys.board.vblank_end, 24);
    assert_eq!(ccastles_program_rom().size, 0xA000);
    assert_eq!(timing().cycles_per_frame(), 20_480);
}

#[test]
fn the_picture_is_black_until_a_frame_is_complete() {
    let mut board = CrystalCastlesBoard::new(ladder());
    board.scanline_buffer.fill(9);
    let mut out = vec![1u8; 256 * 232 * 3];
    board.render_frame(&mut out);
    assert!(out.iter().all(|&v| v == 0));
    board.end_frame();
    board.render_frame(&mut out);
    assert!(out.iter().all(|&v| v == 9));
}

#[test]
fn nvram_survives_by_itself() {
    let mut board = CrystalCastlesBoard::new(ladder());
    board.load_nvram(&[1, 2, 3]);
    assert_eq!(&board.save_nvram()[..4], &[1, 2, 3, 0]);
    board.load_nvram(&vec![9; 300]);
    assert_eq!(board.save_nvram().len(), 256);
}
