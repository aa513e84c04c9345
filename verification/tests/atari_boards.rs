use phosphor_machines::atari_avg::{AtariAvgBoard, AvgMap, IRQ_PERIOD_CYCLES};
use phosphor_machines::atari_dvg::{AtariDvgBoard, DvgMap, Region, ramsel_addr};
use phosphor_machines::atari_avg::Region as AvgRegion;
use phosphor_machines::memory::SaveError;
use phosphor_machines::state::{StateReader, StateWriter};
use phosphor_machines::trace::{DebugAccessSource, DebugEventKind};

/// Minimal Asteroids-like map: RAM, I/O (covers the watchdog at 0x3400), and the
/// two vector regions trigger_dvg requires.
fn board() -> AtariDvgBoard {
    let mut map = DvgMap::new();
    map.region(Region::Ram, "RAM", 0x0000, 0x0400);
    map.region(Region::Io, "I/O", 0x3000, 0x1000);
    map.region(Region::VectorRam, "Vector RAM", 0x4000, 0x0800);
    map.region(Region::VectorRom, "Vector ROM", 0x4800, 0x0800);
    AtariDvgBoard::new(map, 0x0800, 0x0800)
}

#[test]
fn tracing_disabled_records_nothing() {
    let b = board();
    assert!(b.trace_main_write(0x3400, 0x00).is_none());
    assert!(b.trigger_dvg().event.is_none());
}

#[test]
fn trigger_dvg_records_vector_generator_start() {
    let mut b = board();
    b.tracing = true;
    b.clock = 321;

    let event = b.trigger_dvg().event.unwrap();

    assert_eq!(event.kind, DebugEventKind::DeviceWrite);
    assert_eq!(event.device, Some("DVG"));
    assert_eq!(event.detail, Some("vector generator start"));
    assert_eq!(event.cycle, 321);
    assert_eq!(event.source, DebugAccessSource::Cpu(0));
}

#[test]
fn write_kinds_map_by_address_and_region() {
    let mut b = board();
    b.tracing = true;

    let mut events = Vec::new();
    for (addr, data) in [
        (0x3400, 0x00), // watchdog
        (0x3200, 0x01), // other I/O
        (0x0100, 0x42), // RAM
        (0x3000, 0xFF), // DVG GO: recorded by trigger only
    ] {
        events.extend(b.trace_main_write(addr, data));
    }

    assert_eq!(events.len(), 3);
    assert_eq!(events[0].kind, DebugEventKind::Watchdog);
    assert_eq!(events[0].detail, Some("watchdog cleared"));
    assert_eq!(events[1].kind, DebugEventKind::IoWrite);
    assert_eq!(events[2].kind, DebugEventKind::MemoryWrite);
    assert_eq!(events[2].region, Some("RAM"));
    assert_eq!(events[2].value, Some(0x42));
}

#[test]
fn the_nmi_is_traced_and_attributed() {
    let mut b = board();
    b.tracing = true;
    b.nmi_counter = 6046;
    assert!(b.begin_cycle(Some(0x6000)).is_none());
    assert_eq!(b.latched_pc, Some(0x6000));
    let event = b.begin_cycle(None).unwrap();
    assert_eq!(event.kind, DebugEventKind::InterruptAssert);
    assert_eq!(event.detail, Some("250 Hz NMI"));
    assert!(b.nmi_pending);
    assert_eq!(b.latched_pc, Some(0x6000));
    assert_eq!(b.trace_main_write(0x0000, 1).unwrap().pc, Some(0x6000));
}

#[test]
fn the_generator_sees_ram_below_rom() {
    let mut b = board();
    b.vector_ram[0x7FF] = 1;
    b.load_region(Region::VectorRom, &[2, 3]);
    let start = b.trigger_dvg();
    assert_eq!(start.memory.len(), 0x2000);
    assert_eq!(start.memory[0x7FF], 1);
    assert_eq!(start.memory[0x800], 2);
    assert_eq!(start.memory[0x801], 3);
    assert_eq!(start.memory[0x1000], 0);
}

#[test]
fn backing_memory_answers_by_region() {
    let mut b = board();
    b.write_backing(0x0012, 7);
    b.write_backing(0x4012, 8);
    b.write_backing(0x4812, 9); // ROM
    b.write_backing(0x9000, 9); // nothing there
    assert_eq!(b.read_backing(0x0012), 7);
    assert_eq!(b.read_backing(0x4012), 8);
    assert_eq!(b.read_backing(0x4812), 0);
    assert_eq!(b.read_backing(0x9000), 0);
}

#[test]
fn dvg_state_round_trips_and_short_data_is_refused() {
    let mut a = board();
    a.ram[5] = 1;
    a.vector_ram[6] = 2;
    a.clock = 0x0102_0304_0506_0708;
    a.nmi_counter = 99;
    a.nmi_pending = true;
    a.watchdog_frame_count = 3;
    let mut w = StateWriter::new();
    a.save_state(&mut w);
    let data = w.into_vec();
    assert_eq!(data.len(), 0x400 + 0x800 + 18);
    assert_eq!(data[0xC00], 0x08); // low byte of the clock
    let mut b = board();
    let mut r = StateReader::new(&data);
    assert_eq!(b.load_state(&mut r), Ok(()));
    assert_eq!((b.ram[5], b.vector_ram[6]), (1, 2));
    assert_eq!((b.clock, b.nmi_counter), (0x0102_0304_0506_0708, 99));
    assert!(b.nmi_pending);
    assert_eq!(b.watchdog_frame_count, 3);
    b.reset();
    assert_eq!((b.nmi_counter, b.nmi_pending, b.watchdog_frame_count), (0, false, 0));
    let mut short = StateReader::new(&data[..data.len() - 1]);
    assert_eq!(b.load_state(&mut short), Err(SaveError::UnexpectedEnd));
}

#[test]
fn ramsel_swaps_only_the_upper_half() {
    assert_eq!(ramsel_addr(0x0234, false), 0x0234);
    assert_eq!(ramsel_addr(0x0234, true), 0x0334);
    assert_eq!(ramsel_addr(0x0334, true), 0x0234);
    assert_eq!(ramsel_addr(0x0134, true), 0x0134);
}

fn avg() -> AtariAvgBoard {
    let map = AvgMap {
        ram: 0x800,
        color_ram: 16,
        vector_ram: 0x1000,
        vector_rom: 0x1000,
        program_rom: 0x5000,
    };
    AtariAvgBoard::new(map, 580, 570)
}

#[test]
fn the_avg_irq_comes_every_period() {
    let mut b = avg();
    for _ in 0..IRQ_PERIOD_CYCLES - 1 {
        b.begin_cycle();
        b.end_cycle();
    }
    assert!(!b.irq_pending);
    b.begin_cycle();
    assert!(b.irq_pending);
    assert_eq!(b.irq_counter, 0);
    assert_eq!(b.clock, 6143);
    b.begin_cycle();
    assert!(b.irq_pending); // held until the game clears it
    b.reset();
    assert!(!b.irq_pending);
    assert_eq!(b.clock, 6143);
}

#[test]
fn the_avg_sees_ram_rom_and_colours() {
    let mut b = avg();
    b.load_region(AvgRegion::VectorRom, &[7]);
    b.load_region(AvgRegion::ColorRam, &[1, 2, 3]);
    b.vector_ram[0xFFF] = 9;
    let start = b.trigger_avg();
    assert_eq!(start.memory[0xFFF], 9);
    assert_eq!(start.memory[0x1000], 7);
    assert_eq!(start.colors, vec![1, 2, 3, 0, 0, 0, 0, 0, 0, 0, 0, 0, 0, 0, 0, 0]);
    assert_eq!(b.display_size(), (580, 570));
    assert_eq!(b.debug_tick_boundaries(true), 1);
    assert_eq!(b.debug_tick_boundaries(false), 0);
}

#[test]
fn avg_state_round_trips_and_short_data_is_refused() {
    let mut a = avg();
    a.ram[1] = 1;
    a.color_ram[2] = 2;
    a.vector_ram[3] = 3;
    a.clock = 44;
    a.irq_counter = 55;
    a.irq_pending = true;
    a.watchdog_frame_count = 6;
    let mut w = StateWriter::new();
    a.save_state(&mut w);
    let data = w.into_vec();
    let mut b = avg();
    let mut r = StateReader::new(&data);
    assert_eq!(b.load_state(&mut r), Ok(()));
    assert_eq!((b.ram[1], b.color_ram[2], b.vector_ram[3]), (1, 2, 3));
    assert_eq!((b.clock, b.irq_counter, b.irq_pending), (44, 55, true));
    assert_eq!(b.watchdog_frame_count, 6);
    let mut short = StateReader::new(&data[1..]);
    assert_eq!(b.load_state(&mut short), Err(SaveError::UnexpectedEnd));
}
