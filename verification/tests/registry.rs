use phosphor_machines::disasm_registry;
use phosphor_machines::disasm_registry::DisasmCpu;
use phosphor_machines::gfx_registry;
use phosphor_machines::registry;

#[test]
fn registered_under_burgertime() {
    assert!(registry::find("burgertime").is_some());
}

#[test]
fn registered_in_machine_and_disasm_registries() {
    let entry = registry::find("congobongo").expect("machine registered");
    assert_eq!(entry.rom_names, &["congo", "congobongo"]);

    let regions = disasm_registry::regions_for("congobongo");
    assert_eq!(
        regions.iter().map(|r| r.region).collect::<Vec<_>>(),
        vec!["main", "sound"],
    );
    let main = disasm_registry::find("congobongo", "main").unwrap();
    assert_eq!((main.cpu, main.org, main.size), (DisasmCpu::Z80, 0, 0x8000));
    let sound = disasm_registry::find("congobongo", "sound").unwrap();
    assert_eq!(
        (sound.cpu, sound.org, sound.size),
        (DisasmCpu::Z80, 0, 0x2000)
    );
}

#[test]
fn gfx_regions_registered_with_expected_geometry() {
    let regions = gfx_registry::regions_for("congobongo");
    assert_eq!(
        regions.iter().map(|r| r.region).collect::<Vec<_>>(),
        vec!["bg", "fg", "sprites"],
    );

    let fg = gfx_registry::find("congobongo", "fg").unwrap();
    assert_eq!((fg.count, fg.width, fg.height), (256, 8, 8));
    let bg = gfx_registry::find("congobongo", "bg").unwrap();
    assert_eq!((bg.count, bg.width, bg.height), (1024, 8, 8));
    let spr = gfx_registry::find("congobongo", "sprites").unwrap();
    assert_eq!((spr.count, spr.width, spr.height), (128, 32, 32));

    for r in [fg, bg, spr] {
        assert!(r.palette, "{} carries the PROM palette", r.region);
    }
}

#[test]
fn machines_are_found_by_their_own_name_only() {
    for (name, roms) in [
        ("astdelux", "astdelux"),
        ("asteroid", "asteroid"),
        ("burgertime", "btime"),
        ("ccastles", "ccastles"),
        ("congobongo", "congo"),
    ] {
        let e = registry::find(name).unwrap();
        assert_eq!(e.name, name);
        assert_eq!(e.rom_names[0], roms);
    }
    assert!(registry::find("btime").is_none());
    assert!(registry::find("").is_none());
    assert_eq!(registry::machines().len(), 5);
    assert!(disasm_registry::find("ccastles", "main").is_none());
    assert_eq!(disasm_registry::find("ccastles", "bank1").unwrap().org, 0xA000);
    assert_eq!(disasm_registry::find("ccastles", "fixed").unwrap().size, 0x2000);
    assert!(gfx_registry::regions_for("ccastles").is_empty());
}
