//! How the chips of each game fill their regions.

use vstd::prelude::*;

use crate::rom::RomTable;

verus! {

/// The chips lie end to end, in the order listed, from `from` to `to`.
pub open spec fn end_to_end(chips: Seq<RomTable>, from: int, to: int) -> bool {
    &&& chips.len() > 0
    &&& chips[0].2 == from
    &&& chips.last().2 + chips.last().1 == to
    &&& forall|i: int| 1 <= i < chips.len() ==> (#[trigger] chips[i]).2 == chips[i - 1].2 + chips[i - 1].1
}

/// The chips of the two Asteroids games fill program and vector ROM.
pub proof fn law_asteroids_chips_fill_their_regions()
    ensures
        end_to_end(crate::asteroids::program_rom_chips(), 0, 0x1800),
        end_to_end(crate::asteroids::vector_rom_chips(), 0, 0x0800),
        end_to_end(crate::astdelux::program_rom_chips(), 0, 0x2000),
        end_to_end(crate::astdelux::vector_rom_chips(), 0, 0x1000),
{
}

/// Burger Time's program starts 4 KB into its region; the other chips fill
/// theirs, the graphics in planes of a third each.
pub proof fn law_burgertime_chips_fill_their_regions()
    ensures
        end_to_end(crate::burgertime::main_rom_chips(), 0x1000, 0x5000),
        end_to_end(crate::burgertime::gfx1_rom_chips(), 0, 0x6000),
        end_to_end(crate::burgertime::gfx2_rom_chips(), 0, 0x1800),
        end_to_end(crate::burgertime::bg_map_rom_chips(), 0, 0x0800),
        end_to_end(crate::burgertime::sound_rom_chips(), 0, 0x1000),
{
}

/// The chips of Crystal Castles fill program, graphics and the three PROMs.
pub proof fn law_ccastles_chips_fill_their_regions()
    ensures
        end_to_end(crate::ccastles::program_rom_chips(), 0, 0xA000),
        end_to_end(crate::ccastles::gfx_rom_chips(), 0, 0x4000),
        end_to_end(crate::ccastles::sync_prom_chips(), 0, 0x100),
        end_to_end(crate::ccastles::wp_prom_chips(), 0, 0x100),
        end_to_end(crate::ccastles::pri_prom_chips(), 0, 0x100),
{
}

/// The chips of Congo Bongo fill their regions; the palette PROM is there twice.
pub proof fn law_congo_chips_fill_their_regions()
    ensures
        end_to_end(crate::congo_bongo::main_rom_chips(), 0, 0x8000),
        end_to_end(crate::congo_bongo::sound_rom_chips(), 0, 0x2000),
        end_to_end(crate::congo_bongo::tx_rom_chips(), 0, 0x1000),
        end_to_end(crate::congo_bongo::bg_rom_chips(), 0, 0x6000),
        end_to_end(crate::congo_bongo::spr_rom_chips(), 0, 0xC000),
        end_to_end(crate::congo_bongo::tilemap_rom_chips(), 0, 0x4000),
        end_to_end(crate::congo_bongo::palette_prom_chips(), 0, 0x200),
        crate::congo_bongo::palette_prom_chips()[0].0 == crate::congo_bongo::palette_prom_chips()[1].0,
        crate::congo_bongo::palette_prom_chips()[0].3 == crate::congo_bongo::palette_prom_chips()[1].3,
{
}

} // verus!
