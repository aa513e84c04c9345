//! Atari System 1 board (1984-85): a 68010 over a sparse 24-bit map, a
//! protection chip that banks one ROM window, a banked tilemap with
//! PROM-remapped tiles, linked-list motion objects and a text layer.

use vstd::prelude::*;

use crate::atari_system1_sound::{
    AtariSystem1Sound, Speech, System1SoundView, law_saved_round_trip, tms_clock,
};
use crate::bits::{drive_bit, group_mask_bounds, with_bit};
use crate::frame::FrameLoop;
use crate::gfx::{GfxCache, GfxLayout, decode_gfx, planar_pen, put_row, with_row};
use crate::machine::{ClockDomain, ClockDomainName, ClockTree, InterruptState, TimingConfig, ratio_in};
use crate::memory::{SaveError, copied, copied_range, overlaid, overlay, zeroed, zeros};

verus! {

broadcast use group_mask_bounds;

/// The memories of the main CPU's map.
#[derive(Clone, Copy, Debug, PartialEq, Eq, Structural)]
pub enum Region {
    /// Program ROM: motherboard firmware, then the cartridge's banks.
    Rom,
    Ram,
    /// RAM on the cartridge.
    CartRam,
    Playfield,
    Mob,
    Alpha,
    Palette,
}

/// Tiles in the text font.
pub const ALPHA_TILE_COUNT: usize = 512;

/// Tiles in one graphics bank.
pub const TILES_PER_BANK: usize = 4096;

/// First scanline of vertical blank.
pub const VBLANK_SCANLINE: u16 = 240;

/// Visible columns.
pub const VISIBLE_WIDTH: usize = 336;

/// Visible rows.
pub const VISIBLE_HEIGHT: usize = 240;

/// Main cycles in one frame.
pub const FRAME_CYCLES: u64 = 456 * 262;

// ---------------------------------------------------------------------------
// Tile graphics
// ---------------------------------------------------------------------------

/// Plane offsets of a tile bank: planes lie 0x10000 bytes apart, pen bit 0
/// first.
pub open spec fn tile_planes(bpp: int) -> Seq<usize> {
    Seq::new(bpp as nat, |p: int| (0x80000 * p) as usize)
}

/// Layout of the 8 by 8 tiles of a bank.
fn tile_layout(bpp: u8) -> (l: GfxLayout)
    requires
        4 <= bpp <= 6,
    ensures
        l.plane_offsets@ == tile_planes(bpp as int),
        l.x_offsets@ == Seq::new(8, |x: int| x as usize),
        l.y_offsets@ == Seq::new(8, |y: int| (8 * y) as usize),
        l.char_increment == 64,
{
    let mut plane_offsets: Vec<usize> = Vec::new();
    let mut p: u8 = 0;
    while p < bpp
        invariant
            p <= bpp <= 6,
            plane_offsets@ == tile_planes(bpp as int).take(p as int),
        decreases bpp - p,
    {
        plane_offsets.push(0x80000 * p as usize);
        p += 1;
        assert(plane_offsets@ =~= tile_planes(bpp as int).take(p as int));
    }
    assert(plane_offsets@ =~= tile_planes(bpp as int));
    let x_offsets: Vec<usize> = vec![0, 1, 2, 3, 4, 5, 6, 7];
    let y_offsets: Vec<usize> = vec![0, 8, 16, 24, 32, 40, 48, 56];
    assert(x_offsets@ =~= Seq::new(8, |x: int| x as usize));
    assert(y_offsets@ =~= Seq::new(8, |y: int| (8 * y) as usize));
    GfxLayout { plane_offsets, x_offsets, y_offsets, char_increment: 64 }
}

/// A decoded bank of tiles and its depth.
pub struct GfxBank {
    pub cache: GfxCache,
    pub bpp: u8,
}

impl GfxBank {
    /// A bank that drawing code can use.
    pub open spec fn wf(&self) -> bool {
        &&& self.cache.wf()
        &&& self.cache.spec_count() > 0
        &&& self.cache.spec_width() == 8
        &&& self.cache.spec_height() == 8
        &&& 4 <= self.bpp <= 6
    }

    /// One blank four-bit tile.
    pub open spec fn is_blank(&self) -> bool {
        &&& self.wf()
        &&& self.bpp == 4
        &&& self.cache.spec_count() == 1
        &&& forall|x: int, y: int|
            0 <= x < 8 && 0 <= y < 8 ==> #[trigger] self.cache.at(0, x, y) == 0
    }

    /// The tiles of bank `key.1` of the tile ROM, `key.0` bits deep.
    pub open spec fn decodes(&self, tiles: Seq<u8>, key: (u8, u8)) -> bool {
        &&& self.wf()
        &&& self.bpp == key.0
        &&& self.cache.spec_count() == TILES_PER_BANK
        &&& forall|c: int, x: int, y: int|
            0 <= c < TILES_PER_BANK && 0 <= x < 8 && 0 <= y < 8 ==> #[trigger] self.cache.at(c, x, y)
                == planar_pen(
                tiles.skip(bank_base(key.1)),
                64 * c + 8 * y + x,
                tile_planes(key.0 as int),
                key.0 as nat,
            )
    }

    pub fn blank() -> (b: GfxBank)
        ensures
            b.is_blank(),
    {
        GfxBank { cache: GfxCache::new(1, 8, 8), bpp: 4 }
    }
}

/// Decoded tile graphics: the remap words of the playfield and the motion
/// objects, and the banks they share. Bank 0 is a blank placeholder.
pub struct PlayfieldGfx {
    pub lookup: Vec<u16>,
    pub mo_lookup: Vec<u16>,
    pub banks: Vec<GfxBank>,
}

fn blank_lookup() -> (v: Vec<u16>)
    ensures
        v@ == Seq::new(256, |i: int| 0u16),
{
    let v: Vec<u16> = vec![0u16; 256];
    assert(v@ =~= Seq::new(256, |i: int| 0u16));
    v
}

impl PlayfieldGfx {
    pub open spec fn wf(&self) -> bool {
        &&& self.lookup@.len() == 256
        &&& self.mo_lookup@.len() == 256
        &&& forall|b: int| 0 <= b < self.banks@.len() ==> (#[trigger] self.banks@[b]).wf()
    }

    /// No graphics loaded.
    pub fn empty() -> (g: PlayfieldGfx)
        ensures
            g.wf(),
            g.lookup@ == Seq::new(256, |i: int| 0u16),
            g.mo_lookup@ == Seq::new(256, |i: int| 0u16),
            g.banks@.len() == 1,
            g.banks@[0].is_blank(),
    {
        let mut banks: Vec<GfxBank> = Vec::new();
        banks.push(GfxBank::blank());
        PlayfieldGfx { lookup: blank_lookup(), mo_lookup: blank_lookup(), banks }
    }
}

/// First byte of tile bank `index` in the tile ROM; banks count from 1.
pub open spec fn bank_base(index: u8) -> int {
    0x80000 * (index - 1)
}

/// Bit depth that the second mapping PROM selects.
pub open spec fn prom_depth(prom2: u8) -> u8 {
    if prom2 & 0x10 == 0 {
        4
    } else if prom2 & 0x20 == 0 {
        5
    } else {
        6
    }
}

/// Tile bank that a PROM pair selects by its active-low bank lines, 0 for none.
pub open spec fn prom_bank(prom1: u8, prom2: u8) -> u8 {
    if prom1 & 0x10 == 0 {
        1
    } else if prom1 & 0x20 == 0 {
        2
    } else if prom1 & 0x40 == 0 {
        3
    } else if prom1 & 0x80 == 0 {
        4
    } else if prom2 & 0x40 == 0 {
        5
    } else if prom2 & 0x80 == 0 {
        if prom2 & 0x08 == 0 {
            7
        } else {
            6
        }
    } else {
        0
    }
}

/// Depth and bank that a PROM pair needs, if the tile ROM holds that bank.
pub open spec fn prom_key(prom1: u8, prom2: u8, size: int) -> Option<(u8, u8)> {
    let index = prom_bank(prom1, prom2);
    if index != 0 && bank_base(index) < size {
        Some((prom_depth(prom2), index))
    } else {
        None
    }
}

/// The bank that a PROM pair needs is either absent or whole.
pub open spec fn key_fits(prom1: u8, prom2: u8, size: int) -> bool {
    match prom_key(prom1, prom2, size) {
        Some(key) => bank_base(key.1) + 0x10000 * (key.0 - 1) + 0x8000 <= size,
        None => true,
    }
}

/// Depth and bank that a request for `bpp` planes of a PROM pair's bank is
/// served by: one already decoded, or one that the tile ROM reaches.
pub open spec fn served_key(
    keys: Seq<(u8, u8)>,
    prom1: u8,
    prom2: u8,
    bpp: u8,
    size: int,
) -> Option<(u8, u8)> {
    let key = (bpp, prom_bank(prom1, prom2));
    if key.1 != 0 && (keys.contains(key) || bank_base(key.1) < size) {
        Some(key)
    } else {
        None
    }
}

/// Every decoded bank starts within the tile ROM.
pub open spec fn within(keys: Seq<(u8, u8)>, size: int) -> bool {
    forall|i: int| 0 <= i < keys.len() ==> bank_base(#[trigger] keys[i].1) < size
}

/// Banks decoded so far, with one more added on its first use.
pub open spec fn keys_with(keys: Seq<(u8, u8)>, key: Option<(u8, u8)>) -> Seq<(u8, u8)> {
    match key {
        Some(k) => if keys.contains(k) {
            keys
        } else {
            keys.push(k)
        },
        None => keys,
    }
}

/// Key of the playfield entry `i`, and of the motion-object entry `i`.
pub open spec fn pf_key(prom: Seq<u8>, size: int, i: int) -> Option<(u8, u8)> {
    prom_key(prom[i], prom[0x200 + i], size)
}

pub open spec fn mo_key(prom: Seq<u8>, size: int, i: int) -> Option<(u8, u8)> {
    prom_key(prom[0x100 + i], prom[0x300 + i], size)
}

/// Banks in the order in which the first `n` entry pairs first use them.
pub open spec fn keys_upto(prom: Seq<u8>, size: int, n: nat) -> Seq<(u8, u8)>
    decreases n,
{
    if n == 0 {
        Seq::empty()
    } else {
        keys_with(
            keys_with(keys_upto(prom, size, (n - 1) as nat), pf_key(prom, size, n - 1)),
            mo_key(prom, size, n - 1),
        )
    }
}

/// Where a key stands in the list.
pub open spec fn position(keys: Seq<(u8, u8)>, key: (u8, u8)) -> int
    decreases keys.len(),
{
    if keys.len() == 0 {
        0
    } else if keys.last() == key {
        keys.len() - 1
    } else {
        position(keys.drop_last(), key)
    }
}

/// Bank number of a key: its place after the placeholder, 0 for none.
pub open spec fn bank_id(keys: Seq<(u8, u8)>, key: Option<(u8, u8)>) -> u8 {
    match key {
        Some(k) => (1 + position(keys, k)) as u8,
        None => 0,
    }
}

/// Playfield remap word of a PROM pair. Without a bank it names the first one,
/// code and colour 0.
pub open spec fn pf_word(prom1: u8, prom2: u8, id: u8) -> u16 {
    if id == 0 {
        1u16 << 8
    } else {
        (prom1 & 0x0F) as u16 | (id as u16) << 8 | (((!prom2 & 0x0F) >> ((prom_depth(prom2)
            - 4) as u8)) as u16) << 12
    }
}

/// Motion-object remap word of a PROM pair. Without a bank it names the
/// placeholder, which shows nothing.
pub open spec fn mo_word(prom1: u8, prom2: u8, id: u8) -> u16 {
    (prom1 & 0x0F) as u16 | (id as u16) << 8 | (((!prom2 & 0x07) >> ((prom_depth(prom2)
        - 4) as u8)) as u16) << 12
}

proof fn lemma_position_kept(keys: Seq<(u8, u8)>, more: Option<(u8, u8)>, k: (u8, u8))
    requires
        keys.contains(k),
    ensures
        keys_with(keys, more).contains(k),
        position(keys_with(keys, more), k) == position(keys, k),
{
    if let Some(m) = more {
        if !keys.contains(m) {
            let grown = keys.push(m);
            assert(grown.drop_last() =~= keys);
            let i = choose|i: int| 0 <= i < keys.len() && keys[i] == k;
            assert(grown[i] == k);
        }
    }
}

proof fn lemma_keys_kept(prom: Seq<u8>, size: int, n: nat, m: nat, k: (u8, u8))
    requires
        n <= m,
        keys_upto(prom, size, n).contains(k),
    ensures
        keys_upto(prom, size, m).contains(k),
        position(keys_upto(prom, size, m), k) == position(keys_upto(prom, size, n), k),
    decreases m - n,
{
    if n < m {
        lemma_keys_kept(prom, size, n, (m - 1) as nat, k);
        let before = keys_upto(prom, size, (m - 1) as nat);
        lemma_position_kept(before, pf_key(prom, size, m - 1), k);
        lemma_position_kept(keys_with(before, pf_key(prom, size, m - 1)), mo_key(prom, size, m - 1), k);
    }
}

proof fn lemma_position_at(keys: Seq<(u8, u8)>, i: int)
    requires
        0 <= i < keys.len(),
        forall|j: int| i < j < keys.len() ==> keys[j] != keys[i],
    ensures
        position(keys, keys[i]) == i,
    decreases keys.len(),
{
    if i < keys.len() - 1 {
        let shorter = keys.drop_last();
        assert(shorter[i] == keys[i]);
        lemma_position_at(shorter, i);
    }
}

/// No bank is decoded twice.
pub open spec fn distinct(keys: Seq<(u8, u8)>) -> bool {
    forall|i: int, j: int| 0 <= i < j < keys.len() ==> keys[i] != keys[j]
}

/// `banks` is the placeholder followed by the decoded banks of `keys`.
pub open spec fn banks_match(banks: Seq<GfxBank>, keys: Seq<(u8, u8)>, tiles: Seq<u8>) -> bool {
    &&& banks.len() == keys.len() + 1
    &&& banks[0].is_blank()
    &&& forall|k: int| 0 <= k < keys.len() ==> banks[k + 1].decodes(tiles, #[trigger] keys[k])
}

/// Decode one bank of the tile ROM.
fn decode_bank(tiles: &[u8], index: u8, bpp: u8) -> (b: GfxBank)
    requires
        1 <= index <= 7,
        4 <= bpp <= 6,
        bank_base(index) + 0x10000 * (bpp - 1) + 0x8000 <= tiles@.len(),
        8 * tiles@.len() <= usize::MAX,
    ensures
        b.decodes(tiles@, (bpp, index)),
{
    let base: usize = 0x80000 * (index as usize - 1);
    let rom: Vec<u8> = copied_range(tiles, base, tiles.len());
    assert(rom@ =~= tiles@.skip(base as int));
    let layout: GfxLayout = tile_layout(bpp);
    proof {
        assert forall|x: int, y: int, p: int|
            0 <= x < layout.x_offsets@.len() && 0 <= y < layout.y_offsets@.len() && 0 <= p
                < layout.plane_offsets@.len() implies #[trigger] layout.x_offsets@[x]
            + #[trigger] layout.y_offsets@[y] + #[trigger] layout.plane_offsets@[p] < 64 + 0x80000 * (
        bpp - 1) by {
            assert(layout.plane_offsets@[p] == 0x80000 * p);
        }
        layout.lemma_fits(rom@.len() as int, 4096, 64, 64 + 0x80000 * (bpp - 1));
    }
    GfxBank { cache: decode_gfx(rom.as_slice(), TILES_PER_BANK, &layout), bpp }
}

/// Number of the bank that a PROM pair selects, at `bpp` planes, decoding it on
/// first use; 0 where the pair selects none or the tile ROM does not reach it.
pub fn get_pf_bank(
    prom1: u8,
    prom2: u8,
    bpp: u8,
    tiles: &[u8],
    banks: &mut Vec<GfxBank>,
    keys: &mut Vec<(u8, u8)>,
) -> (id: u8)
    requires
        4 <= bpp <= 6,
        8 * tiles@.len() <= usize::MAX,
        distinct(old(keys)@),
        banks_match(old(banks)@, old(keys)@, tiles@),
        ({
            let key = served_key(old(keys)@, prom1, prom2, bpp, tiles@.len() as int);
            key is Some && !old(keys)@.contains(key->Some_0) ==> bank_base(key->Some_0.1) + 0x10000 * (
            bpp - 1) + 0x8000 <= tiles@.len()
        }),
    ensures
        ({
            let key = served_key(old(keys)@, prom1, prom2, bpp, tiles@.len() as int);
            &&& old(banks)@.len() <= 255 ==> (id == 0) == (key is None)
            &&& id == bank_id(final(keys)@, key)
            &&& final(keys)@ == keys_with(old(keys)@, key)
            &&& key is None || old(keys)@.contains(key->Some_0) ==> *final(banks) == *old(banks)
            &&& key is Some && !old(keys)@.contains(key->Some_0) ==> {
                &&& id == old(banks)@.len() as u8
                &&& final(banks)@ == old(banks)@.push(final(banks)@.last())
                &&& final(banks)@.last().bpp == bpp
            }
        }),
        distinct(final(keys)@),
        banks_match(final(banks)@, final(keys)@, tiles@),
{
    let index: u8 = if prom1 & 0x10 == 0 {
        1
    } else if prom1 & 0x20 == 0 {
        2
    } else if prom1 & 0x40 == 0 {
        3
    } else if prom1 & 0x80 == 0 {
        4
    } else if prom2 & 0x40 == 0 {
        5
    } else if prom2 & 0x80 == 0 {
        if prom2 & 0x08 == 0 {
            7
        } else {
            6
        }
    } else {
        return 0;
    };
    let ghost key = (bpp, index);
    let mut i: usize = 0;
    while i < keys.len()
        invariant
            i <= keys@.len(),
            *keys == *old(keys),
            *banks == *old(banks),
            key == (bpp, index),
            distinct(keys@),
            banks_match(banks@, keys@, tiles@),
            1 <= index == prom_bank(prom1, prom2) <= 7,
            forall|j: int| 0 <= j < i ==> keys@[j] != key,
        decreases keys@.len() - i,
    {
        let k: (u8, u8) = keys[i];
        if k.0 == bpp && k.1 == index {
            proof {
                assert(keys@[i as int] == key);
                lemma_position_at(keys@, i as int);
            }
            return (i + 1) as u8;
        }
        i += 1;
    }
    assert(!keys@.contains(key));
    let base: usize = 0x80000 * (index as usize - 1);
    if base >= tiles.len() {
        return 0;
    }
    let bank: GfxBank = decode_bank(tiles, index, bpp);
    let id: u8 = banks.len() as u8;
    banks.push(bank);
    keys.push((bpp, index));
    proof {
        lemma_position_at(keys@, keys@.len() - 1);
        assert forall|k: int| 0 <= k < keys@.len() implies banks@[k + 1].decodes(tiles@, #[trigger] keys@[k]) by {
            if k < keys@.len() - 1 {
                assert(keys@[k] == old(keys)@[k]);
            }
        }
    }
    id
}

/// Bit depth that the second mapping PROM selects.
fn depth_of(prom2: u8) -> (bpp: u8)
    ensures
        bpp == prom_depth(prom2),
{
    if prom2 & 0x10 != 0 {
        if prom2 & 0x20 != 0 {
            6
        } else {
            5
        }
    } else {
        4
    }
}

/// For banks within the tile ROM, a PROM pair's own request is served by the
/// bank that the pair needs.
proof fn lemma_served(keys: Seq<(u8, u8)>, prom1: u8, prom2: u8, size: int)
    requires
        within(keys, size),
    ensures
        served_key(keys, prom1, prom2, prom_depth(prom2), size) == prom_key(prom1, prom2, size),
        within(keys_with(keys, prom_key(prom1, prom2, size)), size),
{
}

/// Banks of the first `n` entry pairs keep their numbers when pair `n` is
/// taken, and that pair's own banks are numbered then.
proof fn lemma_entry(prom: Seq<u8>, size: int, n: nat)
    ensures
        ({
            let before = keys_upto(prom, size, n);
            let middle = keys_with(before, pf_key(prom, size, n as int));
            let keys = keys_upto(prom, size, n + 1);
            &&& forall|key: (u8, u8)| #[trigger]
                before.contains(key) ==> keys.contains(key) && position(keys, key) == position(
                    before,
                    key,
                )
            &&& bank_id(keys, pf_key(prom, size, n as int)) == bank_id(middle, pf_key(prom, size, n as int))
            &&& pf_key(prom, size, n as int) is Some ==> keys.contains(pf_key(prom, size, n as int)->Some_0)
            &&& mo_key(prom, size, n as int) is Some ==> keys.contains(mo_key(prom, size, n as int)->Some_0)
        }),
{
    let before = keys_upto(prom, size, n);
    let pf = pf_key(prom, size, n as int);
    let mo = mo_key(prom, size, n as int);
    let middle = keys_with(before, pf);
    let keys = keys_upto(prom, size, n + 1);
    assert(keys == keys_with(middle, mo));
    lemma_added(before, pf);
    lemma_added(middle, mo);
    if pf is Some {
        lemma_position_kept(middle, mo, pf->Some_0);
    }
    assert forall|key: (u8, u8)| #[trigger] before.contains(key) implies keys.contains(key) && position(keys, key)
        == position(before, key) by {
        lemma_position_kept(before, pf, key);
        lemma_position_kept(middle, mo, key);
    }
}

/// What `build_tile_gfx` makes of the mapping PROMs and the tile ROM.
pub open spec fn built_from(g: PlayfieldGfx, prom: Seq<u8>, tiles: Seq<u8>) -> bool {
    let size = tiles.len() as int;
    let keys = keys_upto(prom, size, 256);
    &&& g.wf()
    &&& banks_match(g.banks@, keys, tiles)
    &&& forall|i: int|
        0 <= i < 256 ==> #[trigger] g.lookup@[i] == pf_word(
            prom[i],
            prom[0x200 + i],
            bank_id(keys, pf_key(prom, size, i)),
        )
    &&& forall|i: int|
        0 <= i < 256 ==> #[trigger] g.mo_lookup@[i] == mo_word(
            prom[0x100 + i],
            prom[0x300 + i],
            bank_id(keys, mo_key(prom, size, i)),
        )
}

/// Build the remap words and decode the tile banks they use, out of the mapping
/// PROMs and the tile ROM. The PROM image holds the playfield half of both
/// PROMs at 0x000 and 0x200, and the motion-object half at 0x100 and 0x300.
pub fn build_tile_gfx(prom: &[u8], tiles: &[u8]) -> (gfx: PlayfieldGfx)
    requires
        prom@.len() >= 0x400,
        8 * tiles@.len() <= usize::MAX,
        forall|i: int|
            0 <= i < 256 ==> #[trigger] key_fits(prom@[i], prom@[0x200 + i], tiles@.len() as int),
        forall|i: int|
            0 <= i < 256 ==> #[trigger] key_fits(
                prom@[0x100 + i],
                prom@[0x300 + i],
                tiles@.len() as int,
            ),
    ensures
        built_from(gfx, prom@, tiles@),
{
    let mut gfx: PlayfieldGfx = PlayfieldGfx::empty();
    let mut keys: Vec<(u8, u8)> = Vec::new();
    let ghost size = tiles@.len() as int;
    let mut i: usize = 0;
    while i < 256
        invariant
            i <= 256,
            prom@.len() >= 0x400,
            size == tiles@.len(),
            8 * tiles@.len() <= usize::MAX,
            forall|k: int|
                0 <= k < 256 ==> #[trigger] key_fits(prom@[k], prom@[0x200 + k], tiles@.len() as int),
            forall|k: int|
                0 <= k < 256 ==> #[trigger] key_fits(
                    prom@[0x100 + k],
                    prom@[0x300 + k],
                    tiles@.len() as int,
                ),
            gfx.lookup@.len() == 256,
            gfx.mo_lookup@.len() == 256,
            keys@ == keys_upto(prom@, size, i as nat),
            distinct(keys@),
            within(keys@, size),
            banks_match(gfx.banks@, keys@, tiles@),
            forall|k: int|
                0 <= k < i ==> pf_key(prom@, size, k) is Some ==> keys@.contains(#[trigger] pf_key(prom@, size, k)->Some_0),
            forall|k: int|
                0 <= k < i ==> mo_key(prom@, size, k) is Some ==> keys@.contains(#[trigger] mo_key(prom@, size, k)->Some_0),
            forall|k: int|
                0 <= k < i ==> #[trigger] gfx.lookup@[k] == pf_word(
                    prom@[k],
                    prom@[0x200 + k],
                    bank_id(keys@, pf_key(prom@, size, k)),
                ),
            forall|k: int|
                0 <= k < i ==> #[trigger] gfx.mo_lookup@[k] == mo_word(
                    prom@[0x100 + k],
                    prom@[0x300 + k],
                    bank_id(keys@, mo_key(prom@, size, k)),
                ),
        decreases 256 - i,
    {
        let ghost before = keys@;
        let p1: u8 = prom[i];
        let p2: u8 = prom[0x200 + i];
        assert(key_fits(prom@[i as int], prom@[0x200 + i as int], tiles@.len() as int));
        let bpp: u8 = depth_of(p2);
        proof {
            lemma_served(before, p1, p2, size);
        }
        let bank: u8 = get_pf_bank(p1, p2, bpp, tiles, &mut gfx.banks, &mut keys);
        let ghost middle = keys@;
        gfx.lookup[i] = if bank == 0 {
            1u16 << 8
        } else {
            (p1 & 0x0F) as u16 | (bank as u16) << 8 | (((!p2 & 0x0F) >> (bpp - 4)) as u16) << 12
        };
        let m1: u8 = prom[0x100 + i];
        let m2: u8 = prom[0x300 + i];
        assert(key_fits(prom@[0x100 + i as int], prom@[0x300 + i as int], tiles@.len() as int));
        let mbpp: u8 = depth_of(m2);
        proof {
            lemma_served(middle, m1, m2, size);
        }
        let mo_bank: u8 = get_pf_bank(m1, m2, mbpp, tiles, &mut gfx.banks, &mut keys);
        gfx.mo_lookup[i] = (m1 & 0x0F) as u16 | (mo_bank as u16) << 8 | (((!m2 & 0x07) >> (mbpp
            - 4)) as u16) << 12;
        proof {
            lemma_entry(prom@, size, i as nat);
        }
        i += 1;
    }
    assert forall|b: int| 0 <= b < gfx.banks@.len() implies (#[trigger] gfx.banks@[b]).wf() by {
        if b > 0 {
            assert(gfx.banks@[(b - 1) + 1].decodes(tiles@, keys@[b - 1]));
        }
    }
    gfx
}

proof fn lemma_added(keys: Seq<(u8, u8)>, key: Option<(u8, u8)>)
    ensures
        key is Some ==> keys_with(keys, key).contains(key->Some_0),
{
    if key is Some && !keys.contains(key->Some_0) {
        assert(keys.push(key->Some_0).last() == key->Some_0);
    }
}

proof fn lemma_position_finds(keys: Seq<(u8, u8)>, k: (u8, u8))
    requires
        keys.contains(k),
    ensures
        0 <= position(keys, k) < keys.len(),
        keys[position(keys, k)] == k,
    decreases keys.len(),
{
    if keys.last() != k {
        let shorter = keys.drop_last();
        let i = choose|i: int| 0 <= i < keys.len() && keys[i] == k;
        assert(shorter[i] == k);
        lemma_position_finds(shorter, k);
    }
}

/// What an entry of the mapping PROMs shows. Playfield entry `i` is the pair at
/// `i` and `0x200 + i`, motion-object entry `i` the pair at `0x100 + i` and
/// `0x300 + i`. The bank number in its remap word names a decoded bank of the
/// depth and the part of the tile ROM that the pair selects; where the tile ROM
/// does not reach that part, the entry names no bank of its own.
pub proof fn law_entry_names_its_bank(g: PlayfieldGfx, prom: Seq<u8>, tiles: Seq<u8>, i: int)
    requires
        built_from(g, prom, tiles),
        0 <= i < 256,
    ensures
        exists|id: u8|
            #[trigger] held_at(g, tiles, id, prom[i], prom[0x200 + i]) && g.lookup@[i] == pf_word(
                prom[i],
                prom[0x200 + i],
                id,
            ),
        exists|id: u8|
            #[trigger] held_at(g, tiles, id, prom[0x100 + i], prom[0x300 + i]) && g.mo_lookup@[i]
                == mo_word(prom[0x100 + i], prom[0x300 + i], id),
{
    let size = tiles.len() as int;
    let keys = keys_upto(prom, size, 256);
    lemma_entry(prom, size, i as nat);
    let pf = pf_key(prom, size, i);
    let mo = mo_key(prom, size, i);
    if pf is Some {
        lemma_keys_kept(prom, size, (i + 1) as nat, 256, pf->Some_0);
    }
    if mo is Some {
        lemma_keys_kept(prom, size, (i + 1) as nat, 256, mo->Some_0);
    }
    lemma_held(g, prom, tiles, prom[i], prom[0x200 + i]);
    lemma_held(g, prom, tiles, prom[0x100 + i], prom[0x300 + i]);
    assert(held_at(g, tiles, bank_id(keys, pf), prom[i], prom[0x200 + i]));
    assert(held_at(g, tiles, bank_id(keys, mo), prom[0x100 + i], prom[0x300 + i]));
}

proof fn lemma_held(g: PlayfieldGfx, prom: Seq<u8>, tiles: Seq<u8>, p1: u8, p2: u8)
    requires
        built_from(g, prom, tiles),
        prom_key(p1, p2, tiles.len() as int) is Some ==> keys_upto(prom, tiles.len() as int, 256).contains(
            prom_key(p1, p2, tiles.len() as int)->Some_0,
        ),
    ensures
        held_at(
            g,
            tiles,
            bank_id(keys_upto(prom, tiles.len() as int, 256), prom_key(p1, p2, tiles.len() as int)),
            p1,
            p2,
        ),
{
    let keys = keys_upto(prom, tiles.len() as int, 256);
    let key = prom_key(p1, p2, tiles.len() as int);
    if key is Some {
        let n = position(keys, key->Some_0);
        lemma_position_finds(keys, key->Some_0);
        assert(g.banks@[n + 1].decodes(tiles, keys[n]));
    }
}

/// Bank `id` is the bank that a PROM pair selects, decoded at the depth it
/// selects, where the tile ROM reaches it, and 0 where it does not. Numbers are
/// a byte wide.
pub open spec fn held_at(g: PlayfieldGfx, tiles: Seq<u8>, id: u8, p1: u8, p2: u8) -> bool {
    let index = prom_bank(p1, p2);
    if index != 0 && 0x8_0000 * (index - 1) < tiles.len() {
        exists|n: int|
            0 < n < g.banks@.len() && (#[trigger] g.banks@[n]).decodes(tiles, (prom_depth(p2), index))
                && id == n as u8
    } else {
        id == 0
    }
}

/// A nibble repeated into both halves of a byte.
pub open spec fn expand4(n: int) -> int {
    (n % 16) * 17
}

/// RGB of a palette word: intensity, red, green and blue nibbles, each repeated
/// into a byte, and each component scaled by the intensity.
pub open spec fn irgb4444(raw: u16) -> (u8, u8, u8) {
    let i = expand4(raw as int / 4096);
    (
        (i * expand4(raw as int / 256) / 256) as u8,
        (i * expand4(raw as int / 16) / 256) as u8,
        (i * expand4(raw as int) / 256) as u8,
    )
}

fn expanded(n: u16) -> (v: u32)
    ensures
        v == expand4(n as int),
        v <= 255,
{
    (n % 16) as u32 * 17
}

/// Colour of a palette word.
pub fn irgb4444_to_rgb(raw: u16) -> (rgb: (u8, u8, u8))
    ensures
        rgb == irgb4444(raw),
{
    let i: u32 = expanded(raw / 4096);
    let r: u32 = expanded(raw / 256);
    let g: u32 = expanded(raw / 16);
    let b: u32 = expanded(raw);
    assert(i * r <= 255 * 255 && i * g <= 255 * 255 && i * b <= 255 * 255) by (nonlinear_arith)
        requires
            i <= 255,
            r <= 255,
            g <= 255,
            b <= 255,
    ;
    ((i * r / 256) as u8, (i * g / 256) as u8, (i * b / 256) as u8)
}

/// Raster timing: the CPU and pixel clocks are one signal, 456 by 262.
pub open spec fn spec_timing() -> TimingConfig {
    TimingConfig {
        cpu_clock_hz: 7_159_090,
        cycles_per_scanline: 456,
        total_scanlines: 262,
        display_width: 336,
        display_height: 240,
        display_aspect: Some((4u32, 3u32)),
    }
}

pub fn timing() -> (t: TimingConfig)
    ensures
        t == spec_timing(),
        t.frame_cycles() == FRAME_CYCLES,
{
    TimingConfig {
        cpu_clock_hz: 7_159_090,
        cycles_per_scanline: 456,
        total_scanlines: 262,
        display_width: 336,
        display_height: 240,
        display_aspect: Some((4, 3)),
    }
}

/// The 14.318181 MHz crystal and the clocks divided out of it. The speech clock
/// is declared at its nominal divider.
pub fn clock_tree() -> (t: ClockTree)
    ensures
        t.root_hz == 14_318_181,
        t.domains@.len() == 6,
        t.ratio(ClockDomainName::Cpu) == Some((1u32, 2u32)),
        t.ratio(ClockDomainName::Pixel) == Some((1u32, 2u32)),
        t.ratio(ClockDomainName::SoundCpu) == Some((1u32, 8u32)),
        t.ratio(ClockDomainName::Pokey) == Some((1u32, 8u32)),
        t.ratio(ClockDomainName::Psg) == Some((1u32, 4u32)),
        t.ratio(ClockDomainName::Speech) == Some((1u32, 22u32)),
        t.step == ClockDomainName::Cpu,
        t.raster == ClockDomainName::Pixel,
        t.dots_per_line == spec_timing().cycles_per_scanline,
{
    let mut domains: Vec<ClockDomain> = Vec::new();
    domains.push(ClockDomain { name: ClockDomainName::Cpu, multiply: 1, divide: 2 });
    domains.push(ClockDomain { name: ClockDomainName::Pixel, multiply: 1, divide: 2 });
    domains.push(ClockDomain { name: ClockDomainName::SoundCpu, multiply: 1, divide: 8 });
    domains.push(ClockDomain { name: ClockDomainName::Pokey, multiply: 1, divide: 8 });
    domains.push(ClockDomain { name: ClockDomainName::Psg, multiply: 1, divide: 4 });
    domains.push(ClockDomain { name: ClockDomainName::Speech, multiply: 1, divide: 22 });
    proof {
        reveal_with_fuel(ratio_in, 7);
    }
    ClockTree {
        root_hz: 14_318_181,
        domains,
        step: ClockDomainName::Cpu,
        raster: ClockDomainName::Pixel,
        dots_per_line: 456,
    }
}

/// Start and size of a memory in the main CPU's map.
pub open spec fn span(r: Region) -> (int, int) {
    match r {
        Region::Rom => (0x00_0000, 0x8_0000),
        Region::Ram => (0x40_0000, 0x2000),
        Region::CartRam => (0x90_0000, 0x10_0000),
        Region::Playfield => (0xA0_0000, 0x2000),
        Region::Mob => (0xA0_2000, 0x1000),
        Region::Alpha => (0xA0_3000, 0x1000),
        Region::Palette => (0xB0_0000, 0x800),
    }
}

/// Whether an address falls in a memory.
pub open spec fn in_region(r: Region, addr: u32) -> bool {
    span(r).0 <= addr < span(r).0 + span(r).1
}

/// The memory behind an address and the offset into it.
pub open spec fn region_at(addr: u32) -> Option<(Region, u32)> {
    if in_region(Region::Rom, addr) {
        Some((Region::Rom, addr))
    } else if in_region(Region::Ram, addr) {
        Some((Region::Ram, (addr - 0x40_0000) as u32))
    } else if in_region(Region::CartRam, addr) {
        Some((Region::CartRam, (addr - 0x90_0000) as u32))
    } else if in_region(Region::Playfield, addr) {
        Some((Region::Playfield, (addr - 0xA0_0000) as u32))
    } else if in_region(Region::Mob, addr) {
        Some((Region::Mob, (addr - 0xA0_2000) as u32))
    } else if in_region(Region::Alpha, addr) {
        Some((Region::Alpha, (addr - 0xA0_3000) as u32))
    } else if in_region(Region::Palette, addr) {
        Some((Region::Palette, (addr - 0xB0_0000) as u32))
    } else {
        None
    }
}

/// The main CPU's memory map: which memory an address reaches, and where.
pub fn build_map(addr: u32) -> (r: Option<(Region, u32)>)
    ensures
        r == region_at(addr),
{
    if addr < 0x08_0000 {
        Some((Region::Rom, addr))
    } else if 0x40_0000 <= addr && addr < 0x40_2000 {
        Some((Region::Ram, addr - 0x40_0000))
    } else if 0x90_0000 <= addr && addr < 0xA0_0000 {
        Some((Region::CartRam, addr - 0x90_0000))
    } else if 0xA0_0000 <= addr && addr < 0xA0_2000 {
        Some((Region::Playfield, addr - 0xA0_0000))
    } else if 0xA0_2000 <= addr && addr < 0xA0_3000 {
        Some((Region::Mob, addr - 0xA0_2000))
    } else if 0xA0_3000 <= addr && addr < 0xA0_4000 {
        Some((Region::Alpha, addr - 0xA0_3000))
    } else if 0xB0_0000 <= addr && addr < 0xB0_0800 {
        Some((Region::Palette, addr - 0xB0_0000))
    } else {
        None
    }
}

/// The memories of the map do not overlap: an address reaches at most one, and
/// an offset within it.
pub proof fn law_regions_are_disjoint(addr: u32, r: Region)
    ensures
        in_region(r, addr) <==> (region_at(addr) is Some && region_at(addr)->Some_0.0 == r),
        in_region(r, addr) ==> region_at(addr)->Some_0.1 == addr - span(r).0,
{
}

/// Big-endian word `w` of a memory.
pub open spec fn word(mem: Seq<u8>, w: int) -> u16 {
    (mem[2 * w] * 256 + mem[2 * w + 1]) as u16
}

fn word_at(mem: &Vec<u8>, w: usize) -> (v: u16)
    requires
        2 * w + 1 < mem.len(),
    ensures
        v == word(mem@, w as int),
{
    mem[2 * w] as u16 * 256 + mem[2 * w + 1] as u16
}

/// The System 1 board, apart from its CPU and protection chip.
pub struct AtariSystem1Board {
    pub rom: Vec<u8>,
    pub ram: Vec<u8>,
    pub cart_ram: Vec<u8>,
    pub playfield_ram: Vec<u8>,
    /// Motion-object RAM: eight banks of 64 entries of four words.
    pub mob: Vec<u8>,
    pub alpha: Vec<u8>,
    pub palette: Vec<u8>,
    /// The four banks of the protected ROM window.
    pub slapstic_rom: Vec<u8>,
    pub eeprom: Vec<u8>,
    /// One write is allowed.
    pub eeprom_unlocked: bool,
    /// Writes the EEPROM took.
    pub eeprom_writes: u64,
    /// Text font.
    pub alpha_cache: GfxCache,
    pub playfield: PlayfieldGfx,
    pub xscroll: u16,
    pub yscroll: u16,
    pub priority_pens: u16,
    /// Sound reset, motion-object bank, playfield tile bank.
    pub bankselect: u8,
    /// Switches, low when pressed.
    pub f60000_buttons: u8,
    pub video_int: bool,
    pub scanline_int: bool,
    /// The cartridge has the scanline-interrupt circuit.
    pub has_scanline_int: bool,
    pub int2: bool,
    pub sound: AtariSystem1Sound,
    pub clock: u64,
    pub watchdog_count: u8,
    pub framebuffer: Vec<u8>,
}

/// The board as a mathematical value: memories as sequences.
#[verifier::ext_equal]
pub struct System1View {
    pub rom: Seq<u8>,
    pub ram: Seq<u8>,
    pub cart_ram: Seq<u8>,
    pub playfield_ram: Seq<u8>,
    pub mob: Seq<u8>,
    pub alpha: Seq<u8>,
    pub palette: Seq<u8>,
    pub slapstic_rom: Seq<u8>,
    pub eeprom: Seq<u8>,
    pub eeprom_unlocked: bool,
    pub eeprom_writes: u64,
    pub alpha_cache: GfxCache,
    pub playfield: PlayfieldGfx,
    pub xscroll: u16,
    pub yscroll: u16,
    pub priority_pens: u16,
    pub bankselect: u8,
    pub f60000_buttons: u8,
    pub video_int: bool,
    pub scanline_int: bool,
    pub has_scanline_int: bool,
    pub int2: bool,
    pub sound: System1SoundView,
    pub clock: u64,
    pub watchdog_count: u8,
    pub framebuffer: Seq<u8>,
}

impl View for AtariSystem1Board {
    type V = System1View;

    open spec fn view(&self) -> System1View {
        System1View {
            rom: self.rom@,
            ram: self.ram@,
            cart_ram: self.cart_ram@,
            playfield_ram: self.playfield_ram@,
            mob: self.mob@,
            alpha: self.alpha@,
            palette: self.palette@,
            slapstic_rom: self.slapstic_rom@,
            eeprom: self.eeprom@,
            eeprom_unlocked: self.eeprom_unlocked,
            eeprom_writes: self.eeprom_writes,
            alpha_cache: self.alpha_cache,
            playfield: self.playfield,
            xscroll: self.xscroll,
            yscroll: self.yscroll,
            priority_pens: self.priority_pens,
            bankselect: self.bankselect,
            f60000_buttons: self.f60000_buttons,
            video_int: self.video_int,
            scanline_int: self.scanline_int,
            has_scanline_int: self.has_scanline_int,
            int2: self.int2,
            sound: self.sound@,
            clock: self.clock,
            watchdog_count: self.watchdog_count,
            framebuffer: self.framebuffer@,
        }
    }
}

/// Palette bits that a tile depth shifts its colour by, as a factor.
pub open spec fn depth_factor(bpp: u8) -> int {
    if bpp == 4 {
        2
    } else if bpp == 5 {
        4
    } else {
        8
    }
}

/// Vertical offset of screen row `y` within the object that `w0` places. The
/// object layer is offset by 256 rows and positions wrap at 512.
pub open spec fn mo_offset(w0: u16, y: int) -> int {
    (y + (w0 as int / 32) % 512 + 256 + mo_height(w0)) % 512
}

/// Height in rows of the object that `w0` describes.
pub open spec fn mo_height(w0: u16) -> int {
    8 * (w0 as int % 16 + 1)
}

proof fn lemma_object_offset(sy: int, y: int, height: int, ypos: int)
    requires
        0 <= sy < VISIBLE_HEIGHT,
        0 <= y < 512,
        8 <= height <= 128,
        ypos == (768 - y - height) % 512,
    ensures
        0 <= ypos < 512,
        ypos < VISIBLE_HEIGHT && ypos <= sy ==> (sy + y + 256 + height) % 512 == sy - ypos,
        ypos < VISIBLE_HEIGHT && ypos > sy ==> (sy + y + 256 + height) % 512 >= 273,
        ypos >= VISIBLE_HEIGHT ==> (sy + y + 256 + height) % 512 == sy - ypos + 512,
{
    let q = (768 - y - height) / 512;
    assert(768 - y - height == 512 * q + ypos);
    assert(q == -1 || q == 0 || q == 1);
}

/// Scanline that a timer entry with first word `w0` asks for.
pub open spec fn timer_line(w0: u16) -> int {
    (256 - w0 as int / 32 - mo_height(w0) - 1) % 512
}

/// Priority flag in an object pixel.
pub const PRIORITY_BIT: u16 = 0x1000;

/// A playfield pixel with an object pixel merged over it. A high-priority pen
/// blends through the translucent colours unless it is pen 1; a low-priority one
/// covers the playfield except where that shows a priority pen of colour 0.
pub open spec fn merged(pf: u16, m: u16, priority_pens: u16) -> u16 {
    if m & PRIORITY_BIT != 0 {
        if m & 0x0F != 1 {
            (0x300 + (pf & 0x0F) * 16 + (m & 0x0F)) as u16
        } else {
            pf
        }
    } else if pf & 0xF8 != 0 || priority_pens & (1u16 << (pf & 0x07)) == 0 {
        m
    } else {
        pf
    }
}

impl System1View {
    pub open spec fn wf(&self) -> bool {
        &&& self.rom.len() == 0x8_0000
        &&& self.ram.len() == 0x2000
        &&& self.cart_ram.len() == 0x10_0000
        &&& self.playfield_ram.len() == 0x2000
        &&& self.mob.len() == 0x1000
        &&& self.alpha.len() == 0x1000
        &&& self.palette.len() == 0x800
        &&& self.slapstic_rom.len() == 0x8000
        &&& self.eeprom.len() == 512
        &&& self.alpha_cache.wf()
        &&& self.alpha_cache.spec_count() == ALPHA_TILE_COUNT
        &&& self.alpha_cache.spec_width() == 8
        &&& self.alpha_cache.spec_height() == 8
        &&& self.playfield.wf()
        &&& self.sound.wf()
        &&& self.framebuffer.len() == 3 * VISIBLE_WIDTH * VISIBLE_HEIGHT
    }

    /// Scanline that the beam is on.
    pub open spec fn scanline(&self) -> int {
        (self.clock % FRAME_CYCLES) as int / 456
    }

    pub open spec fn vblank(&self) -> bool {
        self.scanline() >= VBLANK_SCANLINE
    }

    /// Switch port: live vertical blank on line 4 (low while blanking), a waiting
    /// sound command on line 7, and the upper byte high.
    pub open spec fn port_f60000(&self) -> u16 {
        0xFF00u16 | with_bit(
            with_bit(self.f60000_buttons, 4, !self.vblank()),
            7,
            self.sound.command_pending,
        ) as u16
    }

    /// The byte memories of the map.
    pub open spec fn memory(&self, r: Region) -> Seq<u8> {
        match r {
            Region::Rom => self.rom,
            Region::Ram => self.ram,
            Region::CartRam => self.cart_ram,
            Region::Playfield => self.playfield_ram,
            Region::Mob => self.mob,
            Region::Alpha => self.alpha,
            Region::Palette => self.palette,
        }
    }

    /// The board with a big-endian word stored in a memory; ROM takes none.
    pub open spec fn with_word(self, r: Region, off: int, data: u16) -> System1View {
        let mem = self.memory(r).update(off, (data / 256) as u8).update(off + 1, (data % 256) as u8);
        match r {
            Region::Rom => self,
            Region::Ram => System1View { ram: mem, ..self },
            Region::CartRam => System1View { cart_ram: mem, ..self },
            Region::Playfield => System1View { playfield_ram: mem, ..self },
            Region::Mob => System1View { mob: mem, ..self },
            Region::Alpha => System1View { alpha: mem, ..self },
            Region::Palette => System1View { palette: mem, ..self },
        }
    }

    /// What the main CPU reads, with the protection chip presenting `bank`.
    pub open spec fn read_word(&self, addr: u32, bank: u8) -> u16 {
        match region_at(addr) {
            Some((r, off)) => word(self.memory(r), off as int / 2),
            None => if 0x08_0000 <= addr < 0x08_8000 {
                word(self.slapstic_rom, (bank * 0x2000 + addr as int % 0x2000) / 2)
            } else if 0x2E_0000 <= addr <= 0x2E_0001 {
                if self.scanline_int {
                    0x0080
                } else {
                    0
                }
            } else if 0xF0_0000 <= addr < 0xF0_0400 {
                self.eeprom[(addr as int / 2) % 512] as u16
            } else if 0xF6_0000 <= addr < 0xF6_0004 {
                self.port_f60000()
            } else if 0xFC_0000 <= addr <= 0xFC_0001 {
                self.sound.mainlatch as u16
            } else {
                0xFFFF
            },
        }
    }

    /// The board after a main-CPU read: reading the sound response acknowledges
    /// it.
    pub open spec fn after_read(self, addr: u32) -> System1View {
        if 0xFC_0000 <= addr <= 0xFC_0001 {
            System1View {
                sound: System1SoundView { response_pending: false, ..self.sound },
                ..self
            }
        } else {
            self
        }
    }

    /// The board after a main-CPU write.
    pub open spec fn after_write(self, addr: u32, data: u16) -> System1View {
        let byte = (data % 256) as u8;
        match region_at(addr) {
            Some((r, off)) => self.with_word(r, off as int, data),
            None => if 0x80_0000 <= addr <= 0x80_0001 {
                System1View { xscroll: data, ..self }
            } else if 0x82_0000 <= addr <= 0x82_0001 {
                System1View { yscroll: data, ..self }
            } else if 0x84_0000 <= addr <= 0x84_0001 {
                System1View { priority_pens: data, ..self }
            } else if 0x86_0000 <= addr <= 0x86_0001 {
                System1View {
                    bankselect: byte,
                    sound: self.sound.after_reset_line(byte & 0x80 == 0),
                    ..self
                }
            } else if 0x88_0000 <= addr <= 0x88_0001 {
                System1View { watchdog_count: 0, ..self }
            } else if 0x8A_0000 <= addr <= 0x8A_0001 {
                System1View { video_int: false, ..self }
            } else if 0x8C_0000 <= addr <= 0x8C_0001 {
                System1View { eeprom_unlocked: true, ..self }
            } else if 0xF0_0000 <= addr < 0xF0_0400 && self.eeprom_unlocked {
                System1View {
                    eeprom: self.eeprom.update((addr as int / 2) % 512, byte),
                    eeprom_unlocked: false,
                    eeprom_writes: (self.eeprom_writes + 1) as u64,
                    ..self
                }
            } else if 0xFE_0000 <= addr <= 0xFE_0001 {
                System1View { sound: self.sound.after_command(byte), ..self }
            } else {
                self
            },
        }
    }

    /// Interrupt level: a sound response, vertical blank, an object timer, the
    /// joystick converter; the highest wins.
    pub open spec fn level(&self) -> u8 {
        if self.sound.response_pending {
            6
        } else if self.video_int {
            4
        } else if self.scanline_int {
            3
        } else if self.int2 {
            2
        } else {
            0
        }
    }

    /// The board after the watchdog counts a frame; the count stops at its end.
    pub open spec fn after_watchdog(self) -> System1View {
        System1View {
            watchdog_count: if self.watchdog_count == 255 {
                255
            } else {
                (self.watchdog_count + 1) as u8
            },
            ..self
        }
    }

    /// Whether the coming frame end resets the machine.
    pub open spec fn watchdog_expires(&self) -> bool {
        self.watchdog_count >= 7
    }

    // -- Layers -------------------------------------------------------------

    /// Playfield colour index at screen position (`x`, `y`), if its bank exists.
    /// The map is 512 by 512 pixels and wraps.
    pub open spec fn pf_index(&self, x: int, y: int) -> Option<u16> {
        let sx = (x + self.xscroll) % 512;
        let sy = (y + self.yscroll) % 512;
        let data = word(self.playfield_ram, (sy / 8) * 64 + sx / 8);
        let l = self.playfield.lookup@[(data as int / 256) % 128 + 128 * ((self.bankselect as int
            / 4) % 2)];
        let id = (l as int / 256) % 16;
        let bank = self.playfield.banks@[id];
        let code = ((l as int % 256) * 256 + data as int % 256) % bank.cache.spec_count() as int;
        let color = 0x20 + (l as int / 4096) * depth_factor(bank.bpp);
        let px = if data >= 0x8000 { 7 - sx % 8 } else { sx % 8 };
        if id < self.playfield.banks@.len() {
            Some(((0x100 + color * 8 + bank.cache.at(code, px, sy % 8)) % 1024) as u16)
        } else {
            None
        }
    }

    /// Row `y` with the playfield drawn over it.
    pub open spec fn with_playfield(&self, row: Seq<u16>, y: int) -> Seq<u16> {
        Seq::new(
            row.len(),
            |x: int|
                match self.pf_index(x, y) {
                    Some(v) => v,
                    None => row[x],
                },
        )
    }

    /// Text colour index at screen position (`x`, `y`), unless it is transparent.
    pub open spec fn alpha_index(&self, x: int, y: int) -> Option<u16> {
        let data = word(self.alpha, (y / 8) * 64 + x / 8);
        let pen = self.alpha_cache.at(data as int % 512, x % 8, y % 8);
        if pen != 0 || data & 0x2000 != 0 {
            Some((((data as int / 1024) % 8) * 4 + pen) as u16)
        } else {
            None
        }
    }

    /// Row `y` with the text drawn over it.
    pub open spec fn with_alpha(&self, row: Seq<u16>, y: int) -> Seq<u16> {
        Seq::new(
            row.len(),
            |x: int|
                match self.alpha_index(x, y) {
                    Some(v) => v,
                    None => row[x],
                },
        )
    }

    /// Word `k` of motion-object entry `e` in the active bank. The four words of
    /// an entry lie 0x40 words apart.
    pub open spec fn mo_word_of(&self, e: int, k: int) -> u16 {
        word(self.mob, ((self.bankselect as int / 8) % 8) * 256 + 0x40 * k + e)
    }

    /// Entries of the active list from `link` on: each once, at most `n`.
    pub open spec fn chain(&self, visited: Set<int>, link: int, n: nat) -> Seq<int>
        decreases n,
    {
        if n == 0 || visited.contains(link) {
            Seq::empty()
        } else {
            seq![link] + self.chain(
                visited.insert(link),
                self.mo_word_of(link, 3) as int % 64,
                (n - 1) as nat,
            )
        }
    }

    /// Walking one entry: it moves from the rest of the list to the part walked.
    proof fn lemma_chain_step(&self, walked: Seq<int>, seen: Set<int>, link: int, n: nat)
        requires
            n > 0,
            !seen.contains(link),
        ensures
            ({
                let next = self.mo_word_of(link, 3) as int % 64;
                let rest = self.chain(seen.insert(link), next, (n - 1) as nat);
                &&& walked + self.chain(seen, link, n) == walked.push(link) + rest
                &&& (walked + self.chain(seen, link, n))[walked.len() as int] == link
                &&& walked.len() < (walked + self.chain(seen, link, n)).len()
            }),
    {
        let next = self.mo_word_of(link, 3) as int % 64;
        let rest = self.chain(seen.insert(link), next, (n - 1) as nat);
        assert(self.chain(seen, link, n) == seq![link] + rest);
        assert(walked + (seq![link] + rest) =~= walked.push(link) + rest);
    }

    /// One pixel of the line of entry `e` that crosses row `y`, with the
    /// entry's words and its bank worked out.
    proof fn lemma_mo_pixel(&self, e: int, x: int, y: int, id: int, code: int, dx: int)
        requires
            mo_offset(self.mo_word_of(e, 0), y) < mo_height(self.mo_word_of(e, 0)),
            dx == (x - (self.mo_word_of(e, 2) as int / 32) % 512) % 512,
            id == (self.playfield.mo_lookup@[self.mo_word_of(e, 1) as int / 256] as int / 256) % 16,
            id < self.playfield.banks@.len(),
            code == ((self.playfield.mo_lookup@[self.mo_word_of(e, 1) as int / 256] as int % 256)
                * 256 + self.mo_word_of(e, 1) as int % 256 + mo_offset(self.mo_word_of(e, 0), y) / 8)
                % self.playfield.banks@[id].cache.spec_count() as int,
        ensures
            ({
                let w0 = self.mo_word_of(e, 0);
                let l = self.playfield.mo_lookup@[self.mo_word_of(e, 1) as int / 256];
                let px = if w0 >= 0x8000 { 7 - dx } else { dx };
                let pen = self.playfield.banks@[id].cache.at(code, px, mo_offset(w0, y) % 8);
                self.mo_pixel(e, x, y) == if dx < 8 && pen != 0 {
                    Some(
                        (0x100 + (l as int / 4096) * 16 + pen) as u16 | (if self.mo_word_of(e, 2)
                            >= 0x8000 {
                            PRIORITY_BIT
                        } else {
                            0u16
                        }),
                    )
                } else {
                    None
                }
            }),
    {
        reveal(System1View::mo_pixel);
    }

    /// Object colour index of entry `e` at screen position (`x`, `y`), if it
    /// covers it with a visible pen.
    #[verifier::opaque]
    pub open spec fn mo_pixel(&self, e: int, x: int, y: int) -> Option<u16> {
        let w0 = self.mo_word_of(e, 0);
        let w1 = self.mo_word_of(e, 1);
        let w2 = self.mo_word_of(e, 2);
        let dy = mo_offset(w0, y);
        let dx = (x - (w2 as int / 32) % 512) % 512;
        let l = self.playfield.mo_lookup@[w1 as int / 256];
        let id = (l as int / 256) % 16;
        let bank = self.playfield.banks@[id];
        let code = ((l as int % 256) * 256 + w1 as int % 256 + dy / 8)
            % bank.cache.spec_count() as int;
        let px = if w0 >= 0x8000 { 7 - dx } else { dx };
        let pen = bank.cache.at(code, px, dy % 8);
        if dy < mo_height(w0) && dx < 8 && id < self.playfield.banks@.len() && pen != 0 {
            Some(
                (0x100 + (l as int / 4096) * 16 + pen) as u16 | (if w2 >= 0x8000 {
                    PRIORITY_BIT
                } else {
                    0u16
                }),
            )
        } else {
            None
        }
    }

    /// Object row `y` with entry `e` drawn over it.
    pub open spec fn with_object(&self, row: Seq<Option<u16>>, e: int, y: int) -> Seq<Option<u16>> {
        Seq::new(
            row.len(),
            |x: int|
                match self.mo_pixel(e, x, y) {
                    Some(v) => Some(v),
                    None => row[x],
                },
        )
    }

    /// Object row `y`: the listed entries drawn in order over nothing.
    pub open spec fn object_row(&self, entries: Seq<int>, y: int) -> Seq<Option<u16>>
        decreases entries.len(),
    {
        if entries.len() == 0 {
            Seq::new(VISIBLE_WIDTH as nat, |x: int| None)
        } else {
            self.with_object(self.object_row(entries.drop_last(), y), entries.last(), y)
        }
    }

    /// Row `y` with the motion objects merged over it.
    pub open spec fn with_objects(&self, row: Seq<u16>, y: int) -> Seq<u16> {
        let objects = self.object_row(self.chain(Set::empty(), 0, 56), y);
        Seq::new(
            row.len(),
            |x: int|
                match objects[x] {
                    Some(m) => merged(row[x], m, self.priority_pens),
                    None => row[x],
                },
        )
    }

    /// Colour indices of screen row `y`: playfield, objects, text.
    pub open spec fn index_row(&self, y: int) -> Seq<u16> {
        let blank = Seq::new(VISIBLE_WIDTH as nat, |x: int| 0u16);
        self.with_alpha(self.with_objects(self.with_playfield(blank, y), y), y)
    }

    /// Colours of screen row `y`, by the palette as it stands.
    pub open spec fn screen_row(&self, y: int) -> Seq<(u8, u8, u8)> {
        Seq::new(
            VISIBLE_WIDTH as nat,
            |x: int| irgb4444(word(self.palette, self.index_row(y)[x] as int % 1024)),
        )
    }

    /// Whether a timer entry of the active list asks for this scanline.
    pub open spec fn timer_at(&self, scanline: int) -> bool {
        exists|k: int|
            0 <= k < self.chain(Set::empty(), 0, 64).len() && self.is_timer_for(
                #[trigger] self.chain(Set::empty(), 0, 64)[k],
                scanline,
            )
    }

    pub open spec fn is_timer_for(&self, e: int, scanline: int) -> bool {
        self.mo_word_of(e, 1) == 0xFFFF && timer_line(self.mo_word_of(e, 0)) == scanline
    }

    /// The board after the beam reaches the start of a scanline.
    pub open spec fn after_scanline(self, scanline: int) -> System1View {
        System1View {
            video_int: self.video_int || scanline == VBLANK_SCANLINE,
            scanline_int: self.has_scanline_int && self.timer_at(scanline),
            framebuffer: if scanline < VISIBLE_HEIGHT {
                with_row(self.framebuffer, scanline * VISIBLE_WIDTH * 3, self.screen_row(scanline))
            } else {
                self.framebuffer
            },
            ..self
        }
    }
}

fn timer_line_of(w0: u16) -> (line: u16)
    ensures
        line == timer_line(w0),
{
    let height: u16 = 8 * (w0 % 16 + 1);
    (2560 - w0 / 32 - height - 1 + 256) % 512
}

impl AtariSystem1Board {
    pub open spec fn wf(&self) -> bool {
        self@.wf()
    }

    /// Rasterise one row of the playfield.
    fn draw_playfield_row(&self, index: &mut Vec<u16>, sy: usize)
        requires
            self.wf(),
            old(index)@.len() == VISIBLE_WIDTH,
            sy < VISIBLE_HEIGHT,
        ensures
            final(index)@ == self@.with_playfield(old(index)@, sy as int),
            final(index)@.len() == VISIBLE_WIDTH,
    {
        let ghost start = index@;
        let ghost done = self@.with_playfield(start, sy as int);
        let tile_bank: usize = (self.bankselect as usize / 4) % 2;
        let src_y: usize = (sy + self.yscroll as usize) % 512;
        let mut x: usize = 0;
        while x < VISIBLE_WIDTH
            invariant
                x <= VISIBLE_WIDTH,
                self.wf(),
                sy < VISIBLE_HEIGHT,
                tile_bank == (self@.bankselect as int / 4) % 2,
                src_y == (sy + self@.yscroll) % 512,
                start.len() == VISIBLE_WIDTH,
                index@.len() == VISIBLE_WIDTH,
                done == self@.with_playfield(start, sy as int),
                forall|k: int| 0 <= k < VISIBLE_WIDTH ==> #[trigger] index@[k] == if k < x { done[k] } else { start[k] },
            decreases VISIBLE_WIDTH - x,
        {
            let src_x: usize = (x + self.xscroll as usize) % 512;
            let data: u16 = word_at(&self.playfield_ram, (src_y / 8) * 64 + src_x / 8);
            let l: u16 = self.playfield.lookup[(data / 256) as usize % 128 + 128 * tile_bank];
            let id: usize = (l / 256) as usize % 16;
            if id < self.playfield.banks.len() {
                let bank: &GfxBank = &self.playfield.banks[id];
                assert(self@.playfield.banks@[id as int].wf());
                let code: usize = ((l % 256) as usize * 256 + (data % 256) as usize)
                    % bank.cache.count();
                let factor: usize = if bank.bpp == 4 {
                    2
                } else if bank.bpp == 5 {
                    4
                } else {
                    8
                };
                let palcolor: usize = (l / 4096) as usize;
                assert(palcolor * factor <= 120) by (nonlinear_arith)
                    requires
                        palcolor <= 15,
                        factor <= 8,
                ;
                let color: usize = 0x20 + palcolor * factor;
                let tx: usize = if data >= 0x8000 {
                    7 - src_x % 8
                } else {
                    src_x % 8
                };
                let pen: u8 = bank.cache.pixel(code, tx, src_y % 8);
                index[x] = ((0x100 + color * 8 + pen as usize) % 1024) as u16;
            }
            x += 1;
        }
        assert(index@ =~= done);
    }

    /// Draw one row of text.
    fn draw_alpha_row(&self, index: &mut Vec<u16>, sy: usize)
        requires
            self.wf(),
            old(index)@.len() == VISIBLE_WIDTH,
            sy < VISIBLE_HEIGHT,
        ensures
            final(index)@ == self@.with_alpha(old(index)@, sy as int),
            final(index)@.len() == VISIBLE_WIDTH,
    {
        let ghost start = index@;
        let ghost done = self@.with_alpha(start, sy as int);
        let mut x: usize = 0;
        while x < VISIBLE_WIDTH
            invariant
                x <= VISIBLE_WIDTH,
                self.wf(),
                sy < VISIBLE_HEIGHT,
                start.len() == VISIBLE_WIDTH,
                index@.len() == VISIBLE_WIDTH,
                done == self@.with_alpha(start, sy as int),
                forall|k: int| 0 <= k < VISIBLE_WIDTH ==> #[trigger] index@[k] == if k < x { done[k] } else { start[k] },
            decreases VISIBLE_WIDTH - x,
        {
            let data: u16 = word_at(&self.alpha, (sy / 8) * 64 + x / 8);
            let pen: u8 = self.alpha_cache.pixel((data % 512) as usize, x % 8, sy % 8);
            if pen != 0 || data & 0x2000 != 0 {
                index[x] = ((data / 1024) % 8) * 4 + pen as u16;
            }
            x += 1;
        }
        assert(index@ =~= done);
    }

    /// Which row of the object that `w0` describes falls on screen row `sy`, or
    /// `None` when the object does not cross it.
    fn mo_row_of(w0: u16, sy: usize) -> (r: Option<usize>)
        requires
            sy < VISIBLE_HEIGHT,
        ensures
            r == if mo_offset(w0, sy as int) < mo_height(w0) {
                Some(mo_offset(w0, sy as int) as usize)
            } else {
                None
            },
    {
        let height: i32 = 8 * ((w0 % 16) as i32 + 1);
        let y: i32 = ((w0 / 32) % 512) as i32;
        let mut ypos: i32 = (1024 - y - 256 - height) % 512;
        proof {
            lemma_object_offset(sy as int, y as int, height as int, ypos as int);
        }
        if ypos >= VISIBLE_HEIGHT as i32 {
            ypos = ypos - 512;
        }
        let dy: i32 = sy as i32 - ypos;
        if dy >= 0 && dy < height {
            Some(dy as usize)
        } else {
            None
        }
    }

    /// One pixel of an object's line that falls on this row. `ty` is that line
    /// within the object.
    fn mo_pixel_at(&self, e: usize, ty: usize, x: usize, sy: usize) -> (p: Option<u16>)
        requires
            self.wf(),
            e < 64,
            x < VISIBLE_WIDTH,
            sy < VISIBLE_HEIGHT,
            ty == mo_offset(self@.mo_word_of(e as int, 0), sy as int),
            ty < mo_height(self@.mo_word_of(e as int, 0)),
        ensures
            p == self@.mo_pixel(e as int, x as int, sy as int),
    {
        let base: usize = ((self.bankselect as usize / 8) % 8) * 256;
        let w2: u16 = word_at(&self.mob, base + 0x80 + e);
        let xpos: usize = ((w2 / 32) % 512) as usize;
        let dx: usize = (x + 512 - xpos) % 512;
        assert(dx == (x - xpos) % 512);
        if dx >= 8 {
            reveal(System1View::mo_pixel);
            return None;
        }
        let w0: u16 = word_at(&self.mob, base + e);
        let w1: u16 = word_at(&self.mob, base + 0x40 + e);
        let l: u16 = self.playfield.mo_lookup[(w1 / 256) as usize];
        let id: usize = (l / 256) as usize % 16;
        if id >= self.playfield.banks.len() {
            reveal(System1View::mo_pixel);
            return None;
        }
        let bank: &GfxBank = &self.playfield.banks[id];
        assert(self@.playfield.banks@[id as int].wf());
        let code: usize = ((l % 256) as usize * 256 + (w1 % 256) as usize + ty / 8)
            % bank.cache.count();
        proof {
            self@.lemma_mo_pixel(e as int, x as int, sy as int, id as int, code as int, dx as int);
        }
        let px: usize = if w0 >= 0x8000 {
            7 - dx
        } else {
            dx
        };
        let pen: u8 = bank.cache.pixel(code, px, ty % 8);
        if pen == 0 {
            return None;
        }
        let prio: u16 = if w2 >= 0x8000 {
            PRIORITY_BIT
        } else {
            0
        };
        Some((0x100 + (l / 4096) * 16 + pen as u16) | prio)
    }

    /// Rasterise the one line of an object that falls on this row. `ty` is that
    /// line within the object.
    fn draw_mo_entry_row(&self, mo: &mut Vec<Option<u16>>, e: usize, ty: usize, sy: usize)
        requires
            self.wf(),
            e < 64,
            old(mo)@.len() == VISIBLE_WIDTH,
            sy < VISIBLE_HEIGHT,
            ty == mo_offset(self@.mo_word_of(e as int, 0), sy as int),
            ty < mo_height(self@.mo_word_of(e as int, 0)),
        ensures
            final(mo)@ == self@.with_object(old(mo)@, e as int, sy as int),
            final(mo)@.len() == VISIBLE_WIDTH,
    {
        let ghost start = mo@;
        let ghost done = self@.with_object(start, e as int, sy as int);
        let mut x: usize = 0;
        while x < VISIBLE_WIDTH
            invariant
                x <= VISIBLE_WIDTH,
                self.wf(),
                e < 64,
                sy < VISIBLE_HEIGHT,
                ty == mo_offset(self@.mo_word_of(e as int, 0), sy as int),
                ty < mo_height(self@.mo_word_of(e as int, 0)),
                start.len() == VISIBLE_WIDTH,
                mo@.len() == VISIBLE_WIDTH,
                done == self@.with_object(start, e as int, sy as int),
                forall|k: int| 0 <= k < VISIBLE_WIDTH ==> #[trigger] mo@[k] == if k < x { done[k] } else { start[k] },
            decreases VISIBLE_WIDTH - x,
        {
            let p: Option<u16> = self.mo_pixel_at(e, ty, x, sy);
            if p.is_some() {
                mo.set(x, p);
            }
            x += 1;
        }
        assert(mo@ =~= done);
    }

    /// Walk the active motion-object list and draw the entries that cross this
    /// row, then merge them over the playfield.
    fn draw_motion_objects_row(&self, index: &mut Vec<u16>, sy: usize)
        requires
            self.wf(),
            old(index)@.len() == VISIBLE_WIDTH,
            sy < VISIBLE_HEIGHT,
        ensures
            final(index)@ == self@.with_objects(old(index)@, sy as int),
            final(index)@.len() == VISIBLE_WIDTH,
    {
        let ghost start = index@;
        let ghost all = self@.chain(Set::empty(), 0, 56);
        let ghost done = self@.with_objects(start, sy as int);
        let base: usize = ((self.bankselect as usize / 8) % 8) * 256;
        let mut mo: Vec<Option<u16>> = Vec::new();
        let mut k: usize = 0;
        while k < VISIBLE_WIDTH
            invariant
                k <= VISIBLE_WIDTH,
                mo@.len() == k,
                forall|x: int| 0 <= x < k ==> #[trigger] mo@[x] is None,
            decreases VISIBLE_WIDTH - k,
        {
            mo.push(None);
            k += 1;
        }
        let mut visited: Vec<bool> = Vec::new();
        k = 0;
        while k < 64
            invariant
                k <= 64,
                visited@.len() == k,
                forall|x: int| 0 <= x < k ==> !#[trigger] visited@[x],
            decreases 64 - k,
        {
            visited.push(false);
            k += 1;
        }
        let mut link: usize = 0;
        let mut left: usize = 56;
        let ghost mut seen: Set<int> = Set::empty();
        let ghost mut entries: Seq<int> = Seq::empty();
        assert(mo@ =~= self@.object_row(entries, sy as int));
        assert(entries + all =~= all);
        while left > 0 && !visited[link]
            invariant
                self.wf(),
                sy < VISIBLE_HEIGHT,
                left <= 56,
                link < 64,
                base == ((self@.bankselect as int / 8) % 8) * 256,
                visited@.len() == 64,
                mo@.len() == VISIBLE_WIDTH,
                forall|e: int| 0 <= e < 64 ==> #[trigger] visited@[e] == seen.contains(e),
                all == self@.chain(Set::empty(), 0, 56),
                all == entries + self@.chain(seen, link as int, left as nat),
                mo@ == self@.object_row(entries, sy as int),
            decreases left,
        {
            let ghost before = entries;
            proof {
                self@.lemma_chain_step(entries, seen, link as int, left as nat);
            }
            visited.set(link, true);
            let w0: u16 = word_at(&self.mob, base + link);
            match Self::mo_row_of(w0, sy) {
                Some(ty) => {
                    self.draw_mo_entry_row(&mut mo, link, ty, sy);
                },
                None => {
                    reveal(System1View::mo_pixel);
                    assert(mo@ =~= self@.with_object(mo@, link as int, sy as int));
                },
            }
            proof {
                entries = before.push(link as int);
                assert(entries.drop_last() =~= before);
                seen = seen.insert(link as int);
            }
            link = self.next_entry(link);
            left = left - 1;
        }
        assert(entries =~= all);
        let mut x: usize = 0;
        while x < VISIBLE_WIDTH
            invariant
                x <= VISIBLE_WIDTH,
                self.wf(),
                mo@ == self@.object_row(all, sy as int),
                mo@.len() == VISIBLE_WIDTH,
                all == self@.chain(Set::empty(), 0, 56),
                start.len() == VISIBLE_WIDTH,
                index@.len() == VISIBLE_WIDTH,
                done == self@.with_objects(start, sy as int),
                forall|k: int| 0 <= k < VISIBLE_WIDTH ==> #[trigger] index@[k] == if k < x { done[k] } else { start[k] },
            decreases VISIBLE_WIDTH - x,
        {
            if let Some(m) = mo[x] {
                let pf: u16 = index[x];
                if m & PRIORITY_BIT != 0 {
                    if m & 0x0F != 1 {
                        index[x] = 0x300 + (pf & 0x0F) * 16 + (m & 0x0F);
                    }
                } else if pf & 0xF8 != 0 || self.priority_pens & (1u16 << (pf & 0x07)) == 0 {
                    index[x] = m;
                }
            }
            x += 1;
        }
        assert(index@ =~= done);
    }

    /// Draw one visible scanline out of the video state as it stands.
    fn render_scanline(&mut self, sy: usize)
        requires
            old(self).wf(),
            sy < VISIBLE_HEIGHT,
        ensures
            final(self).wf(),
            final(self)@ == (System1View {
                framebuffer: with_row(
                    old(self)@.framebuffer,
                    sy * VISIBLE_WIDTH * 3,
                    old(self)@.screen_row(sy as int),
                ),
                ..old(self)@
            }),
    {
        let mut index: Vec<u16> = vec![0u16; VISIBLE_WIDTH];
        assert(index@ =~= Seq::new(VISIBLE_WIDTH as nat, |x: int| 0u16));
        self.draw_playfield_row(&mut index, sy);
        self.draw_motion_objects_row(&mut index, sy);
        self.draw_alpha_row(&mut index, sy);
        let mut colors: Vec<(u8, u8, u8)> = Vec::new();
        let mut x: usize = 0;
        while x < VISIBLE_WIDTH
            invariant
                x <= VISIBLE_WIDTH,
                self.wf(),
                index@ == self@.index_row(sy as int),
                index@.len() == VISIBLE_WIDTH,
                colors@ == self@.screen_row(sy as int).take(x as int),
            decreases VISIBLE_WIDTH - x,
        {
            let i: usize = index[x] as usize % 1024;
            colors.push(irgb4444_to_rgb(word_at(&self.palette, i)));
            x += 1;
            assert(colors@ =~= self@.screen_row(sy as int).take(x as int));
        }
        assert(colors@ =~= self@.screen_row(sy as int));
        put_row(&mut self.framebuffer, sy * VISIBLE_WIDTH * 3, &colors);
    }

    /// The entry that entry `e` of the active list links to.
    fn next_entry(&self, e: usize) -> (n: usize)
        requires
            self.wf(),
            e < 64,
        ensures
            n == self@.mo_word_of(e as int, 3) as int % 64,
    {
        let base: usize = ((self.bankselect as usize / 8) % 8) * 256;
        (word_at(&self.mob, base + 0xC0 + e) % 64) as usize
    }

    /// Whether entry `e` of the active list is a timer for this scanline.
    fn timer_entry_at(&self, e: usize, scanline: u16) -> (r: bool)
        requires
            self.wf(),
            e < 64,
        ensures
            r == self@.is_timer_for(e as int, scanline as int),
    {
        let base: usize = ((self.bankselect as usize / 8) % 8) * 256;
        let w0: u16 = word_at(&self.mob, base + e);
        let w1: u16 = word_at(&self.mob, base + 0x40 + e);
        if w1 != 0xFFFF {
            return false;
        }
        timer_line_of(w0) == scanline
    }

    /// Whether a timer entry of the active list asks for this scanline.
    pub fn timer_irq_at_scanline(&self, scanline: u16) -> (r: bool)
        requires
            self.wf(),
        ensures
            r == self@.timer_at(scanline as int),
    {
        let ghost all = self@.chain(Set::empty(), 0, 64);
        let mut visited: Vec<bool> = Vec::new();
        let mut k: usize = 0;
        while k < 64
            invariant
                k <= 64,
                visited@.len() == k,
                forall|x: int| 0 <= x < k ==> !#[trigger] visited@[x],
            decreases 64 - k,
        {
            visited.push(false);
            k += 1;
        }
        let mut link: usize = 0;
        let mut left: usize = 64;
        let ghost mut seen: Set<int> = Set::empty();
        let ghost mut entries: Seq<int> = Seq::empty();
        assert(entries + all =~= all);
        while left > 0 && !visited[link]
            invariant
                self.wf(),
                left <= 64,
                link < 64,
                visited@.len() == 64,
                forall|e: int| 0 <= e < 64 ==> #[trigger] visited@[e] == seen.contains(e),
                all == self@.chain(Set::empty(), 0, 64),
                all == entries + self@.chain(seen, link as int, left as nat),
                forall|j: int| 0 <= j < entries.len() ==> !self@.is_timer_for(#[trigger] entries[j], scanline as int),
            decreases left,
        {
            proof {
                self@.lemma_chain_step(entries, seen, link as int, left as nat);
            }
            if self.timer_entry_at(link, scanline) {
                assert(self@.is_timer_for(all[entries.len() as int], scanline as int));
                return true;
            }
            visited.set(link, true);
            proof {
                entries = entries.push(link as int);
                seen = seen.insert(link as int);
            }
            link = self.next_entry(link);
            left = left - 1;
        }
        assert(entries =~= all);
        false
    }

    /// A board as it powers on, with or without speech on its sound board.
    pub fn new(speech: bool) -> (b: AtariSystem1Board)
        ensures
            b.wf(),
            b@.rom == zeros(0x8_0000),
            b@.ram == zeros(0x2000),
            b@.cart_ram == zeros(0x10_0000),
            b@.playfield_ram == zeros(0x2000),
            b@.mob == zeros(0x1000),
            b@.alpha == zeros(0x1000),
            b@.palette == zeros(0x800),
            b@.slapstic_rom == zeros(0x8000),
            b@.eeprom == Seq::new(512, |i: int| 0xFFu8),
            !b@.eeprom_unlocked,
            b@.eeprom_writes == 0,
            forall|c: int, x: int, y: int|
                0 <= c < ALPHA_TILE_COUNT && 0 <= x < 8 && 0 <= y < 8 ==> #[trigger] b@.alpha_cache.at(c, x, y) == 0,
            b@.playfield.lookup@ == Seq::new(256, |i: int| 0u16),
            b@.playfield.mo_lookup@ == Seq::new(256, |i: int| 0u16),
            b@.playfield.banks@.len() == 1,
            b@.playfield.banks@[0].is_blank(),
            b@.xscroll == 0,
            b@.yscroll == 0,
            b@.priority_pens == 0,
            b@.bankselect == 0,
            b@.f60000_buttons == 0xFF,
            !b@.video_int,
            !b@.scanline_int,
            !b@.has_scanline_int,
            !b@.int2,
            b@.sound.lines_cleared(),
            b@.sound.sound_ram == zeros(0x1000),
            b@.sound.sound_rom == Seq::new(0xC000, |i: int| 0xFFu8),
            b@.sound.speech == if speech {
                Some(Speech { tms_clock_hz: tms_clock(false) as u32, clock_acc: 0 })
            } else {
                None
            },
            b@.clock == 0,
            b@.watchdog_count == 0,
            b@.framebuffer == zeros(3 * 336 * 240),
    {
        let eeprom: Vec<u8> = vec![0xFFu8; 512];
        assert(eeprom@ =~= Seq::new(512, |i: int| 0xFFu8));
        AtariSystem1Board {
            rom: zeroed(0x8_0000),
            ram: zeroed(0x2000),
            cart_ram: zeroed(0x10_0000),
            playfield_ram: zeroed(0x2000),
            mob: zeroed(0x1000),
            alpha: zeroed(0x1000),
            palette: zeroed(0x800),
            slapstic_rom: zeroed(0x8000),
            eeprom,
            eeprom_unlocked: false,
            eeprom_writes: 0,
            alpha_cache: GfxCache::new(ALPHA_TILE_COUNT, 8, 8),
            playfield: PlayfieldGfx::empty(),
            xscroll: 0,
            yscroll: 0,
            priority_pens: 0,
            bankselect: 0,
            f60000_buttons: 0xFF,
            video_int: false,
            scanline_int: false,
            has_scanline_int: false,
            int2: false,
            sound: AtariSystem1Sound::new(speech),
            clock: 0,
            watchdog_count: 0,
            framebuffer: zeroed(3 * VISIBLE_WIDTH * VISIBLE_HEIGHT),
        }
    }

    /// The same board with the cartridge's scanline-interrupt circuit.
    pub fn with_scanline_interrupt(self) -> (b: AtariSystem1Board)
        ensures
            b@ == (System1View { has_scanline_int: true, ..self@ }),
    {
        let mut board: AtariSystem1Board = self;
        board.has_scanline_int = true;
        board
    }

    /// Install the program image: 512 KB of program, then the protected ROM.
    pub fn load_program(&mut self, image: &[u8])
        requires
            old(self).wf(),
            image@.len() >= 0x8_8000,
        ensures
            final(self).wf(),
            final(self)@ == (System1View {
                rom: image@.subrange(0, 0x8_0000),
                slapstic_rom: image@.subrange(0x8_0000, 0x8_8000),
                ..old(self)@
            }),
    {
        self.rom = copied_range(image, 0, 0x8_0000);
        self.slapstic_rom = copied_range(image, 0x8_0000, 0x8_8000);
    }

    /// Decode the text font.
    pub fn load_alpha(&mut self, alpha_rom: &[u8])
        requires
            old(self).wf(),
            alpha_rom@.len() >= 0x2000,
            8 * alpha_rom@.len() <= usize::MAX,
        ensures
            final(self).wf(),
            final(self)@ == (System1View { alpha_cache: final(self)@.alpha_cache, ..old(self)@ }),
            forall|c: int, x: int, y: int|
                0 <= c < ALPHA_TILE_COUNT && 0 <= x < 8 && 0 <= y < 8 ==> #[trigger] final(self)@.alpha_cache.at(c, x, y)
                    == planar_pen(alpha_rom@, 128 * c + 16 * y + alpha_column(x), seq![4usize, 0], 2),
            decodes_font(final(self)@.alpha_cache, alpha_rom@),
    {
        let layout: GfxLayout = alpha_layout();
        proof {
            layout.lemma_fits(alpha_rom@.len() as int, 512, 128, 128);
        }
        self.alpha_cache = decode_gfx(alpha_rom, ALPHA_TILE_COUNT, &layout);
        proof {
            assert forall|c: int, x: int, y: int|
                0 <= c < ALPHA_TILE_COUNT && 0 <= x < 8 && 0 <= y < 8 implies #[trigger] self@.alpha_cache.at(c, x, y)
                == planar_pen(alpha_rom@, 128 * c + 16 * y + alpha_column(x), seq![4usize, 0], 2) by {
                assert(layout.pixel_bit(c, x, y) == 128 * c + 16 * y + alpha_column(x));
            }
        }
    }

    /// Build the tile banks and remap words.
    pub fn load_gfx(&mut self, prom: &[u8], tiles: &[u8])
        requires
            old(self).wf(),
            prom@.len() >= 0x400,
            8 * tiles@.len() <= usize::MAX,
            forall|i: int|
                0 <= i < 256 ==> #[trigger] key_fits(prom@[i], prom@[0x200 + i], tiles@.len() as int),
            forall|i: int|
                0 <= i < 256 ==> #[trigger] key_fits(
                    prom@[0x100 + i],
                    prom@[0x300 + i],
                    tiles@.len() as int,
                ),
        ensures
            final(self).wf(),
            built_from(final(self)@.playfield, prom@, tiles@),
            final(self)@ == (System1View { playfield: final(self)@.playfield, ..old(self)@ }),
    {
        self.playfield = build_tile_gfx(prom, tiles);
    }

    /// Load the sound program.
    pub fn load_sound(&mut self, sound_image: &[u8])
        requires
            old(self).wf(),
            sound_image@.len() >= 0x10000,
        ensures
            final(self).wf(),
            final(self)@ == (System1View {
                sound: System1SoundView {
                    sound_rom: sound_image@.subrange(0x4000, 0x10000),
                    ..old(self)@.sound
                },
                ..old(self)@
            }),
    {
        self.sound.load_rom(sound_image);
    }

    pub fn clock(&self) -> (n: u64)
        ensures
            n == self@.clock,
    {
        self.clock
    }

    /// State of the sound board.
    pub fn sound_debug(&self) -> (s: (bool, u64, bool, bool))
        ensures
            s == (
                self@.sound.held_reset,
                self@.sound.clock,
                self@.sound.command_pending,
                self@.sound.response_pending,
            ),
    {
        self.sound.debug_state()
    }

    /// Programmed EEPROM bytes, and writes taken.
    pub fn eeprom_debug(&self) -> (s: (usize, u64))
        ensures
            s.0 == count_other(self@.eeprom, 0xFF),
            s.1 == self@.eeprom_writes,
    {
        (count_other_than(&self.eeprom, 0xFF), self.eeprom_writes)
    }

    /// Non-zero bytes in palette, text and playfield RAM.
    pub fn video_ram_stats(&self) -> (s: (usize, usize, usize))
        ensures
            s.0 == count_other(self@.palette, 0),
            s.1 == count_other(self@.alpha, 0),
            s.2 == count_other(self@.playfield_ram, 0),
    {
        (
            count_other_than(&self.palette, 0),
            count_other_than(&self.alpha, 0),
            count_other_than(&self.playfield_ram, 0),
        )
    }

    /// The EEPROM's bytes.
    pub fn nvram(&self) -> (b: &[u8])
        ensures
            b@ == self@.eeprom,
    {
        self.eeprom.as_slice()
    }

    /// Copy saved bytes into the EEPROM; what does not fit is dropped.
    pub fn load_nvram(&mut self, data: &[u8])
        ensures
            final(self)@ == (System1View { eeprom: overlaid(old(self)@.eeprom, data@), ..old(self)@ }),
    {
        overlay(&mut self.eeprom, data);
    }

    /// Audio and video control latch.
    pub fn bankselect_w(&mut self, data: u8)
        ensures
            final(self)@ == (System1View {
                bankselect: data,
                sound: old(self)@.sound.after_reset_line(data & 0x80 == 0),
                ..old(self)@
            }),
    {
        self.bankselect = data;
        self.sound.set_reset(data & 0x80 == 0);
    }

    /// Whether the beam is in vertical blank.
    pub fn in_vblank(&self) -> (v: bool)
        ensures
            v == self@.vblank(),
    {
        (self.clock % FRAME_CYCLES) / 456 >= VBLANK_SCANLINE as u64
    }

    /// Switch port.
    pub fn read_f60000(&self) -> (v: u16)
        ensures
            v == self@.port_f60000(),
    {
        let blanked: u8 = drive_bit(self.f60000_buttons, 4, !self.in_vblank());
        let low: u8 = drive_bit(blanked, 7, self.sound.command_pending());
        0xFF00u16 | low as u16
    }

    /// Object-timer interrupt as it reads at its own address.
    pub fn int3_state(&self) -> (v: u16)
        ensures
            v == if self@.scanline_int { 0x0080u16 } else { 0u16 },
    {
        if self.scanline_int {
            0x0080
        } else {
            0x0000
        }
    }

    /// A word of the protected window, from the bank the protection chip
    /// presents.
    fn slapstic_read(&self, addr: u32, bank: u8) -> (v: u16)
        requires
            self.wf(),
            bank < 4,
        ensures
            v == word(self@.slapstic_rom, (bank * 0x2000 + addr as int % 0x2000) / 2),
    {
        let base: usize = bank as usize * 0x2000 + (addr % 0x2000) as usize;
        word_at(&self.slapstic_rom, base / 2)
    }

    /// Drive the joystick converter's interrupt.
    pub fn set_int2(&mut self, asserted: bool)
        ensures
            final(self)@ == (System1View { int2: asserted, ..old(self)@ }),
    {
        self.int2 = asserted;
    }

    /// Interrupt level presented to the CPU.
    pub fn interrupt_level(&self) -> (n: u8)
        ensures
            n == self@.level(),
    {
        if self.sound.response_pending() {
            6
        } else if self.video_int {
            4
        } else if self.scanline_int {
            3
        } else if self.int2 {
            2
        } else {
            0
        }
    }

    /// The latest picture.
    pub fn render(&self, buffer: &mut Vec<u8>)
        requires
            old(buffer)@.len() == self@.framebuffer.len(),
        ensures
            final(buffer)@ == self@.framebuffer,
    {
        overlay(buffer, self.framebuffer.as_slice());
        assert(buffer@ =~= self@.framebuffer);
    }

    /// The latest picture.
    pub fn render_frame(&self, buffer: &mut Vec<u8>)
        requires
            old(buffer)@.len() == self@.framebuffer.len(),
        ensures
            final(buffer)@ == self@.framebuffer,
    {
        self.render(buffer);
    }

    /// Work on the first cycle of a scanline: the vertical-blank interrupt, the
    /// object-timer interrupt for this line alone, and the row.
    pub fn begin_scanline(&mut self, scanline: u16)
        requires
            old(self).wf(),
        ensures
            final(self).wf(),
            final(self)@ == old(self)@.after_scanline(scanline as int),
    {
        let timer: bool = self.has_scanline_int && self.timer_irq_at_scanline(scanline);
        if (scanline as usize) < VISIBLE_HEIGHT {
            self.render_scanline(scanline as usize);
        }
        if scanline == VBLANK_SCANLINE {
            self.video_int = true;
        }
        self.scanline_int = timer;
    }

    /// Board work that leads one single-stepped CPU cycle: the start of a
    /// scanline, if the clock is on one.
    pub fn begin_tick(&mut self)
        requires
            old(self).wf(),
        ensures
            final(self).wf(),
            final(self)@ == if (old(self)@.clock % FRAME_CYCLES) % 456 == 0 {
                old(self)@.after_scanline(old(self)@.scanline())
            } else {
                old(self)@
            },
    {
        let frame_cycle: u64 = self.clock % FRAME_CYCLES;
        if frame_cycle % 456 == 0 {
            self.begin_scanline((frame_cycle / 456) as u16);
        }
    }

    /// Count a CPU cycle.
    pub fn end_cycle(&mut self)
        requires
            old(self)@.clock < u64::MAX,
        ensures
            final(self)@ == (System1View { clock: (old(self)@.clock + 1) as u64, ..old(self)@ }),
    {
        self.clock = self.clock + 1;
    }

    /// 1 when the CPU is at an instruction boundary, else 0.
    pub fn instruction_boundaries(at_boundary: bool) -> (n: u32)
        ensures
            n == if at_boundary { 1int } else { 0 },
    {
        if at_boundary {
            1
        } else {
            0
        }
    }

    /// Count a frame without a watchdog strobe; whether the machine must reset.
    pub fn advance_watchdog(&mut self) -> (expired: bool)
        ensures
            final(self)@ == (System1View {
                watchdog_count: if old(self)@.watchdog_count == 255 {
                    255
                } else {
                    (old(self)@.watchdog_count + 1) as u8
                },
                ..old(self)@
            }),
            expired == (old(self)@.watchdog_count >= 7),
            final(self)@ == old(self)@.after_watchdog(),
            expired == old(self)@.watchdog_expires(),
    {
        self.watchdog_count = self.watchdog_count.saturating_add(1);
        self.watchdog_count >= 8
    }

    /// Reset the board. Memories, the EEPROM's bytes and the picture stay.
    pub fn reset(&mut self)
        requires
            old(self).wf(),
        ensures
            final(self).wf(),
            final(self)@.sound.lines_cleared(),
            final(self)@.sound.sound_ram == old(self)@.sound.sound_ram,
            final(self)@.sound.sound_rom == old(self)@.sound.sound_rom,
            final(self)@.sound.speech == match old(self)@.sound.speech {
                Some(_) => Some(Speech { tms_clock_hz: tms_clock(false) as u32, clock_acc: 0 }),
                None => None,
            },
            final(self)@ == (System1View {
                xscroll: 0,
                yscroll: 0,
                priority_pens: 0,
                bankselect: 0,
                eeprom_unlocked: false,
                f60000_buttons: 0xFF,
                video_int: false,
                scanline_int: false,
                int2: false,
                watchdog_count: 0,
                sound: final(self)@.sound,
                ..old(self)@
            }),
    {
        self.sound.reset();
        self.xscroll = 0;
        self.yscroll = 0;
        self.priority_pens = 0;
        self.bankselect = 0;
        self.eeprom_unlocked = false;
        self.f60000_buttons = 0xFF;
        self.video_int = false;
        self.scanline_int = false;
        self.int2 = false;
        self.watchdog_count = 0;
    }

    /// No device stops the CPU.
    pub fn bus_is_halted(&self) -> (halted: bool)
        ensures
            !halted,
    {
        false
    }

    /// A word read. The game's own input ports are served before this. A memory
    /// is read at an even address, as the CPU drives it; a port answers at both
    /// addresses of its pair.
    pub fn bus_read(&mut self, addr: u32, slapstic_bank: u8) -> (v: u16)
        requires
            old(self).wf(),
            region_at(addr) is Some ==> addr % 2 == 0,
            slapstic_bank < 4,
        ensures
            v == old(self)@.read_word(addr, slapstic_bank),
            final(self)@ == old(self)@.after_read(addr),
            final(self).wf(),
    {
        if let Some((r, off)) = build_map(addr) {
            let w: usize = off as usize / 2;
            return match r {
                Region::Rom => word_at(&self.rom, w),
                Region::Ram => word_at(&self.ram, w),
                Region::CartRam => word_at(&self.cart_ram, w),
                Region::Playfield => word_at(&self.playfield_ram, w),
                Region::Mob => word_at(&self.mob, w),
                Region::Alpha => word_at(&self.alpha, w),
                Region::Palette => word_at(&self.palette, w),
            };
        }
        if 0x08_0000 <= addr && addr < 0x08_8000 {
            self.slapstic_read(addr, slapstic_bank)
        } else if 0x2E_0000 <= addr && addr <= 0x2E_0001 {
            self.int3_state()
        } else if 0xF0_0000 <= addr && addr < 0xF0_0400 {
            self.eeprom[(addr / 2 % 512) as usize] as u16
        } else if 0xF6_0000 <= addr && addr < 0xF6_0004 {
            self.read_f60000()
        } else if 0xFC_0000 <= addr && addr <= 0xFC_0001 {
            self.sound.read_response() as u16
        } else {
            0xFFFF
        }
    }

    /// Store a word in a memory of the map.
    fn store_word(&mut self, r: Region, off: usize, data: u16)
        requires
            old(self).wf(),
            r != Region::Rom ==> off % 2 == 0,
            off < span(r).1,
        ensures
            final(self).wf(),
            final(self)@ == old(self)@.with_word(r, off as int, data),
    {
        match r {
            Region::Rom => {},
            Region::Ram => put_word(&mut self.ram, off, data),
            Region::CartRam => put_word(&mut self.cart_ram, off, data),
            Region::Playfield => put_word(&mut self.playfield_ram, off, data),
            Region::Mob => put_word(&mut self.mob, off, data),
            Region::Alpha => put_word(&mut self.alpha, off, data),
            Region::Palette => put_word(&mut self.palette, off, data),
        }
    }

    /// A word write. The byte registers take its low byte, at both addresses of
    /// their pair. A memory is written at an even address.
    pub fn bus_write(&mut self, addr: u32, data: u16)
        requires
            old(self).wf(),
            region_at(addr) is Some && region_at(addr)->Some_0.0 != Region::Rom ==> addr % 2 == 0,
            old(self)@.eeprom_writes < u64::MAX,
        ensures
            final(self).wf(),
            final(self)@ == old(self)@.after_write(addr, data),
    {
        let byte: u8 = (data % 256) as u8;
        if let Some((r, off)) = build_map(addr) {
            self.store_word(r, off as usize, data);
        } else if 0x80_0000 <= addr && addr <= 0x80_0001 {
            self.xscroll = data;
        } else if 0x82_0000 <= addr && addr <= 0x82_0001 {
            self.yscroll = data;
        } else if 0x84_0000 <= addr && addr <= 0x84_0001 {
            self.priority_pens = data;
        } else if 0x86_0000 <= addr && addr <= 0x86_0001 {
            self.bankselect_w(byte);
        } else if 0x88_0000 <= addr && addr <= 0x88_0001 {
            self.watchdog_count = 0;
        } else if 0x8A_0000 <= addr && addr <= 0x8A_0001 {
            self.video_int = false;
        } else if 0x8C_0000 <= addr && addr <= 0x8C_0001 {
            self.eeprom_unlocked = true;
        } else if 0xF0_0000 <= addr && addr < 0xF0_0400 {
            if self.eeprom_unlocked {
                self.eeprom[(addr / 2 % 512) as usize] = byte;
                self.eeprom_unlocked = false;
                self.eeprom_writes = self.eeprom_writes + 1;
            }
        } else if 0xFE_0000 <= addr && addr <= 0xFE_0001 {
            self.sound.write_command(byte);
        }
    }

    /// Interrupt lines: the level, autovectored.
    pub fn bus_check_interrupts(&self) -> (s: InterruptState)
        ensures
            s == (InterruptState {
                nmi: false,
                irq: false,
                firq: false,
                irq_vector: 0xFF,
                irq_level: self@.level(),
            }),
    {
        InterruptState {
            nmi: false,
            irq: false,
            firq: false,
            irq_vector: 0xFF,
            irq_level: self.interrupt_level(),
        }
    }
}

/// How many bytes differ from `value`.
pub open spec fn count_other(mem: Seq<u8>, value: u8) -> nat
    decreases mem.len(),
{
    if mem.len() == 0 {
        0
    } else {
        count_other(mem.drop_last(), value) + if mem.last() != value { 1nat } else { 0 }
    }
}

fn count_other_than(mem: &Vec<u8>, value: u8) -> (n: usize)
    ensures
        n == count_other(mem@, value),
{
    let mut n: usize = 0;
    let mut i: usize = 0;
    while i < mem.len()
        invariant
            i <= mem@.len(),
            n <= i,
            n == count_other(mem@.take(i as int), value),
        decreases mem@.len() - i,
    {
        proof {
            assert(mem@.take(i + 1).drop_last() =~= mem@.take(i as int));
        }
        if mem[i] != value {
            n += 1;
        }
        i += 1;
    }
    assert(mem@.take(mem@.len() as int) =~= mem@);
    n
}

fn put_word(mem: &mut Vec<u8>, off: usize, data: u16)
    requires
        off + 1 < old(mem).len(),
    ensures
        final(mem)@ == old(mem)@.update(off as int, (data / 256) as u8).update(off + 1, (data % 256) as u8),
{
    mem[off] = (data / 256) as u8;
    mem[off + 1] = (data % 256) as u8;
}

/// Bit offset of text column `x`: two four-pixel halves.
pub open spec fn alpha_column(x: int) -> int {
    if x < 4 {
        x
    } else {
        x + 4
    }
}

/// The cache holds the tiles of the text font.
pub open spec fn decodes_font(cache: GfxCache, rom: Seq<u8>) -> bool {
    forall|c: int, x: int, y: int|
        0 <= c < ALPHA_TILE_COUNT && 0 <= x < 8 && 0 <= y < 8 ==> #[trigger] cache.at(c, x, y)
            == planar_pen(rom, 128 * c + 16 * y + alpha_column(x), seq![4usize, 0], 2)
}

/// Layout of the text font: 8 by 8, two planes four bits apart.
fn alpha_layout() -> (l: GfxLayout)
    ensures
        l.plane_offsets@ == seq![4usize, 0],
        l.x_offsets@ == Seq::new(8, |x: int| alpha_column(x) as usize),
        l.y_offsets@ == Seq::new(8, |y: int| (16 * y) as usize),
        l.char_increment == 128,
{
    let plane_offsets: Vec<usize> = vec![4, 0];
    let x_offsets: Vec<usize> = vec![0, 1, 2, 3, 8, 9, 10, 11];
    let y_offsets: Vec<usize> = vec![0, 16, 32, 48, 64, 80, 96, 112];
    assert(plane_offsets@ =~= seq![4usize, 0]);
    assert(x_offsets@ =~= Seq::new(8, |x: int| alpha_column(x) as usize));
    assert(y_offsets@ =~= Seq::new(8, |y: int| (16 * y) as usize));
    GfxLayout { plane_offsets, x_offsets, y_offsets, char_increment: 128 }
}

/// What a saved state holds of the board, the sound board's part among it.
/// ROM, decoded graphics, the cartridge's circuit, the write count and the
/// picture are not part of it.
pub struct System1Snapshot {
    pub ram: Vec<u8>,
    pub cart_ram: Vec<u8>,
    pub playfield_ram: Vec<u8>,
    pub mob: Vec<u8>,
    pub alpha: Vec<u8>,
    pub palette: Vec<u8>,
    pub eeprom: Vec<u8>,
    pub eeprom_unlocked: bool,
    pub xscroll: u16,
    pub yscroll: u16,
    pub priority_pens: u16,
    pub bankselect: u8,
    pub f60000_buttons: u8,
    pub video_int: bool,
    pub scanline_int: bool,
    pub int2: bool,
    pub clock: u64,
    pub watchdog_count: u8,
    /// What the sound board saves, with its speech clocking.
    pub sound: Vec<u8>,
}

impl System1Snapshot {
    /// Every memory has the board's size.
    pub open spec fn wf(&self) -> bool {
        &&& self.ram@.len() == 0x2000
        &&& self.cart_ram@.len() == 0x100000
        &&& self.playfield_ram@.len() == 0x2000
        &&& self.mob@.len() == 0x1000
        &&& self.alpha@.len() == 0x1000
        &&& self.palette@.len() == 0x800
        &&& self.eeprom@.len() == 0x200
    }
}

impl System1View {
    /// `s` holds the saved part of this board.
    pub open spec fn saved_as(&self, s: System1Snapshot) -> bool {
        &&& s.ram@ == self.ram
        &&& s.cart_ram@ == self.cart_ram
        &&& s.playfield_ram@ == self.playfield_ram
        &&& s.mob@ == self.mob
        &&& s.alpha@ == self.alpha
        &&& s.palette@ == self.palette
        &&& s.eeprom@ == self.eeprom
        &&& s.eeprom_unlocked == self.eeprom_unlocked
        &&& s.xscroll == self.xscroll
        &&& s.yscroll == self.yscroll
        &&& s.priority_pens == self.priority_pens
        &&& s.bankselect == self.bankselect
        &&& s.f60000_buttons == self.f60000_buttons
        &&& s.video_int == self.video_int
        &&& s.scanline_int == self.scanline_int
        &&& s.int2 == self.int2
        &&& s.clock == self.clock
        &&& s.watchdog_count == self.watchdog_count
        &&& s.sound@ == self.sound.saved_bytes()
    }

    /// This board with the saved part replaced by `s`.
    pub open spec fn restored_from(self, s: System1Snapshot) -> System1View {
        System1View {
            ram: s.ram@,
            cart_ram: s.cart_ram@,
            playfield_ram: s.playfield_ram@,
            mob: s.mob@,
            alpha: s.alpha@,
            palette: s.palette@,
            eeprom: s.eeprom@,
            eeprom_unlocked: s.eeprom_unlocked,
            xscroll: s.xscroll,
            yscroll: s.yscroll,
            priority_pens: s.priority_pens,
            bankselect: s.bankselect,
            f60000_buttons: s.f60000_buttons,
            video_int: s.video_int,
            scanline_int: s.scanline_int,
            int2: s.int2,
            clock: s.clock,
            watchdog_count: s.watchdog_count,
            sound: self.sound.with_saved(s.sound@),
            ..self
        }
    }
}

impl AtariSystem1Board {
    /// Take a snapshot.
    pub fn save_state(&self) -> (s: System1Snapshot)
        requires
            self.wf(),
        ensures
            s.wf(),
            self@.saved_as(s),
    {
        System1Snapshot {
            ram: copied(self.ram.as_slice()),
            cart_ram: copied(self.cart_ram.as_slice()),
            playfield_ram: copied(self.playfield_ram.as_slice()),
            mob: copied(self.mob.as_slice()),
            alpha: copied(self.alpha.as_slice()),
            palette: copied(self.palette.as_slice()),
            eeprom: copied(self.eeprom.as_slice()),
            eeprom_unlocked: self.eeprom_unlocked,
            xscroll: self.xscroll,
            yscroll: self.yscroll,
            priority_pens: self.priority_pens,
            bankselect: self.bankselect,
            f60000_buttons: self.f60000_buttons,
            video_int: self.video_int,
            scanline_int: self.scanline_int,
            int2: self.int2,
            clock: self.clock,
            watchdog_count: self.watchdog_count,
            sound: self.sound.saved(),
        }
    }

    /// Restore a snapshot. One whose memories have the wrong size, or whose
    /// sound part ends before this sound board is filled, is refused and changes
    /// nothing.
    pub fn load_state(&mut self, s: &System1Snapshot) -> (r: Result<(), SaveError>)
        requires
            old(self).wf(),
        ensures
            final(self).wf(),
            r == if !s.wf() {
                Err::<(), SaveError>(SaveError::SizeMismatch)
            } else if s.sound@.len() < old(self)@.sound.saved_len() {
                Err(SaveError::UnexpectedEnd)
            } else {
                Ok(())
            },
            final(self)@ == if r is Ok { old(self)@.restored_from(*s) } else { old(self)@ },
    {
        if s.ram.len() != 0x2000 || s.cart_ram.len() != 0x100000 || s.playfield_ram.len() != 0x2000 || s.mob.len() != 0x1000 || s.alpha.len() != 0x1000 || s.palette.len() != 0x800 || s.eeprom.len() != 0x200 {
            return Err(SaveError::SizeMismatch);
        }
        match self.sound.restore(s.sound.as_slice()) {
            Ok(_) => {},
            Err(e) => {
                return Err(e);
            },
        }
        self.ram = copied(s.ram.as_slice());
        self.cart_ram = copied(s.cart_ram.as_slice());
        self.playfield_ram = copied(s.playfield_ram.as_slice());
        self.mob = copied(s.mob.as_slice());
        self.alpha = copied(s.alpha.as_slice());
        self.palette = copied(s.palette.as_slice());
        self.eeprom = copied(s.eeprom.as_slice());
        self.eeprom_unlocked = s.eeprom_unlocked;
        self.xscroll = s.xscroll;
        self.yscroll = s.yscroll;
        self.priority_pens = s.priority_pens;
        self.bankselect = s.bankselect;
        self.f60000_buttons = s.f60000_buttons;
        self.video_int = s.video_int;
        self.scanline_int = s.scanline_int;
        self.int2 = s.int2;
        self.clock = s.clock;
        self.watchdog_count = s.watchdog_count;
        Ok(())
    }
}

/// Restoring a snapshot brings back everything that was saved, the sound board
/// with it, and leaves the rest of the receiving board alone. The two boards
/// have the same sound hardware fitted.
pub proof fn law_snapshot_round_trip(a: System1View, b: System1View, s: System1Snapshot)
    requires
        a.wf(),
        a.sound.speech is Some == b.sound.speech is Some,
        a.saved_as(s),
    ensures
        s.sound@.len() == b.sound.saved_len(),
        b.restored_from(s).saved_as(s),
        b.restored_from(s) == (System1View {
            rom: b.rom,
            slapstic_rom: b.slapstic_rom,
            eeprom_writes: b.eeprom_writes,
            alpha_cache: b.alpha_cache,
            playfield: b.playfield,
            has_scanline_int: b.has_scanline_int,
            sound: System1SoundView { sound_rom: b.sound.sound_rom, ..a.sound },
            framebuffer: b.framebuffer,
            ..a
        }),
{
    law_saved_round_trip(a.sound, b.sound);
    assert(b.restored_from(s).sound.saved_bytes() == a.sound.saved_bytes());
}

/// A word written to RAM reads back, whatever bank the protection chip
/// presents; program ROM takes no write.
pub proof fn law_word_read_after_write(b: System1View, addr: u32, data: u16, bank: u8)
    requires
        b.wf(),
        addr % 2 == 0,
        region_at(addr) is Some,
    ensures
        region_at(addr)->Some_0.0 != Region::Rom ==> b.after_write(addr, data).read_word(addr, bank)
            == data,
        region_at(addr)->Some_0.0 == Region::Rom ==> b.after_write(addr, data) == b,
{
    let (r, off) = region_at(addr)->Some_0;
    assert(off + 1 < b.memory(r).len());
    assert(2 * (off as int / 2) == off);
    assert((data / 256) * 256 + data % 256 == data);
}

/// The EEPROM takes one byte per unlock: a write without one changes nothing,
/// a write after one is stored and locks it again.
pub proof fn law_eeprom_takes_one_byte_per_unlock(b: System1View, addr: u32, data: u16, bank: u8)
    requires
        b.wf(),
        0xF0_0000 <= addr < 0xF0_0400,
    ensures
        !b.eeprom_unlocked ==> b.after_write(addr, data) == b,
        b.after_write(0x8C_0000, 0).after_write(addr, data).read_word(addr, bank) == data % 256,
        !b.after_write(0x8C_0000, 0).after_write(addr, data).eeprom_unlocked,
{
}

/// Vertical blank raises its interrupt once a frame and holds it until it is
/// acknowledged.
pub proof fn law_vblank_interrupt_holds(b: System1View, scanline: int)
    ensures
        b.after_scanline(240).video_int,
        b.video_int ==> b.after_scanline(scanline).video_int,
        !b.after_write(0x8A_0000, 0).video_int,
{
}

/// Without the cartridge's circuit no list raises the timer interrupt; with it
/// the interrupt lasts exactly the lines the list asks for.
pub proof fn law_timer_interrupt_is_a_cartridge_option(b: System1View, scanline: int)
    ensures
        !b.has_scanline_int ==> !b.after_scanline(scanline).scanline_int,
        b.has_scanline_int ==> b.after_scanline(scanline).scanline_int == b.timer_at(scanline),
{
}

/// The list walk visits no entry twice and ends within its limit.
pub proof fn law_list_visits_each_entry_once(b: System1View, visited: Set<int>, link: int, n: nat)
    ensures
        b.chain(visited, link, n).len() <= n,
        forall|i: int| 0 <= i < b.chain(visited, link, n).len() ==> !visited.contains(#[trigger] b.chain(visited, link, n)[i]),
        forall|i: int, j: int|
            0 <= i < j < b.chain(visited, link, n).len() ==> #[trigger] b.chain(visited, link, n)[i]
                != #[trigger] b.chain(visited, link, n)[j],
    decreases n,
{
    if n > 0 && !visited.contains(link) {
        let next = b.mo_word_of(link, 3) as int % 64;
        let rest = b.chain(visited.insert(link), next, (n - 1) as nat);
        law_list_visits_each_entry_once(b, visited.insert(link), next, (n - 1) as nat);
        let all = b.chain(visited, link, n);
        assert(all == seq![link] + rest);
        assert forall|i: int| 0 <= i < all.len() implies !visited.contains(#[trigger] all[i]) by {
            if i > 0 {
                assert(all[i] == rest[i - 1]);
            }
        }
        assert forall|i: int, j: int| 0 <= i < j < all.len() implies #[trigger] all[i] != #[trigger] all[j] by {
            assert(all[j] == rest[j - 1]);
            if i > 0 {
                assert(all[i] == rest[i - 1]);
            }
        }
    }
}

/// The frame loop of the board among CPUs and chips whose state is `O`: `step`
/// is one cycle of all of them.
pub open spec fn frame_loop<O>(step: spec_fn((System1View, O)) -> (System1View, O)) -> FrameLoop<(System1View, O)> {
    FrameLoop {
        clock: |m: (System1View, O)| m.0.clock as int,
        begin_scanline: |m: (System1View, O), scanline: int| (m.0.after_scanline(scanline), m.1),
        step_cycle: step,
    }
}

/// Whatever the CPUs and chips do in a cycle, a frame equals 119,472 single
/// cycles from the same start, on a scanline boundary or off one, and leaves the
/// clock that many cycles on. A single cycle's lead is that of `begin_tick`.
pub proof fn law_frame_is_its_ticks<O>(
    step: spec_fn((System1View, O)) -> (System1View, O),
    m: (System1View, O),
)
    requires
        forall|s: (System1View, O)|
            s.0.clock < u64::MAX ==> (#[trigger] step(s)).0.clock == s.0.clock + 1,
        m.0.clock + FRAME_CYCLES <= u64::MAX,
    ensures
        frame_loop(step).frame(spec_timing(), m) == frame_loop(step).ticks(
            spec_timing(),
            m,
            FRAME_CYCLES as nat,
        ),
        frame_loop(step).frame(spec_timing(), m).0.clock == m.0.clock + FRAME_CYCLES,
        frame_loop(step).led(spec_timing(), m).0 == if (m.0.clock % FRAME_CYCLES) % 456 == 0 {
            m.0.after_scanline(m.0.scanline())
        } else {
            m.0
        },
        frame_loop(step).led(spec_timing(), m).1 == m.1,
{
    let machine = frame_loop(step);
    assert(spec_timing().frame_cycles() == FRAME_CYCLES);
    assert(machine.counts());
    machine.law_frame_is_its_ticks(spec_timing(), m);
    let after = machine.frame(spec_timing(), m);
    assert((machine.clock)(after) == after.0.clock as int);
}

/// Drawing a scanline touches its own row of the picture and no other.
pub proof fn law_scanline_touches_only_its_row(b: System1View, scanline: int, k: int)
    requires
        b.wf(),
        0 <= scanline,
        0 <= k < b.framebuffer.len(),
        k / 1008 != scanline,
    ensures
        b.after_scanline(scanline).framebuffer[k] == b.framebuffer[k],
{
}

/// Blanked lines draw nothing.
pub proof fn law_blanked_lines_draw_nothing(b: System1View, scanline: int)
    requires
        scanline >= 240,
    ensures
        b.after_scanline(scanline).framebuffer == b.framebuffer,
{
}

/// The highest pending source sets the interrupt level.
pub proof fn law_interrupt_priority(b: System1View)
    ensures
        b.sound.response_pending ==> b.level() == 6,
        !b.sound.response_pending && b.video_int ==> b.level() == 4,
        !b.sound.response_pending && !b.video_int && b.scanline_int ==> b.level() == 3,
        !b.sound.response_pending && !b.video_int && !b.scanline_int && !b.int2 ==> b.level() == 0,
{
}

/// The sound CPU's reset line follows the control latch: writing it low holds
/// the CPU, writing it high lets it boot.
pub proof fn law_control_latch_drives_sound_reset(b: System1View, data: u16)
    ensures
        b.after_write(0x86_0000, data).sound.held_reset == ((data % 256) as u8 & 0x80 == 0),
{
}

} // verus!
