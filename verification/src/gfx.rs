//! Tile graphics: decoded pixel caches, the planar ROM layouts they come
//! from, and the small colour and rotation helpers.

use vstd::prelude::*;

verus! {

/// Decoded tiles: one pen number per pixel, `count` tiles of `width` by
/// `height`.
pub struct GfxCache {
    tiles: Vec<Vec<Vec<u8>>>,
    width: usize,
    height: usize,
}

/// A decoded sheet as a viewer shows it.
pub struct GfxSheet<'a> {
    pub name: &'static str,
    pub cache: &'a GfxCache,
    pub palette: &'a Vec<(u8, u8, u8)>,
}

impl GfxCache {
    pub closed spec fn wf(&self) -> bool {
        forall|c: int|
            0 <= c < self.tiles@.len() ==> {
                &&& (#[trigger] self.tiles@[c])@.len() == self.height
                &&& forall|y: int|
                    0 <= y < self.height ==> (#[trigger] self.tiles@[c]@[y])@.len() == self.width
            }
    }

    pub closed spec fn spec_count(&self) -> nat {
        self.tiles@.len()
    }

    pub closed spec fn spec_width(&self) -> nat {
        self.width as nat
    }

    pub closed spec fn spec_height(&self) -> nat {
        self.height as nat
    }

    /// The pen at column `x`, row `y` of tile `code`.
    pub closed spec fn at(&self, code: int, x: int, y: int) -> u8 {
        self.tiles@[code]@[y]@[x]
    }

    /// A cache of `count` blank tiles.
    pub fn new(count: usize, width: usize, height: usize) -> (cache: GfxCache)
        ensures
            cache.wf(),
            cache.spec_count() == count,
            cache.spec_width() == width,
            cache.spec_height() == height,
            forall|c: int, x: int, y: int|
                0 <= c < count && 0 <= x < width && 0 <= y < height ==> #[trigger] cache.at(c, x, y) == 0,
    {
        let mut tiles: Vec<Vec<Vec<u8>>> = Vec::new();
        let mut c: usize = 0;
        while c < count
            invariant
                c <= count,
                tiles@.len() == c,
                forall|k: int|
                    0 <= k < c ==> {
                        &&& (#[trigger] tiles@[k])@.len() == height
                        &&& forall|y: int|
                            0 <= y < height ==> (#[trigger] tiles@[k]@[y])@ == Seq::new(width as nat, |i: int| 0u8)
                    },
            decreases count - c,
        {
            let mut rows: Vec<Vec<u8>> = Vec::new();
            let mut y: usize = 0;
            while y < height
                invariant
                    y <= height,
                    rows@.len() == y,
                    forall|k: int| 0 <= k < y ==> (#[trigger] rows@[k])@ == Seq::new(width as nat, |i: int| 0u8),
                decreases height - y,
            {
                let row: Vec<u8> = vec![0u8; width];
                assert(row@ =~= Seq::new(width as nat, |i: int| 0u8));
                rows.push(row);
                y += 1;
            }
            tiles.push(rows);
            c += 1;
        }
        GfxCache { tiles, width, height }
    }

    pub fn count(&self) -> (n: usize)
        ensures
            n == self.spec_count(),
    {
        self.tiles.len()
    }

    pub fn width(&self) -> (n: usize)
        ensures
            n == self.spec_width(),
    {
        self.width
    }

    pub fn height(&self) -> (n: usize)
        ensures
            n == self.spec_height(),
    {
        self.height
    }

    pub fn pixel(&self, code: usize, x: usize, y: usize) -> (pen: u8)
        requires
            self.wf(),
            code < self.spec_count(),
            x < self.spec_width(),
            y < self.spec_height(),
        ensures
            pen == self.at(code as int, x as int, y as int),
    {
        self.tiles[code][y][x]
    }

    pub fn set_pixel(&mut self, code: usize, x: usize, y: usize, pen: u8)
        requires
            old(self).wf(),
            code < old(self).spec_count(),
            x < old(self).spec_width(),
            y < old(self).spec_height(),
        ensures
            final(self).wf(),
            final(self).spec_count() == old(self).spec_count(),
            final(self).spec_width() == old(self).spec_width(),
            final(self).spec_height() == old(self).spec_height(),
            forall|c: int, i: int, j: int|
                0 <= c < old(self).spec_count() && 0 <= i < old(self).spec_width() && 0 <= j < old(self).spec_height() ==> #[trigger] final(self).at(c, i, j) == if c == code && i == x && j == y {
                    pen
                } else {
                    old(self).at(c, i, j)
                },
    {
        self.tiles[code][y][x] = pen;
    }
}

/// Where the bits of a planar tile lie in ROM, as bit offsets from the tile's
/// first bit. `plane_offsets[0]` holds bit 0 of the pen.
pub struct GfxLayout {
    pub plane_offsets: Vec<usize>,
    pub x_offsets: Vec<usize>,
    pub y_offsets: Vec<usize>,
    pub char_increment: usize,
}

/// Bit `at` of a ROM image, counting from the top bit of byte 0.
pub open spec fn rom_bit(rom: Seq<u8>, at: int) -> u8 {
    (rom[at / 8] >> ((7 - at % 8) as u8)) & 1
}

/// The pen whose bit `p` is the ROM bit at `at + planes[p]`, over the first
/// `n` planes.
pub open spec fn planar_pen(rom: Seq<u8>, at: int, planes: Seq<usize>, n: nat) -> u8
    decreases n,
{
    if n == 0 {
        0
    } else {
        planar_pen(rom, at, planes, (n - 1) as nat) | (rom_bit(rom, at + planes[n - 1]) << ((n
            - 1) as u8))
    }
}

impl GfxLayout {
    /// First bit of the pixel at column `x`, row `y` of tile `code`, before
    /// the plane offset.
    pub open spec fn pixel_bit(&self, code: int, x: int, y: int) -> int {
        code * self.char_increment + self.y_offsets@[y] + self.x_offsets@[x]
    }

    /// Every bit of the first `count` tiles lies within `bytes` bytes of ROM.
    pub open spec fn fits(&self, bytes: int, count: int) -> bool {
        &&& self.plane_offsets@.len() <= 8
        &&& 8 * bytes <= usize::MAX
        &&& count * self.char_increment <= usize::MAX
        &&& forall|c: int, x: int, y: int, p: int|
            0 <= c < count && 0 <= x < self.x_offsets@.len() && 0 <= y < self.y_offsets@.len() && 0
                <= p < self.plane_offsets@.len() ==> #[trigger] self.pixel_bit(c, x, y)
                + #[trigger] self.plane_offsets@[p] < 8 * bytes
    }

    /// A layout whose tiles reach less than `reach` bits past their first bit
    /// fits where the last tile does.
    pub proof fn lemma_fits(&self, bytes: int, count: int, stride: int, reach: int)
        requires
            self.char_increment == stride,
            0 < self.plane_offsets@.len() <= 8,
            1 <= count,
            8 * bytes <= usize::MAX,
            count * stride <= usize::MAX,
            (count - 1) * stride + reach <= 8 * bytes,
            forall|x: int, y: int, p: int|
                0 <= x < self.x_offsets@.len() && 0 <= y < self.y_offsets@.len() && 0 <= p
                    < self.plane_offsets@.len() ==> #[trigger] self.x_offsets@[x]
                    + #[trigger] self.y_offsets@[y] + #[trigger] self.plane_offsets@[p] < reach,
        ensures
            self.fits(bytes, count),
    {
        assert forall|c: int, x: int, y: int, p: int|
            0 <= c < count && 0 <= x < self.x_offsets@.len() && 0 <= y < self.y_offsets@.len() && 0
                <= p < self.plane_offsets@.len() implies #[trigger] self.pixel_bit(c, x, y)
            + #[trigger] self.plane_offsets@[p] < 8 * bytes by {
            assert(c * stride <= (count - 1) * stride) by (nonlinear_arith)
                requires
                    0 <= c <= count - 1,
                    0 <= stride,
            ;
            assert(self.x_offsets@[x] + self.y_offsets@[y] + self.plane_offsets@[p] < reach);
        }
    }
}

/// Decode one pixel: gather one bit per plane.
fn decode_pixel(rom: &[u8], at: usize, planes: &Vec<usize>) -> (pen: u8)
    requires
        planes@.len() <= 8,
        8 * rom@.len() <= usize::MAX,
        forall|p: int| 0 <= p < planes@.len() ==> at + #[trigger] planes@[p] < 8 * rom@.len(),
    ensures
        pen == planar_pen(rom@, at as int, planes@, planes@.len()),
{
    let mut pen: u8 = 0;
    let mut p: usize = 0;
    while p < planes.len()
        invariant
            p <= planes@.len() <= 8,
            8 * rom@.len() <= usize::MAX,
            forall|k: int| 0 <= k < planes@.len() ==> at + #[trigger] planes@[k] < 8 * rom@.len(),
            pen == planar_pen(rom@, at as int, planes@, p as nat),
        decreases planes@.len() - p,
    {
        let bit_at: usize = at + planes[p];
        let value: u8 = (rom[bit_at / 8] >> ((7 - bit_at % 8) as u8)) & 1;
        pen = pen | (value << (p as u8));
        p += 1;
    }
    pen
}

/// Decode the first `count` tiles of a planar ROM image.
pub fn decode_gfx(rom: &[u8], count: usize, layout: &GfxLayout) -> (cache: GfxCache)
    requires
        layout.fits(rom@.len() as int, count as int),
    ensures
        cache.wf(),
        cache.spec_count() == count,
        cache.spec_width() == layout.x_offsets@.len(),
        cache.spec_height() == layout.y_offsets@.len(),
        forall|c: int, x: int, y: int|
            0 <= c < count && 0 <= x < layout.x_offsets@.len() && 0 <= y < layout.y_offsets@.len()
                ==> #[trigger] cache.at(c, x, y) == planar_pen(
                rom@,
                layout.pixel_bit(c, x, y),
                layout.plane_offsets@,
                layout.plane_offsets@.len(),
            ),
{
    let width: usize = layout.x_offsets.len();
    let height: usize = layout.y_offsets.len();
    let mut cache: GfxCache = GfxCache::new(count, width, height);
    let mut c: usize = 0;
    let mut base: usize = 0;
    while c < count
        invariant
            c <= count,
            base == c * layout.char_increment,
            layout.fits(rom@.len() as int, count as int),
            width == layout.x_offsets@.len(),
            height == layout.y_offsets@.len(),
            cache.wf(),
            cache.spec_count() == count,
            cache.spec_width() == width,
            cache.spec_height() == height,
            forall|k: int, x: int, y: int|
                0 <= k < c && 0 <= x < width && 0 <= y < height ==> #[trigger] cache.at(k, x, y)
                    == planar_pen(
                    rom@,
                    layout.pixel_bit(k, x, y),
                    layout.plane_offsets@,
                    layout.plane_offsets@.len(),
                ),
        decreases count - c,
    {
        let mut y: usize = 0;
        while y < height
            invariant
                c < count,
                y <= height,
                base == c * layout.char_increment,
                layout.fits(rom@.len() as int, count as int),
                width == layout.x_offsets@.len(),
                height == layout.y_offsets@.len(),
                cache.wf(),
                cache.spec_count() == count,
                cache.spec_width() == width,
                cache.spec_height() == height,
                forall|k: int, x: int, j: int|
                    0 <= k <= c && 0 <= x < width && 0 <= j < height && (k < c || j < y)
                        ==> #[trigger] cache.at(k, x, j) == planar_pen(
                        rom@,
                        layout.pixel_bit(k, x, j),
                        layout.plane_offsets@,
                        layout.plane_offsets@.len(),
                    ),
            decreases height - y,
        {
            let mut x: usize = 0;
            while x < width
                invariant
                    c < count,
                    y < height,
                    x <= width,
                    base == c * layout.char_increment,
                    layout.fits(rom@.len() as int, count as int),
                    width == layout.x_offsets@.len(),
                    height == layout.y_offsets@.len(),
                    cache.wf(),
                    cache.spec_count() == count,
                    cache.spec_width() == width,
                    cache.spec_height() == height,
                    forall|k: int, i: int, j: int|
                        0 <= k <= c && 0 <= i < width && 0 <= j < height && (k < c || j < y || (j
                            == y && i < x)) ==> #[trigger] cache.at(k, i, j) == planar_pen(
                            rom@,
                            layout.pixel_bit(k, i, j),
                            layout.plane_offsets@,
                            layout.plane_offsets@.len(),
                        ),
                decreases width - x,
            {
                if layout.plane_offsets.len() > 0 {
                    assert(layout.pixel_bit(c as int, x as int, y as int)
                        + layout.plane_offsets@[0] < 8 * rom@.len());
                    assert forall|p: int| 0 <= p < layout.plane_offsets@.len() implies layout.pixel_bit(c as int, x as int, y as int)
                        + #[trigger] layout.plane_offsets@[p] < 8 * rom@.len() by {
                        assert(layout.pixel_bit(c as int, x as int, y as int)
                            + layout.plane_offsets@[p] < 8 * rom@.len());
                    }
                    let at: usize = base + layout.y_offsets[y] + layout.x_offsets[x];
                    let pen: u8 = decode_pixel(rom, at, &layout.plane_offsets);
                    cache.set_pixel(c, x, y, pen);
                } else {
                    cache.set_pixel(c, x, y, 0);
                }
                x += 1;
            }
            y += 1;
        }
        assert((c + 1) * layout.char_increment == base + layout.char_increment && (c + 1)
            * layout.char_increment <= count * layout.char_increment) by (nonlinear_arith)
            requires
                base == c * layout.char_increment,
                c + 1 <= count,
        ;
        base = base + layout.char_increment;
        c += 1;
    }
    cache
}

/// One channel of a colour.
pub open spec fn channel(rgb: (u8, u8, u8), k: int) -> u8 {
    if k == 0 {
        rgb.0
    } else if k == 1 {
        rgb.1
    } else {
        rgb.2
    }
}

/// An RGB24 buffer with the colours of one row stored from byte `at` on.
pub open spec fn with_row(buf: Seq<u8>, at: int, colors: Seq<(u8, u8, u8)>) -> Seq<u8> {
    Seq::new(
        buf.len(),
        |k: int|
            if at <= k < at + 3 * colors.len() {
                channel(colors[(k - at) / 3], (k - at) % 3)
            } else {
                buf[k]
            },
    )
}

/// Store one row of colours into an RGB24 buffer.
pub fn put_row(buf: &mut Vec<u8>, at: usize, colors: &Vec<(u8, u8, u8)>)
    requires
        at + 3 * colors@.len() <= old(buf)@.len(),
    ensures
        final(buf)@ == with_row(old(buf)@, at as int, colors@),
{
    let ghost start = buf@;
    let size: usize = buf.len();
    let mut x: usize = 0;
    let mut at_x: usize = at;
    while x < colors.len()
        invariant
            x <= colors@.len(),
            at_x == at + 3 * x,
            at + 3 * colors@.len() <= start.len(),
            start.len() == size,
            buf@ == with_row(start, at as int, colors@.take(x as int)),
        decreases colors@.len() - x,
    {
        let (r, g, b) = colors[x];
        let ghost before = buf@;
        buf[at_x] = r;
        buf[at_x + 1] = g;
        buf[at_x + 2] = b;
        x += 1;
        proof {
            let done = colors@.take(x as int);
            assert forall|k: int| 0 <= k < start.len() implies buf@[k] == with_row(
                start,
                at as int,
                done,
            )[k] by {
                if at <= k < at_x {
                    assert(done[(k - at) / 3] == colors@.take(x - 1)[(k - at) / 3]);
                } else if at_x <= k < at_x + 3 {
                    assert((k - at) / 3 == x - 1);
                }
            }
            assert(buf@ =~= with_row(start, at as int, done));
        }
        at_x += 3;
    }
    assert(colors@.take(colors@.len() as int) =~= colors@);
}

/// A `w` by `h` RGB24 picture turned a quarter turn counterclockwise, so that
/// its right edge becomes the top row.
pub open spec fn rotated_90_ccw(src: Seq<u8>, w: int, h: int) -> Seq<u8> {
    Seq::new(
        (3 * w * h) as nat,
        |k: int|
            {
                let row = (k / 3) / h;
                let col = (k / 3) % h;
                src[3 * (col * w + (w - 1 - row)) + k % 3]
            },
    )
}

/// Turn a `w` by `h` RGB24 picture a quarter turn counterclockwise.
pub fn rotate_90_ccw(src: &[u8], w: usize, h: usize) -> (out: Vec<u8>)
    requires
        0 < w <= 0x1000,
        0 < h <= 0x1000,
        src@.len() == 3 * w * h,
    ensures
        out@ == rotated_90_ccw(src@, w as int, h as int),
{
    let mut out: Vec<u8> = Vec::new();
    let mut row: usize = 0;
    assert(3 * w * h <= 0x3000000) by (nonlinear_arith)
        requires
            w <= 0x1000,
            h <= 0x1000,
    ;
    while row < w
        invariant
            row <= w <= 0x1000,
            0 < h <= 0x1000,
            src@.len() == 3 * w * h,
            3 * w * h <= 0x3000000,
            out@.len() == 3 * (row * h),
            out@ == rotated_90_ccw(src@, w as int, h as int).take(out@.len() as int),
        decreases w - row,
    {
        let mut col: usize = 0;
        assert(row * h + h <= w * h) by (nonlinear_arith)
            requires
                row + 1 <= w,
        ;
        while col < h
            invariant
                col <= h <= 0x1000,
                row < w <= 0x1000,
                row * h + h <= w * h,
                src@.len() == 3 * w * h,
                3 * w * h <= 0x3000000,
                out@.len() == 3 * (row * h + col),
                out@ == rotated_90_ccw(src@, w as int, h as int).take(out@.len() as int),
            decreases h - col,
        {
            let x: usize = w - 1 - row;
            assert(0 <= col * w + x < w * h && col * w <= 0x1000000) by (nonlinear_arith)
                requires
                    0 <= col < h <= 0x1000,
                    0 <= x < w <= 0x1000,
            ;
            assert(3 * w * h == 3 * (w * h)) by (nonlinear_arith);
            let at: usize = 3 * (col * w + x);
            let ghost n = out@.len() as int;
            let ghost before = out@;
            out.push(src[at]);
            out.push(src[at + 1]);
            out.push(src[at + 2]);
            proof {
                let turned = rotated_90_ccw(src@, w as int, h as int);
                assert(n / 3 == row * h + col);
                vstd::arithmetic::div_mod::lemma_fundamental_div_mod_converse(
                    n / 3,
                    h as int,
                    row as int,
                    col as int,
                );
                assert(row * h == h * row) by (nonlinear_arith);
                assert forall|k: int| n <= k < n + 3 implies out@[k] == turned[k] by {
                    assert(k / 3 == n / 3);
                }
                assert(out@ =~= turned.take(n + 3)) by {
                    assert forall|k: int| 0 <= k < n implies out@[k] == turned.take(n + 3)[k] by {
                        assert(before[k] == turned.take(n)[k]);
                    }
                }
            }
            col += 1;
        }
        assert(row * h + h == (row + 1) * h) by (nonlinear_arith);
        row += 1;
    }
    assert(3 * (w * h) == 3 * w * h) by (nonlinear_arith);
    assert(out@ =~= rotated_90_ccw(src@, w as int, h as int));
    out
}

/// The 8-bit level of a `bits`-wide colour value: its bits repeated from the
/// top down.
pub open spec fn pal_nbit_level(value: u8, bits: u8) -> u8 {
    if bits == 2 {
        (value << 6) | (value << 4) | (value << 2) | value
    } else {
        (value << 5) | (value << 2) | (value >> 1)
    }
}

/// Expand a 2- or 3-bit colour value to 8 bits.
pub fn pal_nbit(value: u8, bits: u8) -> (level: u8)
    requires
        bits == 2 && value < 4 || bits == 3 && value < 8,
    ensures
        level == pal_nbit_level(value, bits),
{
    if bits == 2 {
        (value << 6) | (value << 4) | (value << 2) | value
    } else {
        (value << 5) | (value << 2) | (value >> 1)
    }
}

} // verus!
