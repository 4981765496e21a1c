use vstd::prelude::*;
use crate::projection::{ProjectionTable, TableError, lemma_cell_index};
use crate::texture::{Texture, texel_value};
use crate::projection::angle_value;

verus! {

/// Side of the square procedural texture.
pub const TEXTURE_SIZE: u32 = 256;

/// Scale of the depth coordinate: how densely the rings repeat.
pub const DEPTH_RATIO: u32 = 64;

/// `(d + shift) mod size`, exact for every shift, however large.
pub fn wrap(d: u32, shift: u64, size: u32) -> (r: u32)
    requires
        size > 0,
    ensures
        r as int == (d as int + shift as int) % (size as int),
        r < size,
{
    (((d as u128) + (shift as u128)) % (size as u128)) as u32
}

/// Per-frame offsets: how far the texture has scrolled along each axis and
/// which sub-window of the projection table is sampled.
#[derive(Debug, Clone, Copy, PartialEq, Eq, Structural)]
pub struct Scroll {
    pub shift_x: u64,
    pub shift_y: u64,
    pub look_x: u32,
    pub look_y: u32,
}

/// The fixed scene: output size, texture and projection table.
pub struct World {
    pub width: u32,
    pub height: u32,
    pub texture: Texture,
    pub table: ProjectionTable,
}

impl World {
    /// The texture is the one the table's coordinates index, and a frame fits in memory.
    pub open spec fn wf(&self) -> bool {
        &&& self.width > 0
        &&& self.height > 0
        &&& 4 * self.width * self.height <= usize::MAX
        &&& self.texture.wf()
        &&& self.table.wf()
        &&& self.texture.width == self.table.tex_width
        &&& self.texture.height == self.table.tex_height
    }

    /// The sampled window of `s` lies inside the projection table.
    pub open spec fn fits(&self, s: Scroll) -> bool {
        &&& s.look_x + self.width <= self.table.width
        &&& s.look_y + self.height <= self.table.height
    }

    /// Green intensity of output pixel `p` (row-major) under scroll `s`.
    pub open spec fn green_at(&self, s: Scroll, p: int) -> u8 {
        let x = p % (self.width as int) + s.look_x;
        let y = p / (self.width as int) + s.look_y;
        let tx = (self.table.distance_at(x, y) + s.shift_x) % (self.table.tex_width as int);
        let ty = (self.table.angle_at(x, y) + s.shift_y) % (self.table.tex_height as int);
        self.texture.texel_at(tx, ty) as u8
    }

    /// Byte `i` of the frame: pixels are `(0, green, 0, 255)`.
    pub open spec fn frame_byte(&self, s: Scroll, i: int) -> u8 {
        let c = i % 4;
        if c == 1 {
            self.green_at(s, i / 4)
        } else if c == 3 {
            255
        } else {
            0
        }
    }

    /// The `len` frame bytes that start at byte `start`.
    pub open spec fn frame_bytes(&self, s: Scroll, start: int, len: nat) -> Seq<u8> {
        Seq::new(len, |k: int| self.frame_byte(s, start + k))
    }

    /// The whole frame under scroll `s`.
    pub open spec fn frame(&self, s: Scroll) -> Seq<u8> {
        self.frame_bytes(s, 0, (4 * self.width * self.height) as nat)
    }

    /// The scene of a `width` by `height` output: the procedural texture of
    /// side `TEXTURE_SIZE`, and a table twice the output size in each direction,
    /// centered at `(width, height)`, so that the sampled window can sway by up
    /// to half the output size without leaving it. `raw_angles` holds the
    /// unreduced sector index of each table cell, as `ProjectionTable::new` takes it.
    pub fn new(width: u32, height: u32, raw_angles: &Vec<i64>) -> (r: Result<World, TableError>)
        requires
            4 * width * height <= usize::MAX,
            width <= 0x7fff_ffff,
            height <= 0x7fff_ffff,
        ensures
            width == 0 || height == 0 <==> r == Err::<World, TableError>(TableError::EmptyGrid),
            width > 0 && height > 0 && raw_angles@.len() != 4 * width * height <==> r == Err::<
                World,
                TableError,
            >(TableError::AngleCountMismatch),
            r is Ok <==> width > 0 && height > 0 && raw_angles@.len() == 4 * width * height,
            r is Ok ==> {
                let w = r->Ok_0;
                &&& w.wf()
                &&& w.width == width && w.height == height
                &&& w.texture.width == TEXTURE_SIZE && w.texture.height == TEXTURE_SIZE
                &&& forall|x: int, y: int|
                    0 <= x < TEXTURE_SIZE && 0 <= y < TEXTURE_SIZE ==> #[trigger] w.texture.texel_at(
                        x,
                        y,
                    ) == texel_value(x, y, TEXTURE_SIZE as int, TEXTURE_SIZE as int)
                &&& w.table.width == 2 * width && w.table.height == 2 * height
                &&& w.table.center_x == width && w.table.center_y == height
                &&& w.table.tex_width == TEXTURE_SIZE && w.table.tex_height == TEXTURE_SIZE
                &&& w.table.ratio == DEPTH_RATIO
                &&& forall|i: int|
                    0 <= i < 4 * width * height ==> #[trigger] w.table.angles@[i] as int
                        == angle_value(raw_angles@[i] as int, TEXTURE_SIZE as int)
            },
    {
        if width == 0 || height == 0 {
            return Err(TableError::EmptyGrid);
        }
        assert((2 * width) * (2 * height) == 4 * width * height) by (nonlinear_arith);
        let table = match ProjectionTable::new(
            2 * width,
            2 * height,
            width,
            height,
            TEXTURE_SIZE,
            TEXTURE_SIZE,
            DEPTH_RATIO,
            raw_angles,
        ) {
            Ok(t) => t,
            Err(e) => {
                return Err(e);
            },
        };
        let texture = Texture::generate(TEXTURE_SIZE as usize, TEXTURE_SIZE as usize);
        Ok(World { width, height, texture, table })
    }

    /// The offsets of one frame: the texture scrolled by `(shift_x, shift_y)`,
    /// and the sampled window moved from the middle of the table by
    /// `(bob_x, bob_y)`. `None` when that window would leave the table.
    pub fn scroll(&self, shift_x: u64, shift_y: u64, bob_x: i64, bob_y: i64) -> (r: Option<Scroll>)
        requires
            self.wf(),
        ensures
            ({
                let lx = self.width / 2 + bob_x;
                let ly = self.height / 2 + bob_y;
                match r {
                    Some(s) => {
                        &&& 0 <= lx && lx + self.width <= self.table.width
                        &&& 0 <= ly && ly + self.height <= self.table.height
                        &&& s == Scroll {
                            shift_x,
                            shift_y,
                            look_x: lx as u32,
                            look_y: ly as u32,
                        }
                        &&& self.fits(s)
                    },
                    None => !(0 <= lx && lx + self.width <= self.table.width && 0 <= ly && ly
                        + self.height <= self.table.height),
                }
            }),
    {
        let lx: i128 = (self.width / 2) as i128 + bob_x as i128;
        let ly: i128 = (self.height / 2) as i128 + bob_y as i128;
        if 0 <= lx && lx + (self.width as i128) <= (self.table.width as i128) && 0 <= ly && ly
            + (self.height as i128) <= (self.table.height as i128) {
            Some(Scroll { shift_x, shift_y, look_x: lx as u32, look_y: ly as u32 })
        } else {
            None
        }
    }

    /// Renders the whole frame in one pass.
    pub fn render(&self, frame: &mut [u8], s: &Scroll)
        requires
            self.wf(),
            self.fits(*s),
            old(frame)@.len() == 4 * self.width * self.height,
        ensures
            final(frame)@ == self.frame(*s),
    {
        proof {
            assert(4 * self.width * self.height == (self.width * self.height) * 4)
                by (nonlinear_arith);
            vstd::arithmetic::div_mod::lemma_fundamental_div_mod_converse(
                4 * self.width * self.height,
                4,
                self.width * self.height,
                0,
            );
        }
        self.render_band(frame, 0, s);
    }

    /// The frame bytes from `start` to `total`, cut into consecutive bands of
    /// `band_len` bytes (the last one shorter) and joined again.
    pub open spec fn banded(&self, s: Scroll, start: int, band_len: nat, total: int) -> Seq<u8>
        decreases total - start,
    {
        if start >= total || band_len == 0 {
            Seq::empty()
        } else if start + band_len >= total {
            self.frame_bytes(s, start, (total - start) as nat)
        } else {
            self.frame_bytes(s, start, band_len) + self.banded(s, start + band_len, band_len, total)
        }
    }

    /// Writes the pixels `first_pixel ..` of the frame into `band`, four bytes each.
    pub fn render_band(&self, band: &mut [u8], first_pixel: usize, s: &Scroll)
        requires
            self.wf(),
            self.fits(*s),
            old(band)@.len() % 4 == 0,
            first_pixel + old(band)@.len() / 4 <= self.width * self.height,
        ensures
            final(band)@ == self.frame_bytes(*s, 4 * first_pixel, old(band)@.len()),
    {
        let blen: usize = band.len();
        let n: usize = blen / 4;
        assert(self.width * self.height <= 4 * self.width * self.height) by (nonlinear_arith)
            requires
                self.width > 0,
                self.height > 0,
        ;
        let w: usize = self.width as usize;
        let tw: u32 = self.table.tex_width;
        let th: u32 = self.table.tex_height;
        let ghost len = blen as nat;
        let mut i: usize = 0;
        while i < n
            invariant
                self.wf(),
                self.fits(*s),
                len == old(band)@.len(),
                len == blen,
                band@.len() == len,
                len % 4 == 0,
                n == len / 4,
                w == self.width,
                tw == self.table.tex_width,
                th == self.table.tex_height,
                first_pixel + n <= self.width * self.height,
                self.width * self.height <= usize::MAX,
                i <= n,
                forall|k: int| 0 <= k < 4 * i ==> #[trigger] band@[k] == self.frame_byte(*s, 4 * first_pixel + k),
            decreases n - i,
        {
            let p: usize = first_pixel + i;
            let x: usize = p % w;
            let y: usize = p / w;
            proof {
                vstd::arithmetic::div_mod::lemma_multiply_divide_lt(
                    p as int,
                    w as int,
                    self.height as int,
                );
            }
            let gx: u32 = (x as u32) + s.look_x;
            let gy: u32 = (y as u32) + s.look_y;
            let tx: u32 = wrap(self.table.distance(gx, gy), s.shift_x, tw);
            let ty: u32 = wrap(self.table.angle(gx, gy), s.shift_y, th);
            let green: u8 = self.texture.texel(tx as usize, ty as usize) as u8;
            let ghost before = band@;
            band[4 * i] = 0u8;
            band[4 * i + 1] = green;
            band[4 * i + 2] = 0u8;
            band[4 * i + 3] = 255u8;
            proof {
                assert forall|k: int| 0 <= k < 4 * (i + 1) implies #[trigger] band@[k] == self.frame_byte(
                    *s,
                    4 * first_pixel + k,
                ) by {
                    if k >= 4 * i {
                        let c = k - 4 * i;
                        vstd::arithmetic::div_mod::lemma_fundamental_div_mod_converse(
                            4 * first_pixel + k,
                            4,
                            p as int,
                            c,
                        );
                    } else {
                        assert(band@[k] == before[k]);
                    }
                }
            }
            i = i + 1;
        }
        proof {
            assert(band@ =~= self.frame_bytes(*s, 4 * first_pixel, len));
        }
    }
}

/// Rows per band when `height` rows are shared among `bands` workers:
/// `height / bands + 1`, so that `bands` such bands cover every row.
pub fn rows_per_band(height: u32, bands: u32) -> (r: u64)
    requires
        bands > 0,
    ensures
        r as int == height / bands + 1,
        r * bands > height,
{
    proof {
        let q = height / bands;
        vstd::arithmetic::div_mod::lemma_fundamental_div_mod(height as int, bands as int);
        assert((q + 1) * bands == bands * q + bands) by (nonlinear_arith);
    }
    (height / bands) as u64 + 1
}

proof fn lemma_banded_from(w: &World, s: Scroll, start: int, band_len: nat, total: int)
    requires
        band_len > 0,
        0 <= start <= total,
    ensures
        w.banded(s, start, band_len, total) == w.frame_bytes(s, start, (total - start) as nat),
    decreases total - start,
{
    if start == total {
        assert(w.frame_bytes(s, start, 0) =~= Seq::<u8>::empty());
    } else if start + band_len < total {
        lemma_banded_from(w, s, start + band_len, band_len, total);
        assert(w.banded(s, start, band_len, total) =~= w.frame_bytes(
            s,
            start,
            (total - start) as nat,
        ));
    }
}

/// Rendering in bands gives the frame that one pass gives: the frame cut into
/// bands of any positive length, each band rendered on its own by
/// `render_band`, and the bands joined, is byte for byte the whole frame.
pub proof fn lemma_bands_match_frame(w: &World, s: Scroll, band_len: nat)
    requires
        band_len > 0,
    ensures
        w.banded(s, 0, band_len, 4 * w.width * w.height) == w.frame(s),
{
    lemma_banded_from(w, s, 0, band_len, 4 * w.width * w.height);
}

/// A frame depends on nothing but the scene's contents and the scroll: two
/// scenes that hold the same sizes, texels and table entries render the same
/// bytes under the same scroll.
pub proof fn lemma_frame_deterministic(w1: &World, w2: &World, s: Scroll)
    requires
        w1.width == w2.width,
        w1.height == w2.height,
        w1.texture.width == w2.texture.width,
        w1.texture.texels@ == w2.texture.texels@,
        w1.table.width == w2.table.width,
        w1.table.tex_width == w2.table.tex_width,
        w1.table.tex_height == w2.table.tex_height,
        w1.table.distances@ == w2.table.distances@,
        w1.table.angles@ == w2.table.angles@,
    ensures
        w1.frame(s) == w2.frame(s),
{
    assert(w1.frame(s) =~= w2.frame(s));
}

/// The pixel that samples the projection center gets a defined intensity: the
/// texel at the fallback depth `tex_height - 1`, scrolled.
pub proof fn lemma_center_pixel(w: &World, s: Scroll)
    requires
        w.wf(),
        w.fits(s),
        s.look_x <= w.table.center_x < s.look_x + w.width,
        s.look_y <= w.table.center_y < s.look_y + w.height,
    ensures
        ({
            let x = w.table.center_x - s.look_x;
            let y = w.table.center_y - s.look_y;
            let tw = w.table.tex_width as int;
            let th = w.table.tex_height as int;
            let tx = (th - 1 + s.shift_x) % tw;
            let ty = (w.table.angle_at(w.table.center_x as int, w.table.center_y as int) + s.shift_y) % th;
            &&& 0 <= y * w.width + x < w.width * w.height
            &&& w.green_at(s, y * w.width + x) == w.texture.texel_at(tx, ty) as u8
            &&& 0 <= tx < tw
            &&& 0 <= ty < th
        }),
{
    let x = w.table.center_x - s.look_x;
    let y = w.table.center_y - s.look_y;
    lemma_cell_index(x, y, w.width as int, w.height as int);
    crate::projection::lemma_center_cell(&w.table);
}

} // verus!
