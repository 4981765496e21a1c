use vstd::prelude::*;

verus! {

/// The pattern value of texel `(x, y)` in a `w` by `h` tile:
/// `(x * 256 / w) XOR (y * 256 / h)`.
pub open spec fn texel_value(x: int, y: int, w: int, h: int) -> u32 {
    ((x * 256 / w) as u32) ^ ((y * 256 / h) as u32)
}

proof fn lemma_scaled_below_256(x: int, w: int)
    requires
        0 <= x < w,
    ensures
        0 <= x * 256 / w < 256,
{
    vstd::arithmetic::mul::lemma_mul_strict_inequality(x, w, 256);
    vstd::arithmetic::div_mod::lemma_multiply_divide_lt(x * 256, w, 256);
    vstd::arithmetic::div_mod::lemma_div_pos_is_pos(x * 256, w);
}

proof fn lemma_xor_byte(a: u32, b: u32)
    requires
        a < 256,
        b < 256,
    ensures
        a ^ b < 256,
{
    assert(a ^ b < 256) by (bit_vector)
        requires
            a < 256,
            b < 256,
    ;
}

/// Builds a `width` by `height` tile in row-major order, where cell
/// `i` holds `texel_value(i % width, i / width, width, height)`.
pub fn generate_texture(width: usize, height: usize) -> (r: Vec<u32>)
    requires
        width > 0,
        height > 0,
        width * height <= usize::MAX,
    ensures
        r@.len() == width * height,
        forall|i: int|
            0 <= i < r@.len() ==> r@[i] == texel_value(
                i % (width as int),
                i / (width as int),
                width as int,
                height as int,
            ) && #[trigger] r@[i] < 256,
{
    let size: usize = width * height;
    let mut texture: Vec<u32> = Vec::with_capacity(size);
    let mut i: usize = 0;
    while i < size
        invariant
            size == width * height,
            width > 0,
            height > 0,
            i <= size,
            texture@.len() == i,
            forall|k: int|
                0 <= k < i ==> texture@[k] == texel_value(
                    k % (width as int),
                    k / (width as int),
                    width as int,
                    height as int,
                ) && #[trigger] texture@[k] < 256,
        decreases size - i,
    {
        let x: usize = i % width;
        let y: usize = i / width;
        proof {
            vstd::arithmetic::div_mod::lemma_multiply_divide_lt(
                i as int,
                width as int,
                height as int,
            );
            lemma_scaled_below_256(x as int, width as int);
            lemma_scaled_below_256(y as int, height as int);
        }
        let sx: u32 = ((x as u128) * 256 / (width as u128)) as u32;
        let sy: u32 = ((y as u128) * 256 / (height as u128)) as u32;
        let v: u32 = sx ^ sy;
        proof {
            lemma_xor_byte(sx, sy);
        }
        texture.push(v);
        i = i + 1;
    }
    texture
}

/// A square-or-rectangular tile of intensities, stored row-major.
pub struct Texture {
    pub width: usize,
    pub height: usize,
    pub texels: Vec<u32>,
}

impl Texture {
    /// One texel per cell, each an 8-bit intensity.
    pub open spec fn wf(&self) -> bool {
        &&& self.width > 0
        &&& self.height > 0
        &&& self.width * self.height <= usize::MAX
        &&& self.texels@.len() == self.width * self.height
        &&& forall|i: int| 0 <= i < self.texels@.len() ==> #[trigger] self.texels@[i] < 256
    }

    /// Intensity at texel `(x, y)`.
    pub open spec fn texel_at(&self, x: int, y: int) -> u32 {
        self.texels@[y * self.width + x]
    }

    /// The procedural tile of `generate_texture`.
    pub fn generate(width: usize, height: usize) -> (r: Texture)
        requires
            width > 0,
            height > 0,
            width * height <= usize::MAX,
        ensures
            r.wf(),
            r.width == width,
            r.height == height,
            forall|x: int, y: int|
                0 <= x < width && 0 <= y < height ==> #[trigger] r.texel_at(x, y) == texel_value(
                    x,
                    y,
                    width as int,
                    height as int,
                ),
    {
        let texels = generate_texture(width, height);
        let r = Texture { width, height, texels };
        assert forall|x: int, y: int| 0 <= x < width && 0 <= y < height implies #[trigger] r.texel_at(
            x,
            y,
        ) == texel_value(x, y, width as int, height as int) by {
            crate::projection::lemma_cell_index(x, y, width as int, height as int);
        }
        r
    }

    /// Intensity at texel `(x, y)`.
    pub fn texel(&self, x: usize, y: usize) -> (r: u32)
        requires
            self.wf(),
            x < self.width,
            y < self.height,
        ensures
            r == self.texel_at(x as int, y as int),
            r < 256,
    {
        proof {
            crate::projection::lemma_cell_index(x as int, y as int, self.width as int, self.height as int);
        }
        self.texels[y * self.width + x]
    }
}

} // verus!
