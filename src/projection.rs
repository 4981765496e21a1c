use vstd::prelude::*;

verus! {

/// `r` is the integer square root of `n`: the largest `r` with `r * r <= n`.
pub open spec fn is_floor_sqrt(r: int, n: int) -> bool {
    0 <= r && r * r <= n && n < (r + 1) * (r + 1)
}

/// The integer square root of `n`.
pub open spec fn floor_sqrt(n: int) -> int {
    choose|r: int| is_floor_sqrt(r, n)
}

/// Squared Euclidean distance from `(x, y)` to the projection center `(cx, cy)`.
pub open spec fn squared_radius(x: int, y: int, cx: int, cy: int) -> int {
    (x - cx) * (x - cx) + (y - cy) * (y - cy)
}

/// Depth coordinate of cell `(x, y)`: `floor(ratio * th / sqrt(s)) mod th`, where
/// `s` is the squared radius. Since `floor(c / sqrt(s)) == floor_sqrt(floor(c * c / s))`
/// for positive `c` and `s`, the value is exact integer arithmetic. The center
/// itself (`s == 0`) has no defined depth and takes the deepest ring, `th - 1`.
pub open spec fn distance_value(x: int, y: int, cx: int, cy: int, th: int, ratio: int) -> int {
    let s = squared_radius(x, y, cx, cy);
    if s == 0 {
        th - 1
    } else {
        floor_sqrt((ratio * th) * (ratio * th) / s) % th
    }
}

/// Angular coordinate: the raw sector index reduced by a true (never negative) modulo.
pub open spec fn angle_value(raw: int, tw: int) -> int {
    raw % tw
}

/// The integer square root is unique.
pub proof fn lemma_floor_sqrt_unique(r: int, n: int)
    requires
        is_floor_sqrt(r, n),
    ensures
        floor_sqrt(n) == r,
{
    let q = floor_sqrt(n);
    assert(is_floor_sqrt(q, n));
    if q < r {
        assert((q + 1) * (q + 1) <= r * r) by (nonlinear_arith)
            requires
                0 <= q < r,
        ;
    } else if r < q {
        assert((r + 1) * (r + 1) <= q * q) by (nonlinear_arith)
            requires
                0 <= r < q,
        ;
    }
}

/// Largest `r` with `r * r <= n`, by bisection.
pub fn isqrt(n: u128) -> (r: u128)
    ensures
        is_floor_sqrt(r as int, n as int),
        r as int == floor_sqrt(n as int),
{
    let mut lo: u128 = 0;
    let mut hi: u128 = 0x1_0000_0000_0000_0000;
    assert(n < 0x1_0000_0000_0000_0000 * 0x1_0000_0000_0000_0000) by (nonlinear_arith)
        requires
            n <= u128::MAX,
    ;
    while hi - lo > 1
        invariant
            lo < hi <= 0x1_0000_0000_0000_0000,
            lo * lo <= n,
            n < hi * hi,
        decreases hi - lo,
    {
        let mid: u128 = lo + (hi - lo) / 2;
        assert(mid * mid < 0x1_0000_0000_0000_0000 * 0x1_0000_0000_0000_0000) by (nonlinear_arith)
            requires
                0 <= mid < 0x1_0000_0000_0000_0000,
        ;
        if mid * mid <= n {
            lo = mid;
        } else {
            hi = mid;
        }
    }
    proof {
        lemma_floor_sqrt_unique(lo as int, n as int);
    }
    lo
}

/// Distance of two coordinates, `|a - b|`.
fn abs_diff(a: u32, b: u32) -> (r: u64)
    ensures
        r as int == if a >= b { a - b } else { b - a },
        r * r == (a - b) * (a - b),
{
    let r: u64 = if a >= b {
        (a - b) as u64
    } else {
        (b - a) as u64
    };
    assert(r * r == (a - b) * (a - b)) by (nonlinear_arith)
        requires
            r == a - b || r == b - a,
    ;
    r
}

/// Depth coordinate of one cell.
pub fn distance_cell(x: u32, y: u32, cx: u32, cy: u32, th: u32, ratio: u32) -> (r: u32)
    requires
        th > 0,
    ensures
        r as int == distance_value(x as int, y as int, cx as int, cy as int, th as int, ratio as int),
        r < th,
{
    let dx: u64 = abs_diff(x, cx);
    let dy: u64 = abs_diff(y, cy);
    assert(dx * dx <= 0xffff_ffff * 0xffff_ffff && dy * dy <= 0xffff_ffff * 0xffff_ffff)
        by (nonlinear_arith)
        requires
            dx <= 0xffff_ffff,
            dy <= 0xffff_ffff,
    ;
    let s: u128 = (dx as u128) * (dx as u128) + (dy as u128) * (dy as u128);
    if s == 0 {
        th - 1
    } else {
        assert(ratio * th <= 0xffff_ffff * 0xffff_ffff) by (nonlinear_arith)
            requires
                ratio <= 0xffff_ffff,
                th <= 0xffff_ffff,
        ;
        let c: u128 = (ratio as u128) * (th as u128);
        assert(c * c <= u128::MAX) by (nonlinear_arith)
            requires
                c == ratio * th,
                ratio <= 0xffff_ffff,
                th <= 0xffff_ffff,
        ;
        let root: u128 = isqrt(c * c / s);
        (root % (th as u128)) as u32
    }
}

/// Angular coordinate of one cell: `raw mod tw`, never negative.
pub fn reduce_angle(raw: i64, tw: u32) -> (r: u32)
    requires
        tw > 0,
    ensures
        r as int == angle_value(raw as int, tw as int),
        r < tw,
{
    match raw.checked_rem_euclid(tw as i64) {
        Some(v) => v as u32,
        None => 0,
    }
}

/// Why a projection table could not be built.
#[derive(Debug, Clone, Copy, PartialEq, Eq, Structural)]
pub enum TableError {
    /// The grid has no rows or no columns.
    EmptyGrid,
    /// The texture has no rows or no columns.
    EmptyTexture,
    /// The raw angles do not hold one entry per grid cell.
    AngleCountMismatch,
}

/// Per-cell (distance, angle) lookup grid, stored row-major, each entry already
/// reduced into texture coordinates.
pub struct ProjectionTable {
    pub width: u32,
    pub height: u32,
    pub center_x: u32,
    pub center_y: u32,
    pub tex_width: u32,
    pub tex_height: u32,
    pub ratio: u32,
    pub distances: Vec<u32>,
    pub angles: Vec<u32>,
}

impl ProjectionTable {
    /// Every entry is in texture range and the grids have one entry per cell.
    pub open spec fn wf(&self) -> bool {
        &&& self.width > 0
        &&& self.height > 0
        &&& self.tex_width > 0
        &&& self.tex_height > 0
        &&& self.width * self.height <= usize::MAX
        &&& self.distances@.len() == self.width * self.height
        &&& self.angles@.len() == self.width * self.height
        &&& forall|i: int| 0 <= i < self.distances@.len() ==> #[trigger] self.distances@[i] < self.tex_height
        &&& forall|i: int| 0 <= i < self.angles@.len() ==> #[trigger] self.angles@[i] < self.tex_width
        &&& forall|i: int|
            0 <= i < self.distances@.len() ==> #[trigger] self.distances@[i] as int == distance_value(
                i % (self.width as int),
                i / (self.width as int),
                self.center_x as int,
                self.center_y as int,
                self.tex_height as int,
                self.ratio as int,
            )
    }

    /// Depth coordinate stored for cell `(x, y)`.
    pub open spec fn distance_at(&self, x: int, y: int) -> u32 {
        self.distances@[y * self.width + x]
    }

    /// Angular coordinate stored for cell `(x, y)`.
    pub open spec fn angle_at(&self, x: int, y: int) -> u32 {
        self.angles@[y * self.width + x]
    }

    /// Builds the table for a `width` by `height` grid around `(center_x, center_y)`.
    /// `raw_angles[y * width + x]` is the unreduced sector index
    /// `floor(0.5 * tex_width * atan2(y - center_y, x - center_x) / pi)` of each cell.
    pub fn new(
        width: u32,
        height: u32,
        center_x: u32,
        center_y: u32,
        tex_width: u32,
        tex_height: u32,
        ratio: u32,
        raw_angles: &Vec<i64>,
    ) -> (r: Result<ProjectionTable, TableError>)
        requires
            width * height <= usize::MAX,
        ensures
            width == 0 || height == 0 <==> r == Err::<ProjectionTable, TableError>(
                TableError::EmptyGrid,
            ),
            width > 0 && height > 0 && (tex_width == 0 || tex_height == 0) <==> r == Err::<
                ProjectionTable,
                TableError,
            >(TableError::EmptyTexture),
            width > 0 && height > 0 && tex_width > 0 && tex_height > 0 && raw_angles@.len() != width
                * height <==> r == Err::<ProjectionTable, TableError>(
                TableError::AngleCountMismatch,
            ),
            r is Ok ==> {
                let t = r->Ok_0;
                &&& t.wf()
                &&& t.width == width && t.height == height
                &&& t.center_x == center_x && t.center_y == center_y
                &&& t.tex_width == tex_width && t.tex_height == tex_height
                &&& t.ratio == ratio
                &&& forall|i: int|
                    0 <= i < width * height ==> #[trigger] t.distances@[i] as int == distance_value(
                        i % (width as int),
                        i / (width as int),
                        center_x as int,
                        center_y as int,
                        tex_height as int,
                        ratio as int,
                    )
                &&& forall|i: int|
                    0 <= i < width * height ==> #[trigger] t.angles@[i] as int == angle_value(
                        raw_angles@[i] as int,
                        tex_width as int,
                    )
            },
    {
        if width == 0 || height == 0 {
            return Err(TableError::EmptyGrid);
        }
        if tex_width == 0 || tex_height == 0 {
            return Err(TableError::EmptyTexture);
        }
        let size: usize = (width as usize) * (height as usize);
        if raw_angles.len() != size {
            return Err(TableError::AngleCountMismatch);
        }
        let w: usize = width as usize;
        let mut distances: Vec<u32> = Vec::with_capacity(size);
        let mut angles: Vec<u32> = Vec::with_capacity(size);
        let mut i: usize = 0;
        while i < size
            invariant
                size == width * height,
                w == width,
                width > 0,
                height > 0,
                tex_width > 0,
                tex_height > 0,
                raw_angles@.len() == size,
                i <= size,
                distances@.len() == i,
                angles@.len() == i,
                forall|k: int| 0 <= k < i ==> #[trigger] distances@[k] < tex_height,
                forall|k: int| 0 <= k < i ==> #[trigger] angles@[k] < tex_width,
                forall|k: int|
                    0 <= k < i ==> #[trigger] distances@[k] as int == distance_value(
                        k % (width as int),
                        k / (width as int),
                        center_x as int,
                        center_y as int,
                        tex_height as int,
                        ratio as int,
                    ),
                forall|k: int|
                    0 <= k < i ==> #[trigger] angles@[k] as int == angle_value(
                        raw_angles@[k] as int,
                        tex_width as int,
                    ),
            decreases size - i,
        {
            let x: usize = i % w;
            let y: usize = i / w;
            proof {
                vstd::arithmetic::div_mod::lemma_multiply_divide_lt(
                    i as int,
                    width as int,
                    height as int,
                );
            }
            distances.push(distance_cell(x as u32, y as u32, center_x, center_y, tex_height, ratio));
            angles.push(reduce_angle(raw_angles[i], tex_width));
            i = i + 1;
        }
        Ok(ProjectionTable {
            width,
            height,
            center_x,
            center_y,
            tex_width,
            tex_height,
            ratio,
            distances,
            angles,
        })
    }

    /// Depth coordinate of cell `(x, y)`.
    pub fn distance(&self, x: u32, y: u32) -> (r: u32)
        requires
            self.wf(),
            x < self.width,
            y < self.height,
        ensures
            r == self.distance_at(x as int, y as int),
            r < self.tex_height,
    {
        proof {
            lemma_cell_index(x as int, y as int, self.width as int, self.height as int);
        }
        self.distances[(y as usize) * (self.width as usize) + (x as usize)]
    }

    /// Angular coordinate of cell `(x, y)`.
    pub fn angle(&self, x: u32, y: u32) -> (r: u32)
        requires
            self.wf(),
            x < self.width,
            y < self.height,
        ensures
            r == self.angle_at(x as int, y as int),
            r < self.tex_width,
    {
        proof {
            lemma_cell_index(x as int, y as int, self.width as int, self.height as int);
        }
        self.angles[(y as usize) * (self.width as usize) + (x as usize)]
    }
}

/// The projection center has no direction and no finite depth: its cell holds
/// the fallback depth `tex_height - 1`, a defined texture coordinate.
pub proof fn lemma_center_cell(t: &ProjectionTable)
    requires
        t.wf(),
        t.center_x < t.width,
        t.center_y < t.height,
    ensures
        t.distance_at(t.center_x as int, t.center_y as int) == t.tex_height - 1,
{
    let i = t.center_y * t.width + t.center_x;
    lemma_cell_index(t.center_x as int, t.center_y as int, t.width as int, t.height as int);
    assert(t.distances@[i] as int == distance_value(
        t.center_x as int,
        t.center_y as int,
        t.center_x as int,
        t.center_y as int,
        t.tex_height as int,
        t.ratio as int,
    ));
}

/// Row-major index of cell `(x, y)` lies in the grid, and recovers `x` and `y`.
pub proof fn lemma_cell_index(x: int, y: int, w: int, h: int)
    requires
        0 <= x < w,
        0 <= y < h,
    ensures
        0 <= y * w + x < w * h,
        (y * w + x) % w == x,
        (y * w + x) / w == y,
{
    assert(0 <= y * w + x < w * h) by (nonlinear_arith)
        requires
            0 <= x < w,
            0 <= y < h,
    ;
    vstd::arithmetic::div_mod::lemma_fundamental_div_mod_converse(y * w + x, w, y, x);
}

} // verus!
