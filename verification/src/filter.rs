//! The environment-map filter: from one source cubemap to a diffuse
//! irradiance cubemap and a specular mip chain.
//!
//! The source face edge must be a power of two; anything else is rejected
//! with [`LightProbeError::InvalidSourceDimensions`] and nothing is
//! produced.  The diffuse pass is an order-independent reduction: each face
//! of the one-texel-per-face output holds the exact integer average of that
//! source face.  The specular pass builds a mip chain: level zero is the
//! source, and each further level is the two-by-two box average of the one
//! before, standing for a progressively rougher filtering of the same
//! radiance.  All arithmetic is exact integer averaging, so a uniform
//! source filters to exactly the same color everywhere.

use crate::LightProbeError;
use vstd::arithmetic::div_mod::{
    lemma_div_is_ordered, lemma_div_multiples_vanish, lemma_div_pos_is_pos,
    lemma_fundamental_div_mod, lemma_mod_bound,
};
use vstd::arithmetic::mul::{lemma_mul_inequality, lemma_mul_is_commutative};
use vstd::prelude::*;

verus! {

/// Largest accepted face edge; keeps texel counts and color sums far from
/// machine limits.
pub const MAX_EDGE: usize = 4096;

/// One texel: linear radiance in fixed-point channels.
#[derive(Clone, Copy, Debug, PartialEq, Eq, Structural)]
pub struct Color {
    pub r: u32,
    pub g: u32,
    pub b: u32,
}

/// A cubemap: six faces, each a row-major square of `size * size` texels.
pub struct Cubemap {
    pub size: usize,
    pub faces: Vec<Vec<Color>>,
}

/// The two maps the filter publishes: a one-texel-per-face diffuse
/// irradiance cubemap and the specular mip chain, finest level first.
pub struct FilteredMaps {
    pub diffuse: Cubemap,
    pub specular_mips: Vec<Cubemap>,
}

impl Cubemap {
    /// Six faces of the declared square size, within the edge limit.
    pub open spec fn wf(self) -> bool {
        &&& self.faces@.len() == 6
        &&& forall|f: int| 0 <= f < 6 ==> (#[trigger] self.faces@[f])@.len() == self.size * self.size
        &&& self.size <= MAX_EDGE
    }

    /// The texel of face `f` at column `x`, row `y`.
    pub open spec fn texel(self, f: int, x: int, y: int) -> Color {
        self.faces@[f]@[y * self.size + x]
    }
}

/// Every texel of every face equals `c`.
pub open spec fn uniform(src: Cubemap, c: Color) -> bool {
    forall|f: int, x: int, y: int|
        0 <= f < 6 && 0 <= x < src.size && 0 <= y < src.size ==> #[trigger] src.texel(f, x, y) == c
}

/// Power of two, by repeated halving.
pub open spec fn is_pow2(n: int) -> bool
    decreases n,
{
    if n <= 0 {
        false
    } else if n == 1 {
        true
    } else {
        n % 2 == 0 && is_pow2(n / 2)
    }
}

/// Edge length of mip level `m`: the source edge halved `m` times.
pub open spec fn mip_size(size: int, m: int) -> int
    decreases m,
{
    if m <= 0 {
        size
    } else {
        mip_size(size, m - 1) / 2
    }
}

/// Number of mip levels down to one texel.
pub open spec fn num_mips(n: int) -> int
    decreases n,
{
    if n <= 1 {
        1
    } else {
        1 + num_mips(n / 2)
    }
}

/// Exact integer average of four texels, channel by channel.
pub open spec fn avg4(c0: Color, c1: Color, c2: Color, c3: Color) -> Color {
    Color {
        r: ((c0.r + c1.r + c2.r + c3.r) / 4) as u32,
        g: ((c0.g + c1.g + c2.g + c3.g) / 4) as u32,
        b: ((c0.b + c1.b + c2.b + c3.b) / 4) as u32,
    }
}

pub open spec fn sum_red(s: Seq<Color>) -> int
    decreases s.len(),
{
    if s.len() == 0 {
        0
    } else {
        sum_red(s.drop_last()) + s.last().r
    }
}

pub open spec fn sum_green(s: Seq<Color>) -> int
    decreases s.len(),
{
    if s.len() == 0 {
        0
    } else {
        sum_green(s.drop_last()) + s.last().g
    }
}

pub open spec fn sum_blue(s: Seq<Color>) -> int
    decreases s.len(),
{
    if s.len() == 0 {
        0
    } else {
        sum_blue(s.drop_last()) + s.last().b
    }
}

/// The exact integer average of one source face: what the diffuse pass
/// stores for that face.
pub open spec fn face_average(src: Cubemap, f: int) -> Color {
    let n = src.size * src.size;
    Color {
        r: (sum_red(src.faces@[f]@) / n) as u32,
        g: (sum_green(src.faces@[f]@) / n) as u32,
        b: (sum_blue(src.faces@[f]@) / n) as u32,
    }
}

/// The texel of specular mip level `m`: the source at level zero, and the
/// box average of the four covered texels of the level before otherwise.
pub open spec fn mip_texel(src: Cubemap, m: int, f: int, x: int, y: int) -> Color
    decreases m,
{
    if m <= 0 {
        src.texel(f, x, y)
    } else {
        avg4(
            mip_texel(src, m - 1, f, 2 * x, 2 * y),
            mip_texel(src, m - 1, f, 2 * x + 1, 2 * y),
            mip_texel(src, m - 1, f, 2 * x, 2 * y + 1),
            mip_texel(src, m - 1, f, 2 * x + 1, 2 * y + 1),
        )
    }
}

/// What a published result must be, relative to its source.
pub open spec fn filtered_from(src: Cubemap, maps: FilteredMaps) -> bool {
    &&& maps.diffuse.wf()
    &&& maps.diffuse.size == 1
    &&& forall|f: int| 0 <= f < 6 ==> #[trigger] maps.diffuse.texel(f, 0, 0) == face_average(src, f)
    &&& maps.specular_mips@.len() == num_mips(src.size as int)
    &&& forall|m: int|
        0 <= m < maps.specular_mips@.len() ==> (#[trigger] maps.specular_mips@[m]).wf()
            && maps.specular_mips@[m].size == mip_size(src.size as int, m)
    &&& forall|m: int, f: int, x: int, y: int|
        0 <= m < maps.specular_mips@.len() && 0 <= f < 6 && 0 <= x < mip_size(src.size as int, m)
            && 0 <= y < mip_size(src.size as int, m) ==> #[trigger] maps.specular_mips@[m].texel(
            f,
            x,
            y,
        ) == mip_texel(src, m, f, x, y)
}

proof fn lemma_grid_lt(yy: int, xx: int, y: int, w: int)
    by (nonlinear_arith)
    requires
        0 <= yy < y,
        0 <= xx < w,
    ensures
        yy * w + xx < y * w,
{
}

proof fn lemma_mul_step(y: int, w: int)
    by (nonlinear_arith)
    ensures
        (y + 1) * w == y * w + w,
{
}

proof fn lemma_flat_index(j: int, w: int)
    requires
        0 <= j,
        0 < w,
        j < w * w,
    ensures
        0 <= j % w < w,
        0 <= j / w < w,
        (j / w) * w + (j % w) == j,
{
    lemma_fundamental_div_mod(j, w);
    lemma_mod_bound(j, w);
    lemma_div_pos_is_pos(j, w);
    lemma_mul_is_commutative(w, j / w);
    if j / w >= w {
        lemma_mul_inequality(w, j / w, w);
        assert(false);
    }
}

proof fn lemma_div_le(x: int, m: int, d: int)
    requires
        0 <= x,
        x <= d * m,
        0 < d,
        0 <= m,
    ensures
        0 <= x / d <= m,
{
    lemma_div_is_ordered(x, d * m, d);
    lemma_div_multiples_vanish(m, d);
    lemma_div_pos_is_pos(x, d);
}

impl Cubemap {
    /// A cubemap with every texel set to `c`.
    pub fn filled(size: usize, c: Color) -> (r: Cubemap)
        requires
            1 <= size <= MAX_EDGE,
        ensures
            r.wf(),
            r.size == size,
            uniform(r, c),
    {
        assert(size * size <= 4096 * 4096) by (nonlinear_arith)
            requires
                size <= 4096,
        ;
        let count = size * size;
        let mut faces: Vec<Vec<Color>> = Vec::new();
        let mut f: usize = 0;
        while f < 6
            invariant
                f <= 6,
                faces@.len() == f,
                count == size * size,
                forall|ff: int|
                    0 <= ff < f ==> (#[trigger] faces@[ff])@.len() == size * size && forall|j: int|
                        0 <= j < size * size ==> faces@[ff]@[j] == c,
            decreases 6 - f,
        {
            let mut face: Vec<Color> = Vec::new();
            let mut j: usize = 0;
            while j < count
                invariant
                    j <= count,
                    face@.len() == j,
                    forall|k: int| 0 <= k < j ==> face@[k] == c,
                decreases count - j,
            {
                face.push(c);
                j += 1;
            }
            faces.push(face);
            f += 1;
        }
        let r = Cubemap { size, faces };
        proof {
            assert forall|f2: int, x: int, y: int|
                0 <= f2 < 6 && 0 <= x < r.size && 0 <= y < r.size implies #[trigger] r.texel(
                f2,
                x,
                y,
            ) == c by {
                lemma_grid_lt(y, x, size as int, size as int);
            }
        }
        r
    }

    /// Build a cubemap from six face texel vectors; rejects mismatched
    /// sizes rather than assuming them.
    pub fn from_faces(size: usize, faces: Vec<Vec<Color>>) -> (r: Option<Cubemap>)
        ensures
            match r {
                Option::Some(cm) => cm.size == size && cm.faces@ == faces@ && cm.wf(),
                Option::None => size > MAX_EDGE || faces@.len() != 6 || exists|f: int|
                    0 <= f < 6 && (#[trigger] faces@[f])@.len() != size * size,
            },
    {
        if size > MAX_EDGE {
            return None;
        }
        assert(size * size <= 4096 * 4096) by (nonlinear_arith)
            requires
                size <= 4096,
        ;
        if faces.len() != 6 {
            return None;
        }
        let count = size * size;
        let mut f: usize = 0;
        while f < 6
            invariant
                f <= 6,
                count == size * size,
                faces@.len() == 6,
                forall|ff: int| 0 <= ff < f ==> (#[trigger] faces@[ff])@.len() == size * size,
            decreases 6 - f,
        {
            if faces[f].len() != count {
                return None;
            }
            f += 1;
        }
        Some(Cubemap { size, faces })
    }

    /// Read the texel of face `f` at `(x, y)`.
    pub fn texel_at(&self, f: usize, x: usize, y: usize) -> (c: Color)
        requires
            self.wf(),
            f < 6,
            x < self.size,
            y < self.size,
        ensures
            c == self.texel(f as int, x as int, y as int),
    {
        assert(self.size * self.size <= 4096 * 4096) by (nonlinear_arith)
            requires
                self.size <= 4096,
        ;
        proof {
            lemma_grid_lt(y as int, x as int, self.size as int, self.size as int);
        }
        let idx = y * self.size + x;
        let face = &self.faces[f];
        face[idx]
    }

    /// An identical copy.
    fn duplicate(&self) -> (r: Cubemap)
        requires
            self.wf(),
        ensures
            r.wf(),
            r.size == self.size,
            forall|f: int| 0 <= f < 6 ==> (#[trigger] r.faces@[f])@ == self.faces@[f]@,
    {
        let mut faces: Vec<Vec<Color>> = Vec::new();
        let mut f: usize = 0;
        while f < 6
            invariant
                self.wf(),
                f <= 6,
                faces@.len() == f,
                forall|ff: int| 0 <= ff < f ==> (#[trigger] faces@[ff])@ == self.faces@[ff]@,
            decreases 6 - f,
        {
            let src_face = &self.faces[f];
            let mut out: Vec<Color> = Vec::new();
            let mut j: usize = 0;
            while j < src_face.len()
                invariant
                    j <= src_face@.len(),
                    out@ == src_face@.take(j as int),
                decreases src_face@.len() - j,
            {
                out.push(src_face[j]);
                proof {
                    assert(src_face@.take(j as int + 1) =~= src_face@.take(j as int).push(
                        src_face@[j as int],
                    ));
                }
                j += 1;
            }
            proof {
                assert(src_face@.take(src_face@.len() as int) =~= src_face@);
            }
            faces.push(out);
            f += 1;
        }
        Cubemap { size: self.size, faces }
    }
}

/// Whether `n` is a power of two.
pub fn is_power_of_two(n: usize) -> (r: bool)
    ensures
        r == is_pow2(n as int),
{
    if n == 0 {
        return false;
    }
    let mut m = n;
    while m % 2 == 0
        invariant
            1 <= m,
            is_pow2(n as int) == is_pow2(m as int),
        decreases m,
    {
        m = m / 2;
    }
    m == 1
}

fn average4(c0: Color, c1: Color, c2: Color, c3: Color) -> (r: Color)
    ensures
        r == avg4(c0, c1, c2, c3),
{
    let rr = ((c0.r as u64) + (c1.r as u64) + (c2.r as u64) + (c3.r as u64)) / 4;
    let gg = ((c0.g as u64) + (c1.g as u64) + (c2.g as u64) + (c3.g as u64)) / 4;
    let bb = ((c0.b as u64) + (c1.b as u64) + (c2.b as u64) + (c3.b as u64)) / 4;
    proof {
        lemma_div_le((c0.r + c1.r + c2.r + c3.r) as int, 0xffff_ffff, 4);
        lemma_div_le((c0.g + c1.g + c2.g + c3.g) as int, 0xffff_ffff, 4);
        lemma_div_le((c0.b + c1.b + c2.b + c3.b) as int, 0xffff_ffff, 4);
    }
    Color { r: rr as u32, g: gg as u32, b: bb as u32 }
}

/// The exact integer average of face `f` of `src`.
fn face_average_of(src: &Cubemap, f: usize) -> (c: Color)
    requires
        src.wf(),
        1 <= src.size,
        f < 6,
    ensures
        c == face_average(*src, f as int),
{
    assert(src.size * src.size <= 4096 * 4096) by (nonlinear_arith)
        requires
            src.size <= 4096,
    ;
    assert(1 <= src.size * src.size) by (nonlinear_arith)
        requires
            1 <= src.size,
    ;
    let count = src.size * src.size;
    let face = &src.faces[f];
    let mut sum_r: u64 = 0;
    let mut sum_g: u64 = 0;
    let mut sum_b: u64 = 0;
    let mut j: usize = 0;
    while j < count
        invariant
            j <= count,
            count == src.size * src.size,
            count <= 0x100_0000,
            face@.len() == count,
            sum_r as int == sum_red(face@.take(j as int)),
            sum_g as int == sum_green(face@.take(j as int)),
            sum_b as int == sum_blue(face@.take(j as int)),
            sum_r <= j * 0xffff_ffff,
            sum_g <= j * 0xffff_ffff,
            sum_b <= j * 0xffff_ffff,
        decreases count - j,
    {
        let c = face[j];
        proof {
            assert(face@.take(j as int + 1).drop_last() =~= face@.take(j as int));
            assert(face@.take(j as int + 1).last() == face@[j as int]);
        }
        sum_r = sum_r + (c.r as u64);
        sum_g = sum_g + (c.g as u64);
        sum_b = sum_b + (c.b as u64);
        j += 1;
    }
    proof {
        assert(face@.take(count as int) =~= face@);
        lemma_div_le(sum_r as int, 0xffff_ffff, count as int);
        lemma_div_le(sum_g as int, 0xffff_ffff, count as int);
        lemma_div_le(sum_b as int, 0xffff_ffff, count as int);
    }
    let n64 = count as u64;
    Color { r: (sum_r / n64) as u32, g: (sum_g / n64) as u32, b: (sum_b / n64) as u32 }
}

/// The diffuse pass: one averaged texel per face.
fn diffuse_irradiance(src: &Cubemap) -> (r: Cubemap)
    requires
        src.wf(),
        1 <= src.size,
    ensures
        r.wf(),
        r.size == 1,
        forall|f: int| 0 <= f < 6 ==> #[trigger] r.texel(f, 0, 0) == face_average(*src, f),
{
    let mut faces: Vec<Vec<Color>> = Vec::new();
    let mut f: usize = 0;
    while f < 6
        invariant
            src.wf(),
            1 <= src.size,
            f <= 6,
            faces@.len() == f,
            forall|ff: int|
                0 <= ff < f ==> (#[trigger] faces@[ff])@.len() == 1 && faces@[ff]@[0]
                    == face_average(*src, ff),
        decreases 6 - f,
    {
        let avg = face_average_of(src, f);
        let mut one: Vec<Color> = Vec::new();
        one.push(avg);
        faces.push(one);
        f += 1;
    }
    Cubemap { size: 1, faces }
}

/// One level of the specular chain: the two-by-two box average.
fn downsample(src: &Cubemap) -> (r: Cubemap)
    requires
        src.wf(),
        2 <= src.size,
        src.size % 2 == 0,
    ensures
        r.wf(),
        r.size == src.size / 2,
        forall|f: int, x: int, y: int|
            0 <= f < 6 && 0 <= x < src.size / 2 && 0 <= y < src.size / 2 ==> #[trigger] r.texel(
                f,
                x,
                y,
            ) == avg4(
                src.texel(f, 2 * x, 2 * y),
                src.texel(f, 2 * x + 1, 2 * y),
                src.texel(f, 2 * x, 2 * y + 1),
                src.texel(f, 2 * x + 1, 2 * y + 1),
            ),
{
    let half = src.size / 2;
    let mut faces: Vec<Vec<Color>> = Vec::new();
    let mut f: usize = 0;
    while f < 6
        invariant
            src.wf(),
            2 <= src.size,
            src.size % 2 == 0,
            half == src.size / 2,
            f <= 6,
            faces@.len() == f,
            forall|ff: int|
                0 <= ff < f ==> (#[trigger] faces@[ff])@.len() == half * half,
            forall|ff: int, xx: int, yy: int|
                0 <= ff < f && 0 <= xx < half && 0 <= yy < half ==> (#[trigger] faces@[ff]@[yy * half
                    + xx]) == avg4(
                    src.texel(ff, 2 * xx, 2 * yy),
                    src.texel(ff, 2 * xx + 1, 2 * yy),
                    src.texel(ff, 2 * xx, 2 * yy + 1),
                    src.texel(ff, 2 * xx + 1, 2 * yy + 1),
                ),
        decreases 6 - f,
    {
        let face = downsample_face(src, f);
        faces.push(face);
        f += 1;
    }
    let r = Cubemap { size: half, faces };
    proof {
        assert forall|f2: int, x: int, y: int|
            0 <= f2 < 6 && 0 <= x < src.size / 2 && 0 <= y < src.size / 2 implies #[trigger] r.texel(
            f2,
            x,
            y,
        ) == avg4(
            src.texel(f2, 2 * x, 2 * y),
            src.texel(f2, 2 * x + 1, 2 * y),
            src.texel(f2, 2 * x, 2 * y + 1),
            src.texel(f2, 2 * x + 1, 2 * y + 1),
        ) by {
            assert(r.faces@[f2]@[y * half + x] == avg4(
                src.texel(f2, 2 * x, 2 * y),
                src.texel(f2, 2 * x + 1, 2 * y),
                src.texel(f2, 2 * x, 2 * y + 1),
                src.texel(f2, 2 * x + 1, 2 * y + 1),
            ));
        }
    }
    r
}

/// The box-averaged texels of one face, row major at half the edge.
fn downsample_face(src: &Cubemap, f: usize) -> (out: Vec<Color>)
    requires
        src.wf(),
        2 <= src.size,
        src.size % 2 == 0,
        f < 6,
    ensures
        out@.len() == (src.size / 2) * (src.size / 2),
        forall|x: int, y: int|
            0 <= x < src.size / 2 && 0 <= y < src.size / 2 ==> (#[trigger] out@[y * (src.size / 2)
                + x]) == avg4(
                src.texel(f as int, 2 * x, 2 * y),
                src.texel(f as int, 2 * x + 1, 2 * y),
                src.texel(f as int, 2 * x, 2 * y + 1),
                src.texel(f as int, 2 * x + 1, 2 * y + 1),
            ),
{
    let half = src.size / 2;
    let mut out: Vec<Color> = Vec::new();
    let mut y: usize = 0;
    while y < half
        invariant
            src.wf(),
            2 <= src.size,
            src.size % 2 == 0,
            half == src.size / 2,
            f < 6,
            y <= half,
            out@.len() == y * half,
            forall|xx: int, yy: int|
                0 <= xx < half && 0 <= yy < y ==> (#[trigger] out@[yy * half + xx]) == avg4(
                    src.texel(f as int, 2 * xx, 2 * yy),
                    src.texel(f as int, 2 * xx + 1, 2 * yy),
                    src.texel(f as int, 2 * xx, 2 * yy + 1),
                    src.texel(f as int, 2 * xx + 1, 2 * yy + 1),
                ),
        decreases half - y,
    {
        let mut x: usize = 0;
        while x < half
            invariant
                src.wf(),
                2 <= src.size,
                src.size % 2 == 0,
                half == src.size / 2,
                f < 6,
                y < half,
                x <= half,
                out@.len() == y * half + x,
                forall|xx: int, yy: int|
                    0 <= xx < half && 0 <= yy < y ==> (#[trigger] out@[yy * half + xx]) == avg4(
                        src.texel(f as int, 2 * xx, 2 * yy),
                        src.texel(f as int, 2 * xx + 1, 2 * yy),
                        src.texel(f as int, 2 * xx, 2 * yy + 1),
                        src.texel(f as int, 2 * xx + 1, 2 * yy + 1),
                    ),
                forall|xx: int|
                    0 <= xx < x ==> (#[trigger] out@[y * half + xx]) == avg4(
                        src.texel(f as int, 2 * xx, 2 * y as int),
                        src.texel(f as int, 2 * xx + 1, 2 * y as int),
                        src.texel(f as int, 2 * xx, 2 * y as int + 1),
                        src.texel(f as int, 2 * xx + 1, 2 * y as int + 1),
                    ),
            decreases half - x,
        {
            let c0 = src.texel_at(f, 2 * x, 2 * y);
            let c1 = src.texel_at(f, 2 * x + 1, 2 * y);
            let c2 = src.texel_at(f, 2 * x, 2 * y + 1);
            let c3 = src.texel_at(f, 2 * x + 1, 2 * y + 1);
            out.push(average4(c0, c1, c2, c3));
            proof {
                assert forall|xx: int, yy: int|
                    0 <= xx < half && 0 <= yy < y implies (#[trigger] out@[yy * half + xx]) == avg4(
                    src.texel(f as int, 2 * xx, 2 * yy),
                    src.texel(f as int, 2 * xx + 1, 2 * yy),
                    src.texel(f as int, 2 * xx, 2 * yy + 1),
                    src.texel(f as int, 2 * xx + 1, 2 * yy + 1),
                ) by {
                    lemma_grid_lt(yy, xx, y as int, half as int);
                }
            }
            x += 1;
        }
        proof {
            lemma_mul_step(y as int, half as int);
        }
        y += 1;
    }
    out
}

/// The specular pass: mip zero is the source; each next level is the box
/// average of the one before, down to a single texel per face.
fn specular_mip_chain(src: &Cubemap) -> (mips: Vec<Cubemap>)
    requires
        src.wf(),
        is_pow2(src.size as int),
    ensures
        mips@.len() == num_mips(src.size as int),
        forall|m: int|
            0 <= m < mips@.len() ==> (#[trigger] mips@[m]).wf() && mips@[m].size == mip_size(
                src.size as int,
                m,
            ),
        forall|m: int, f: int, x: int, y: int|
            0 <= m < mips@.len() && 0 <= f < 6 && 0 <= x < mip_size(src.size as int, m) && 0 <= y
                < mip_size(src.size as int, m) ==> (#[trigger] mips@[m].texel(f, x, y))
                == mip_texel(*src, m, f, x, y),
{
    let first = src.duplicate();
    let mut mips: Vec<Cubemap> = Vec::new();
    mips.push(first);
    while mips[mips.len() - 1].size > 1
        invariant
            src.wf(),
            is_pow2(src.size as int),
            mips@.len() >= 1,
            forall|m: int|
                0 <= m < mips@.len() ==> (#[trigger] mips@[m]).wf() && mips@[m].size == mip_size(
                    src.size as int,
                    m,
                ),
            forall|m: int, f: int, x: int, y: int|
                0 <= m < mips@.len() && 0 <= f < 6 && 0 <= x < mip_size(src.size as int, m) && 0
                    <= y < mip_size(src.size as int, m) ==> (#[trigger] mips@[m].texel(f, x, y))
                    == mip_texel(*src, m, f, x, y),
            is_pow2(mips@.last().size as int),
            num_mips(src.size as int) == mips@.len() - 1 + num_mips(mips@.last().size as int),
        decreases mips@.last().size,
    {
        let n = mips.len();
        let next = downsample(&mips[n - 1]);
        let ghost cur = mips@.last();
        mips.push(next);
        proof {
            assert(mips@[n as int] == next);
            assert(mips@[n as int - 1] == cur);
            assert(cur.size as int == mip_size(src.size as int, n as int - 1));
            assert(mip_size(src.size as int, n as int) == mip_size(src.size as int, n as int - 1)
                / 2);
            assert forall|f: int, x: int, y: int|
                0 <= f < 6 && 0 <= x < mip_size(src.size as int, n as int) && 0 <= y < mip_size(
                    src.size as int,
                    n as int,
                ) implies (#[trigger] mips@[n as int].texel(f, x, y)) == mip_texel(
                *src,
                n as int,
                f,
                x,
                y,
            ) by {
                assert(next.texel(f, x, y) == avg4(
                    cur.texel(f, 2 * x, 2 * y),
                    cur.texel(f, 2 * x + 1, 2 * y),
                    cur.texel(f, 2 * x, 2 * y + 1),
                    cur.texel(f, 2 * x + 1, 2 * y + 1),
                ));
                assert(cur.texel(f, 2 * x, 2 * y) == mip_texel(*src, n as int - 1, f, 2 * x, 2 * y));
                assert(cur.texel(f, 2 * x + 1, 2 * y) == mip_texel(
                    *src,
                    n as int - 1,
                    f,
                    2 * x + 1,
                    2 * y,
                ));
                assert(cur.texel(f, 2 * x, 2 * y + 1) == mip_texel(
                    *src,
                    n as int - 1,
                    f,
                    2 * x,
                    2 * y + 1,
                ));
                assert(cur.texel(f, 2 * x + 1, 2 * y + 1) == mip_texel(
                    *src,
                    n as int - 1,
                    f,
                    2 * x + 1,
                    2 * y + 1,
                ));
            }
        }
    }
    proof {
        assert(mips@.last().size == 1);
    }
    mips
}

/// Filter one source cubemap into a diffuse irradiance map and a specular
/// mip chain.  A face edge that is not a power of two is rejected with
/// [`LightProbeError::InvalidSourceDimensions`] and nothing is produced;
/// on success the result is exactly [`filtered_from`] the source.
pub fn filter_environment_map(source: &Cubemap) -> (r: Result<FilteredMaps, LightProbeError>)
    requires
        source.wf(),
    ensures
        match r {
            Ok(maps) => is_pow2(source.size as int) && filtered_from(*source, maps),
            Err(e) => e == LightProbeError::InvalidSourceDimensions && !is_pow2(source.size as int),
        },
{
    if !is_power_of_two(source.size) {
        return Err(LightProbeError::InvalidSourceDimensions);
    }
    let diffuse = diffuse_irradiance(source);
    let specular_mips = specular_mip_chain(source);
    Ok(FilteredMaps { diffuse, specular_mips })
}

/// Every mip level of a power-of-two source is itself a power of two, and
/// the level count decreases by one per halving.
proof fn lemma_mip_chain(size: int, m: int)
    requires
        is_pow2(size),
        0 <= m < num_mips(size),
    ensures
        is_pow2(mip_size(size, m)),
        num_mips(mip_size(size, m)) == num_mips(size) - m,
        m > 0 ==> mip_size(size, m - 1) == 2 * mip_size(size, m),
    decreases m,
{
    if m > 0 {
        lemma_mip_chain(size, m - 1);
        let prev = mip_size(size, m - 1);
        assert(num_mips(prev) >= 2);
        assert(prev > 1);
        lemma_fundamental_div_mod(prev, 2);
    }
}

proof fn lemma_sum_uniform(s: Seq<Color>, c: Color)
    requires
        forall|j: int| 0 <= j < s.len() ==> s[j] == c,
    ensures
        sum_red(s) == s.len() * c.r,
        sum_green(s) == s.len() * c.g,
        sum_blue(s) == s.len() * c.b,
    decreases s.len(),
{
    if s.len() > 0 {
        lemma_sum_uniform(s.drop_last(), c);
        lemma_mul_step(s.len() - 1, c.r as int);
        lemma_mul_step(s.len() - 1, c.g as int);
        lemma_mul_step(s.len() - 1, c.b as int);
        lemma_mul_is_commutative(s.len() - 1, c.r as int);
        lemma_mul_is_commutative(s.len() - 1, c.g as int);
        lemma_mul_is_commutative(s.len() - 1, c.b as int);
        lemma_mul_is_commutative(s.len() as int, c.r as int);
        lemma_mul_is_commutative(s.len() as int, c.g as int);
        lemma_mul_is_commutative(s.len() as int, c.b as int);
    }
}

/// Constant in, constant out: feeding a uniform source of color `c` makes
/// the diffuse pass produce exactly `c` for every face, and every texel of
/// every specular mip level exactly `c` — no tolerance needed, since the
/// averaging is exact.
pub proof fn lemma_uniform_source_constant_output(src: Cubemap, c: Color)
    requires
        src.wf(),
        is_pow2(src.size as int),
        uniform(src, c),
    ensures
        forall|f: int| 0 <= f < 6 ==> face_average(src, f) == c,
        forall|m: int, f: int, x: int, y: int|
            0 <= m < num_mips(src.size as int) && 0 <= f < 6 && 0 <= x < mip_size(
                src.size as int,
                m,
            ) && 0 <= y < mip_size(src.size as int, m) ==> mip_texel(src, m, f, x, y) == c,
{
    assert(src.size >= 1);
    assert(src.size * src.size >= 1) by (nonlinear_arith)
        requires
            src.size >= 1,
    ;
    let n = src.size * src.size;
    assert forall|f: int| 0 <= f < 6 implies face_average(src, f) == c by {
        let face = src.faces@[f]@;
        assert forall|j: int| 0 <= j < n implies face[j] == c by {
            lemma_flat_index(j, src.size as int);
            assert(src.texel(f, j % (src.size as int), j / (src.size as int)) == c);
        }
        lemma_sum_uniform(face, c);
        lemma_div_multiples_vanish(c.r as int, n as int);
        lemma_div_multiples_vanish(c.g as int, n as int);
        lemma_div_multiples_vanish(c.b as int, n as int);
        lemma_mul_is_commutative(n as int, c.r as int);
        lemma_mul_is_commutative(n as int, c.g as int);
        lemma_mul_is_commutative(n as int, c.b as int);
    }
    assert forall|m: int, f: int, x: int, y: int|
        0 <= m < num_mips(src.size as int) && 0 <= f < 6 && 0 <= x < mip_size(src.size as int, m)
            && 0 <= y < mip_size(src.size as int, m) implies mip_texel(src, m, f, x, y) == c by {
        lemma_uniform_mip(src, c, m, f, x, y);
    }
}

proof fn lemma_uniform_mip(src: Cubemap, c: Color, m: int, f: int, x: int, y: int)
    requires
        src.wf(),
        is_pow2(src.size as int),
        uniform(src, c),
        0 <= m < num_mips(src.size as int),
        0 <= f < 6,
        0 <= x < mip_size(src.size as int, m),
        0 <= y < mip_size(src.size as int, m),
    ensures
        mip_texel(src, m, f, x, y) == c,
    decreases m,
{
    if m == 0 {
        assert(src.texel(f, x, y) == c);
    } else {
        lemma_mip_chain(src.size as int, m);
        lemma_uniform_mip(src, c, m - 1, f, 2 * x, 2 * y);
        lemma_uniform_mip(src, c, m - 1, f, 2 * x + 1, 2 * y);
        lemma_uniform_mip(src, c, m - 1, f, 2 * x, 2 * y + 1);
        lemma_uniform_mip(src, c, m - 1, f, 2 * x + 1, 2 * y + 1);
        assert(c.r + c.r + c.r + c.r == 4 * c.r);
        assert(c.g + c.g + c.g + c.g == 4 * c.g);
        assert(c.b + c.b + c.b + c.b == 4 * c.b);
        lemma_div_multiples_vanish(c.r as int, 4);
        lemma_div_multiples_vanish(c.g as int, 4);
        lemma_div_multiples_vanish(c.b as int, 4);
    }
}

} // verus!
