//! Exact fixed-point affine transforms and the unit-cube containment test.
//!
//! A probe volume is the canonical cube `[-1/2, 1/2]^3` carried into world
//! space by an affine transform.  The transform is stored as an integer
//! matrix of numerators over one positive denominator, plus an integer
//! translation, all at the caller's fixed-point scale.  Containment of a
//! world point is decided exactly with Cramer's rule: the local preimage of
//! a point `p` has coordinates `den * adj(M) * (p - t) / det(M)`, and each
//! lies in the closed interval `[-1/2, 1/2]` iff twice the numerator is at
//! most `det(M)` in magnitude.  Ties on the boundary therefore count as
//! inside, deterministically.

use vstd::math::abs;
use vstd::prelude::*;

verus! {

/// Magnitude bound on matrix entries, denominators, translations and world
/// coordinates.  Keeping every input within this bound lets every
/// intermediate product of the containment test and of the volume
/// comparison fit in `i128` without rounding.
pub const COORD_LIMIT: i64 = 1048576;

/// A world-space point in fixed-point coordinates.
#[derive(Clone, Copy, Debug, PartialEq, Eq, Structural)]
pub struct Point3 {
    pub x: i64,
    pub y: i64,
    pub z: i64,
}

pub open spec fn in_range(v: i64) -> bool {
    -COORD_LIMIT <= v && v <= COORD_LIMIT
}

impl Point3 {
    /// All coordinates within the fixed-point working range.
    pub open spec fn bounded(self) -> bool {
        in_range(self.x) && in_range(self.y) && in_range(self.z)
    }
}

/// An affine transform: the linear part is the integer matrix
/// `m / den` (row major), followed by the translation `(tx, ty, tz)`.
#[derive(Clone, Copy, Debug, PartialEq, Eq, Structural)]
pub struct AffineTransform {
    pub m00: i64,
    pub m01: i64,
    pub m02: i64,
    pub m10: i64,
    pub m11: i64,
    pub m12: i64,
    pub m20: i64,
    pub m21: i64,
    pub m22: i64,
    pub den: i64,
    pub tx: i64,
    pub ty: i64,
    pub tz: i64,
}

/// A two-by-two determinant: `a * b - c * d`.
pub open spec fn cof(a: int, b: int, c: int, d: int) -> int {
    a * b - c * d
}

/// Determinant of the matrix of numerators.
pub open spec fn det(t: AffineTransform) -> int {
    t.m00 * cof(t.m11 as int, t.m22 as int, t.m12 as int, t.m21 as int)
        - t.m01 * cof(t.m10 as int, t.m22 as int, t.m12 as int, t.m20 as int)
        + t.m02 * cof(t.m10 as int, t.m21 as int, t.m11 as int, t.m20 as int)
}

/// First coordinate of `adj(m) * (p - t)`, the numerator (up to the factor
/// `den / det`) of the local-space x coordinate of `p`.
pub open spec fn adj_dot_x(t: AffineTransform, p: Point3) -> int {
    cof(t.m11 as int, t.m22 as int, t.m12 as int, t.m21 as int) * (p.x - t.tx)
        + cof(t.m02 as int, t.m21 as int, t.m01 as int, t.m22 as int) * (p.y - t.ty)
        + cof(t.m01 as int, t.m12 as int, t.m02 as int, t.m11 as int) * (p.z - t.tz)
}

/// Second coordinate of `adj(m) * (p - t)`.
pub open spec fn adj_dot_y(t: AffineTransform, p: Point3) -> int {
    cof(t.m12 as int, t.m20 as int, t.m10 as int, t.m22 as int) * (p.x - t.tx)
        + cof(t.m00 as int, t.m22 as int, t.m02 as int, t.m20 as int) * (p.y - t.ty)
        + cof(t.m02 as int, t.m10 as int, t.m00 as int, t.m12 as int) * (p.z - t.tz)
}

/// Third coordinate of `adj(m) * (p - t)`.
pub open spec fn adj_dot_z(t: AffineTransform, p: Point3) -> int {
    cof(t.m10 as int, t.m21 as int, t.m11 as int, t.m20 as int) * (p.x - t.tx)
        + cof(t.m01 as int, t.m20 as int, t.m00 as int, t.m21 as int) * (p.y - t.ty)
        + cof(t.m00 as int, t.m11 as int, t.m01 as int, t.m10 as int) * (p.z - t.tz)
}

/// The containment predicate: the transform is invertible and the local
/// preimage of `p` lies in the closed cube `[-1/2, 1/2]^3`.  The local
/// x coordinate is `den * adj_dot_x / det`, so `|coordinate| <= 1/2`
/// is exactly `|2 * den * adj_dot_x| <= |det|`.
pub open spec fn contains_point(t: AffineTransform, p: Point3) -> bool {
    &&& det(t) != 0
    &&& abs((2 * t.den) * adj_dot_x(t, p)) <= abs(det(t))
    &&& abs((2 * t.den) * adj_dot_y(t, p)) <= abs(det(t))
    &&& abs((2 * t.den) * adj_dot_z(t, p)) <= abs(det(t))
}

/// The image of the unit cube under `a` has strictly smaller volume than
/// its image under `b`.  The volume is `|det| / den^3`, compared exactly by
/// cross multiplication.
pub open spec fn vol_lt(a: AffineTransform, b: AffineTransform) -> bool {
    abs(det(a)) * (b.den * b.den * b.den) < abs(det(b)) * (a.den * a.den * a.den)
}

impl AffineTransform {
    /// All entries within the fixed-point working range and the denominator
    /// positive.
    pub open spec fn wf(self) -> bool {
        &&& in_range(self.m00) && in_range(self.m01) && in_range(self.m02)
        &&& in_range(self.m10) && in_range(self.m11) && in_range(self.m12)
        &&& in_range(self.m20) && in_range(self.m21) && in_range(self.m22)
        &&& 1 <= self.den && self.den <= COORD_LIMIT
        &&& in_range(self.tx) && in_range(self.ty) && in_range(self.tz)
    }

    /// An axis-aligned cuboid: half extents `hx, hy, hz` over `den`,
    /// centred at the translation.  Convenience constructor for callers and
    /// tests; rotation and shear come from filling the matrix directly.
    pub fn scaled_box(hx: i64, hy: i64, hz: i64, den: i64, tx: i64, ty: i64, tz: i64) -> (r:
        AffineTransform)
        requires
            0 < hx <= COORD_LIMIT / 2,
            0 < hy <= COORD_LIMIT / 2,
            0 < hz <= COORD_LIMIT / 2,
            1 <= den <= COORD_LIMIT,
            in_range(tx),
            in_range(ty),
            in_range(tz),
        ensures
            r.m00 == 2 * hx && r.m11 == 2 * hy && r.m22 == 2 * hz,
            r.m01 == 0 && r.m02 == 0 && r.m10 == 0 && r.m12 == 0 && r.m20 == 0 && r.m21 == 0,
            r.den == den && r.tx == tx && r.ty == ty && r.tz == tz,
            r.wf(),
    {
        AffineTransform {
            m00: 2 * hx,
            m01: 0,
            m02: 0,
            m10: 0,
            m11: 2 * hy,
            m12: 0,
            m20: 0,
            m21: 0,
            m22: 2 * hz,
            den,
            tx,
            ty,
            tz,
        }
    }
}

proof fn lemma_mul_bounds(x: int, y: int, bx: int, by: int)
    by (nonlinear_arith)
    requires
        -bx <= x <= bx,
        -by <= y <= by,
        0 <= bx,
        0 <= by,
    ensures
        -(bx * by) <= x * y <= bx * by,
{
}

/// Multiply two bounded `i128` values; the ghost bounds discharge the
/// overflow check and carry through to the result.
fn mul_bounded(x: i128, y: i128, Ghost(bx): Ghost<int>, Ghost(by): Ghost<int>) -> (r: i128)
    requires
        -bx <= x as int <= bx,
        -by <= y as int <= by,
        0 <= bx,
        0 <= by,
        bx * by <= 0x7fff_ffff_ffff_ffff_ffff_ffff_ffff_ffff,
    ensures
        r as int == (x as int) * (y as int),
        -(bx * by) <= r as int <= bx * by,
{
    proof {
        lemma_mul_bounds(x as int, y as int, bx, by);
    }
    x * y
}

/// `a * b - c * d` on in-range entries, exactly.
fn cofactor(a: i64, b: i64, c: i64, d: i64) -> (r: i128)
    requires
        in_range(a),
        in_range(b),
        in_range(c),
        in_range(d),
    ensures
        r as int == cof(a as int, b as int, c as int, d as int),
        -0x200_0000_0000 <= r as int <= 0x200_0000_0000,
{
    let ab = mul_bounded(a as i128, b as i128, Ghost(0x10_0000), Ghost(0x10_0000));
    let cd = mul_bounded(c as i128, d as i128, Ghost(0x10_0000), Ghost(0x10_0000));
    ab - cd
}

fn abs_i128(x: i128) -> (r: i128)
    requires
        -0x7fff_ffff_ffff_ffff_ffff_ffff_ffff_ffff <= x as int,
    ensures
        r as int == abs(x as int),
{
    if x < 0 {
        -x
    } else {
        x
    }
}

/// The determinant of the matrix of numerators, exactly.
pub fn determinant(t: &AffineTransform) -> (r: i128)
    requires
        t.wf(),
    ensures
        r as int == det(*t),
        -0x6000_0000_0000_0000 <= r as int <= 0x6000_0000_0000_0000,
{
    let c0 = cofactor(t.m11, t.m22, t.m12, t.m21);
    let c1 = cofactor(t.m10, t.m22, t.m12, t.m20);
    let c2 = cofactor(t.m10, t.m21, t.m11, t.m20);
    let p0 = mul_bounded(t.m00 as i128, c0, Ghost(0x10_0000), Ghost(0x200_0000_0000));
    let p1 = mul_bounded(t.m01 as i128, c1, Ghost(0x10_0000), Ghost(0x200_0000_0000));
    let p2 = mul_bounded(t.m02 as i128, c2, Ghost(0x10_0000), Ghost(0x200_0000_0000));
    p0 - p1 + p2
}

impl AffineTransform {
    /// Whether the world point `p` lies inside this volume: the inverse
    /// transform maps it into the closed cube `[-1/2, 1/2]^3`.  A singular
    /// transform contains nothing.
    pub fn contains(&self, p: Point3) -> (r: bool)
        requires
            self.wf(),
            p.bounded(),
        ensures
            r == contains_point(*self, p),
    {
        let d = determinant(self);
        if d == 0 {
            return false;
        }
        let qx = (p.x as i128) - (self.tx as i128);
        let qy = (p.y as i128) - (self.ty as i128);
        let qz = (p.z as i128) - (self.tz as i128);
        let d2 = 2 * (self.den as i128);
        let abs_det = abs_i128(d);

        let a00 = cofactor(self.m11, self.m22, self.m12, self.m21);
        let a01 = cofactor(self.m02, self.m21, self.m01, self.m22);
        let a02 = cofactor(self.m01, self.m12, self.m02, self.m11);
        let ax = mul_bounded(a00, qx, Ghost(0x200_0000_0000), Ghost(0x20_0000))
            + mul_bounded(a01, qy, Ghost(0x200_0000_0000), Ghost(0x20_0000))
            + mul_bounded(a02, qz, Ghost(0x200_0000_0000), Ghost(0x20_0000));
        let sx = mul_bounded(d2, ax, Ghost(0x20_0000), Ghost(0xc000_0000_0000_0000));
        let ok_x = abs_i128(sx) <= abs_det;

        let a10 = cofactor(self.m12, self.m20, self.m10, self.m22);
        let a11 = cofactor(self.m00, self.m22, self.m02, self.m20);
        let a12 = cofactor(self.m02, self.m10, self.m00, self.m12);
        let ay = mul_bounded(a10, qx, Ghost(0x200_0000_0000), Ghost(0x20_0000))
            + mul_bounded(a11, qy, Ghost(0x200_0000_0000), Ghost(0x20_0000))
            + mul_bounded(a12, qz, Ghost(0x200_0000_0000), Ghost(0x20_0000));
        let sy = mul_bounded(d2, ay, Ghost(0x20_0000), Ghost(0xc000_0000_0000_0000));
        let ok_y = abs_i128(sy) <= abs_det;

        let a20 = cofactor(self.m10, self.m21, self.m11, self.m20);
        let a21 = cofactor(self.m01, self.m20, self.m00, self.m21);
        let a22 = cofactor(self.m00, self.m11, self.m01, self.m10);
        let az = mul_bounded(a20, qx, Ghost(0x200_0000_0000), Ghost(0x20_0000))
            + mul_bounded(a21, qy, Ghost(0x200_0000_0000), Ghost(0x20_0000))
            + mul_bounded(a22, qz, Ghost(0x200_0000_0000), Ghost(0x20_0000));
        let sz = mul_bounded(d2, az, Ghost(0x20_0000), Ghost(0xc000_0000_0000_0000));
        let ok_z = abs_i128(sz) <= abs_det;

        ok_x && ok_y && ok_z
    }
}

/// Strictly smaller transformed volume, decided exactly by cross
/// multiplication of `|det| / den^3`.
pub fn volume_lt(a: &AffineTransform, b: &AffineTransform) -> (r: bool)
    requires
        a.wf(),
        b.wf(),
    ensures
        r == vol_lt(*a, *b),
{
    let da = abs_i128(determinant(a));
    let db = abs_i128(determinant(b));
    let ca2 = mul_bounded(a.den as i128, a.den as i128, Ghost(0x10_0000), Ghost(0x10_0000));
    let ca3 = mul_bounded(ca2, a.den as i128, Ghost(0x100_0000_0000), Ghost(0x10_0000));
    let cb2 = mul_bounded(b.den as i128, b.den as i128, Ghost(0x10_0000), Ghost(0x10_0000));
    let cb3 = mul_bounded(cb2, b.den as i128, Ghost(0x100_0000_0000), Ghost(0x10_0000));
    let lhs = mul_bounded(da, cb3, Ghost(0x6000_0000_0000_0000), Ghost(0x1000_0000_0000_0000));
    let rhs = mul_bounded(db, ca3, Ghost(0x6000_0000_0000_0000), Ghost(0x1000_0000_0000_0000));
    lhs < rhs
}

proof fn lemma_cube_pos(d: int)
    by (nonlinear_arith)
    requires
        0 < d,
    ensures
        0 < d * d * d,
{
}

proof fn lemma_ratio_lt_compat(n1: int, d1: int, n2: int, d2: int, n3: int, d3: int)
    by (nonlinear_arith)
    requires
        0 < d1,
        0 < d2,
        0 < d3,
        n1 * d2 < n2 * d1,
        n2 * d3 <= n3 * d2,
    ensures
        n1 * d3 < n3 * d1,
{
}

/// Volume order compatibility: if `a` is strictly smaller than `b` and `c`
/// is not strictly smaller than `b`, then `a` is strictly smaller than `c`.
pub proof fn lemma_vol_lt_compat(a: AffineTransform, b: AffineTransform, c: AffineTransform)
    requires
        a.wf(),
        b.wf(),
        c.wf(),
        vol_lt(a, b),
        !vol_lt(c, b),
    ensures
        vol_lt(a, c),
{
    lemma_cube_pos(a.den as int);
    lemma_cube_pos(b.den as int);
    lemma_cube_pos(c.den as int);
    lemma_ratio_lt_compat(
        abs(det(a)) as int,
        a.den * a.den * a.den,
        abs(det(b)) as int,
        b.den * b.den * b.den,
        abs(det(c)) as int,
        c.den * c.den * c.den,
    );
}

} // verus!
