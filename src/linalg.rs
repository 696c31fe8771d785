use vstd::prelude::*;

use crate::fixed::{
    abs, clamp_lim, clamp_limit, div_trunc, div_trunc_i128, lemma_mul_abs_le,
    rescale, rescale_i128, LIMIT, MAT_LIMIT, ONE,
};

verus! {

/// A fixed-point 2D vector.
#[derive(Clone, Copy, Debug, PartialEq, Eq, Structural)]
pub struct Vec2 {
    pub x: i64,
    pub y: i64,
}

/// A fixed-point 3D vector.
#[derive(Clone, Copy, Debug, PartialEq, Eq, Structural)]
pub struct Vec3 {
    pub x: i64,
    pub y: i64,
    pub z: i64,
}

/// A fixed-point homogeneous 4D vector.
#[derive(Clone, Copy, Debug, PartialEq, Eq, Structural)]
pub struct Vec4 {
    pub x: i64,
    pub y: i64,
    pub z: i64,
    pub w: i64,
}

/// A fixed-point 4x4 matrix, row-major: `m[4 * row + col]`.
#[derive(Clone, Copy, Debug)]
pub struct Mat4 {
    pub m: [i64; 16],
}

impl Vec3 {
    pub open spec fn bounded(self) -> bool {
        &&& abs(self.x as int) <= LIMIT
        &&& abs(self.y as int) <= LIMIT
        &&& abs(self.z as int) <= LIMIT
    }

    pub fn new(x: i64, y: i64, z: i64) -> (v: Vec3)
        ensures
            v == (Vec3 { x, y, z }),
    {
        Vec3 { x, y, z }
    }
}

impl Vec4 {
    pub open spec fn bounded(self) -> bool {
        &&& abs(self.x as int) <= LIMIT
        &&& abs(self.y as int) <= LIMIT
        &&& abs(self.z as int) <= LIMIT
        &&& abs(self.w as int) <= LIMIT
    }
}

impl Mat4 {
    /// Every entry has magnitude at most `MAT_LIMIT`.
    pub open spec fn bounded(self) -> bool {
        forall|i: int| 0 <= i < 16 ==> abs(#[trigger] self.m[i] as int) <= MAT_LIMIT
    }

    pub open spec fn at(self, r: int, c: int) -> int {
        self.m[4 * r + c] as int
    }

    pub fn identity() -> (m: Mat4)
        ensures
            m.bounded(),
            forall|r: int, c: int| 0 <= r < 4 && 0 <= c < 4 ==> #[trigger] m.at(r, c) == if r == c {
                ONE as int
            } else {
                0
            },
    {
        let m = Mat4 { m: [ONE, 0, 0, 0, 0, ONE, 0, 0, 0, 0, ONE, 0, 0, 0, 0, ONE] };
        assert(forall|r: int, c: int| 0 <= r < 4 && 0 <= c < 4 ==> #[trigger] m.at(r, c) == if r == c {
            ONE as int
        } else {
            0
        }) by {
            assert(m.m@ =~= seq![ONE, 0, 0, 0, 0, ONE, 0, 0, 0, 0, ONE, 0, 0, 0, 0, ONE]);
        }
        assert(m.m@ =~= seq![ONE, 0, 0, 0, 0, ONE, 0, 0, 0, 0, ONE, 0, 0, 0, 0, ONE]);
        m
    }
}

/// Unscaled product of row `r` of `m` with `v`.
pub open spec fn row_dot(m: Mat4, r: int, v: Vec4) -> int {
    m.at(r, 0) * v.x + m.at(r, 1) * v.y + m.at(r, 2) * v.z + m.at(r, 3) * v.w
}

/// The fixed-point product `m * v`, each coordinate limited to `[-LIMIT, LIMIT]`.
pub open spec fn mat_vec_spec(m: Mat4, v: Vec4) -> Vec4 {
    Vec4 {
        x: rescale(row_dot(m, 0, v)) as i64,
        y: rescale(row_dot(m, 1, v)) as i64,
        z: rescale(row_dot(m, 2, v)) as i64,
        w: rescale(row_dot(m, 3, v)) as i64,
    }
}

proof fn lemma_row_dot_bound(m: Mat4, r: int, v: Vec4)
    requires
        m.bounded(),
        v.bounded(),
        0 <= r < 4,
    ensures
        abs(row_dot(m, r, v)) <= 4 * (MAT_LIMIT * LIMIT),
{
    assert(abs(m.m[4 * r + 0] as int) <= MAT_LIMIT);
    assert(abs(m.m[4 * r + 1] as int) <= MAT_LIMIT);
    assert(abs(m.m[4 * r + 2] as int) <= MAT_LIMIT);
    assert(abs(m.m[4 * r + 3] as int) <= MAT_LIMIT);
    lemma_mul_abs_le(m.at(r, 0), v.x as int, MAT_LIMIT as int, LIMIT as int);
    lemma_mul_abs_le(m.at(r, 1), v.y as int, MAT_LIMIT as int, LIMIT as int);
    lemma_mul_abs_le(m.at(r, 2), v.z as int, MAT_LIMIT as int, LIMIT as int);
    lemma_mul_abs_le(m.at(r, 3), v.w as int, MAT_LIMIT as int, LIMIT as int);
}

fn row_dot_exec(m: &Mat4, r: usize, v: &Vec4) -> (s: i128)
    requires
        m.bounded(),
        v.bounded(),
        r < 4,
    ensures
        s == row_dot(*m, r as int, *v),
        abs(s as int) <= 4 * (MAT_LIMIT * LIMIT),
{
    proof {
        lemma_row_dot_bound(*m, r as int, *v);
        assert(abs(m.m[4 * r + 0] as int) <= MAT_LIMIT);
        assert(abs(m.m[4 * r + 1] as int) <= MAT_LIMIT);
        assert(abs(m.m[4 * r + 2] as int) <= MAT_LIMIT);
        assert(abs(m.m[4 * r + 3] as int) <= MAT_LIMIT);
        lemma_mul_abs_le(m.at(r as int, 0), v.x as int, MAT_LIMIT as int, LIMIT as int);
        lemma_mul_abs_le(m.at(r as int, 1), v.y as int, MAT_LIMIT as int, LIMIT as int);
        lemma_mul_abs_le(m.at(r as int, 2), v.z as int, MAT_LIMIT as int, LIMIT as int);
        lemma_mul_abs_le(m.at(r as int, 3), v.w as int, MAT_LIMIT as int, LIMIT as int);
    }
    let a: i128 = (m.m[4 * r] as i128) * (v.x as i128);
    let b: i128 = (m.m[4 * r + 1] as i128) * (v.y as i128);
    let c: i128 = (m.m[4 * r + 2] as i128) * (v.z as i128);
    let d: i128 = (m.m[4 * r + 3] as i128) * (v.w as i128);
    a + b + c + d
}

/// The fixed-point product `m * v`, each coordinate limited to `[-LIMIT, LIMIT]`.
pub fn mat_vec(m: &Mat4, v: &Vec4) -> (r: Vec4)
    requires
        m.bounded(),
        v.bounded(),
    ensures
        r == mat_vec_spec(*m, *v),
        r.bounded(),
{
    let x = rescale_i128(row_dot_exec(m, 0, v));
    let y = rescale_i128(row_dot_exec(m, 1, v));
    let z = rescale_i128(row_dot_exec(m, 2, v));
    let w = rescale_i128(row_dot_exec(m, 3, v));
    Vec4 { x, y, z, w }
}

/// Cofactor `(r, c)` of the upper-left 3x3 block of `m` (unscaled, scale `ONE^2`).
pub open spec fn cofactor(m: Mat4, r: int, c: int) -> int {
    let r1 = if r == 0 { 1int } else { 0int };
    let r2 = if r == 2 { 1int } else { 2int };
    let c1 = if c == 0 { 1int } else { 0int };
    let c2 = if c == 2 { 1int } else { 2int };
    let minor = m.at(r1, c1) * m.at(r2, c2) - m.at(r1, c2) * m.at(r2, c1);
    if (r + c) % 2 == 0 {
        minor
    } else {
        -minor
    }
}

/// Determinant of the upper-left 3x3 block of `m` (unscaled, scale `ONE^3`).
pub open spec fn det3(m: Mat4) -> int {
    m.at(0, 0) * cofactor(m, 0, 0) + m.at(0, 1) * cofactor(m, 0, 1) + m.at(0, 2) * cofactor(m, 0, 2)
}

/// Unscaled row `r` of the cofactor matrix applied to `n`.
pub open spec fn cofactor_dot(m: Mat4, r: int, n: Vec3) -> int {
    cofactor(m, r, 0) * n.x + cofactor(m, r, 1) * n.y + cofactor(m, r, 2) * n.z
}

/// A normal transformed by the inverse transpose of the upper-left 3x3 block
/// of `m` (the cofactor matrix divided by the determinant); when that block is
/// singular the normal is returned unchanged.
pub open spec fn normal_transform_spec(m: Mat4, n: Vec3) -> Vec3 {
    let d = det3(m);
    if d == 0 {
        n
    } else {
        Vec3 {
            x: clamp_lim(div_trunc(ONE * cofactor_dot(m, 0, n), d)) as i64,
            y: clamp_lim(div_trunc(ONE * cofactor_dot(m, 1, n), d)) as i64,
            z: clamp_lim(div_trunc(ONE * cofactor_dot(m, 2, n), d)) as i64,
        }
    }
}

/// Bound on the magnitude of a cofactor of a bounded matrix: `2 * MAT_LIMIT^2`, that is 2^65.
pub open spec fn cof_limit() -> int {
    36893488147419103232
}

proof fn lemma_cofactor_bound(m: Mat4, r: int, c: int)
    requires
        m.bounded(),
        0 <= r < 3,
        0 <= c < 3,
    ensures
        abs(cofactor(m, r, c)) <= cof_limit(),
{
    let r1 = if r == 0 { 1int } else { 0int };
    let r2 = if r == 2 { 1int } else { 2int };
    let c1 = if c == 0 { 1int } else { 0int };
    let c2 = if c == 2 { 1int } else { 2int };
    assert(abs(m.m[4 * r1 + c1] as int) <= MAT_LIMIT);
    assert(abs(m.m[4 * r2 + c2] as int) <= MAT_LIMIT);
    assert(abs(m.m[4 * r1 + c2] as int) <= MAT_LIMIT);
    assert(abs(m.m[4 * r2 + c1] as int) <= MAT_LIMIT);
    lemma_mul_abs_le(m.at(r1, c1), m.at(r2, c2), MAT_LIMIT as int, MAT_LIMIT as int);
    lemma_mul_abs_le(m.at(r1, c2), m.at(r2, c1), MAT_LIMIT as int, MAT_LIMIT as int);
    assert(2 * (MAT_LIMIT * MAT_LIMIT) == cof_limit()) by (nonlinear_arith);
}

fn entry(m: &Mat4, r: usize, c: usize) -> (v: i128)
    requires
        m.bounded(),
        r < 4,
        c < 4,
    ensures
        v == m.at(r as int, c as int),
        abs(v as int) <= MAT_LIMIT,
{
    assert(abs(m.m[4 * r + c] as int) <= MAT_LIMIT);
    m.m[4 * r + c] as i128
}

fn cofactor_exec(m: &Mat4, r: usize, c: usize) -> (v: i128)
    requires
        m.bounded(),
        r < 3,
        c < 3,
    ensures
        v == cofactor(*m, r as int, c as int),
        abs(v as int) <= cof_limit(),
{
    proof {
        lemma_cofactor_bound(*m, r as int, c as int);
    }
    let r1: usize = if r == 0 { 1 } else { 0 };
    let r2: usize = if r == 2 { 1 } else { 2 };
    let c1: usize = if c == 0 { 1 } else { 0 };
    let c2: usize = if c == 2 { 1 } else { 2 };
    let p = entry(m, r1, c1);
    let q = entry(m, r2, c2);
    let s = entry(m, r1, c2);
    let t = entry(m, r2, c1);
    proof {
        lemma_mul_abs_le(p as int, q as int, MAT_LIMIT as int, MAT_LIMIT as int);
        lemma_mul_abs_le(s as int, t as int, MAT_LIMIT as int, MAT_LIMIT as int);
    }
    let minor: i128 = p * q - s * t;
    if (r + c) % 2 == 0 {
        minor
    } else {
        -minor
    }
}

fn cofactor_dot_exec(m: &Mat4, r: usize, n: &Vec3) -> (v: i128)
    requires
        m.bounded(),
        n.bounded(),
        r < 3,
    ensures
        v == cofactor_dot(*m, r as int, *n),
        abs(v as int) <= 3 * (cof_limit() * LIMIT),
{
    let a = cofactor_exec(m, r, 0);
    let b = cofactor_exec(m, r, 1);
    let c = cofactor_exec(m, r, 2);
    proof {
        lemma_mul_abs_le(a as int, n.x as int, cof_limit(), LIMIT as int);
        lemma_mul_abs_le(b as int, n.y as int, cof_limit(), LIMIT as int);
        lemma_mul_abs_le(c as int, n.z as int, cof_limit(), LIMIT as int);
    }
    a * (n.x as i128) + b * (n.y as i128) + c * (n.z as i128)
}

/// Transforms a normal by the inverse transpose of the upper-left 3x3 block of
/// `m`; a singular block leaves the normal unchanged.
pub fn normal_transform(m: &Mat4, n: &Vec3) -> (r: Vec3)
    requires
        m.bounded(),
        n.bounded(),
    ensures
        r == normal_transform_spec(*m, *n),
        r.bounded(),
{
    let c00 = cofactor_exec(m, 0, 0);
    let c01 = cofactor_exec(m, 0, 1);
    let c02 = cofactor_exec(m, 0, 2);
    let a = entry(m, 0, 0);
    let b = entry(m, 0, 1);
    let c = entry(m, 0, 2);
    proof {
        lemma_mul_abs_le(a as int, c00 as int, MAT_LIMIT as int, cof_limit());
        lemma_mul_abs_le(b as int, c01 as int, MAT_LIMIT as int, cof_limit());
        lemma_mul_abs_le(c as int, c02 as int, MAT_LIMIT as int, cof_limit());
    }
    let d: i128 = a * c00 + b * c01 + c * c02;
    if d == 0 {
        *n
    } else {
        let sx = cofactor_dot_exec(m, 0, n);
        let sy = cofactor_dot_exec(m, 1, n);
        let sz = cofactor_dot_exec(m, 2, n);
        proof {
            let bound: int = 121694457621910022543683507716096;
            assert(3 * (cof_limit() * LIMIT) == bound);
            lemma_mul_abs_le(ONE as int, sx as int, ONE as int, bound);
            lemma_mul_abs_le(ONE as int, sy as int, ONE as int, bound);
            lemma_mul_abs_le(ONE as int, sz as int, ONE as int, bound);
            assert(ONE * bound == 7975367974709495237422842361682067456);
        }
        Vec3 {
            x: clamp_limit(div_trunc_i128((ONE as i128) * sx, d)),
            y: clamp_limit(div_trunc_i128((ONE as i128) * sy, d)),
            z: clamp_limit(div_trunc_i128((ONE as i128) * sz, d)),
        }
    }
}

/// A model matrix whose linear part is singular leaves normals unchanged.
pub proof fn lemma_singular_normal_fallback(m: Mat4, n: Vec3)
    requires
        det3(m) == 0,
    ensures
        normal_transform_spec(m, n) == n,
{
}

/// `v` limited to `[-MAT_LIMIT, MAT_LIMIT]`.
pub open spec fn clamp_mat(v: int) -> int {
    if v < -MAT_LIMIT {
        -MAT_LIMIT as int
    } else if v > MAT_LIMIT {
        MAT_LIMIT as int
    } else {
        v
    }
}

/// Entry `(r, c)` of the fixed-point product `a * b`, limited to `[-MAT_LIMIT, MAT_LIMIT]`.
pub open spec fn mat_mul_entry(a: Mat4, b: Mat4, r: int, c: int) -> int {
    clamp_mat(
        div_trunc(
            a.at(r, 0) * b.at(0, c) + a.at(r, 1) * b.at(1, c) + a.at(r, 2) * b.at(2, c) + a.at(r, 3)
                * b.at(3, c),
            ONE as int,
        ),
    )
}

fn mat_mul_entry_exec(a: &Mat4, b: &Mat4, r: usize, c: usize) -> (v: i64)
    requires
        a.bounded(),
        b.bounded(),
        r < 4,
        c < 4,
    ensures
        v == mat_mul_entry(*a, *b, r as int, c as int),
{
    let a0 = entry(a, r, 0);
    let a1 = entry(a, r, 1);
    let a2 = entry(a, r, 2);
    let a3 = entry(a, r, 3);
    let b0 = entry(b, 0, c);
    let b1 = entry(b, 1, c);
    let b2 = entry(b, 2, c);
    let b3 = entry(b, 3, c);
    proof {
        lemma_mul_abs_le(a0 as int, b0 as int, MAT_LIMIT as int, MAT_LIMIT as int);
        lemma_mul_abs_le(a1 as int, b1 as int, MAT_LIMIT as int, MAT_LIMIT as int);
        lemma_mul_abs_le(a2 as int, b2 as int, MAT_LIMIT as int, MAT_LIMIT as int);
        lemma_mul_abs_le(a3 as int, b3 as int, MAT_LIMIT as int, MAT_LIMIT as int);
    }
    let q = div_trunc_i128(a0 * b0 + a1 * b1 + a2 * b2 + a3 * b3, ONE as i128);
    if q < -(MAT_LIMIT as i128) {
        -MAT_LIMIT
    } else if q > MAT_LIMIT as i128 {
        MAT_LIMIT
    } else {
        q as i64
    }
}

/// The fixed-point product `a * b`, each entry limited to `[-MAT_LIMIT, MAT_LIMIT]`.
pub fn mat_mul(a: &Mat4, b: &Mat4) -> (m: Mat4)
    requires
        a.bounded(),
        b.bounded(),
    ensures
        m.bounded(),
        forall|r: int, c: int| 0 <= r < 4 && 0 <= c < 4 ==> #[trigger] m.at(r, c) == mat_mul_entry(*a, *b, r, c),
{
    let m = Mat4 {
        m: [
            mat_mul_entry_exec(a, b, 0, 0),
            mat_mul_entry_exec(a, b, 0, 1),
            mat_mul_entry_exec(a, b, 0, 2),
            mat_mul_entry_exec(a, b, 0, 3),
            mat_mul_entry_exec(a, b, 1, 0),
            mat_mul_entry_exec(a, b, 1, 1),
            mat_mul_entry_exec(a, b, 1, 2),
            mat_mul_entry_exec(a, b, 1, 3),
            mat_mul_entry_exec(a, b, 2, 0),
            mat_mul_entry_exec(a, b, 2, 1),
            mat_mul_entry_exec(a, b, 2, 2),
            mat_mul_entry_exec(a, b, 2, 3),
            mat_mul_entry_exec(a, b, 3, 0),
            mat_mul_entry_exec(a, b, 3, 1),
            mat_mul_entry_exec(a, b, 3, 2),
            mat_mul_entry_exec(a, b, 3, 3),
        ],
    };
    assert forall|r: int, c: int| 0 <= r < 4 && 0 <= c < 4 implies #[trigger] m.at(r, c)
        == mat_mul_entry(*a, *b, r, c) by {
        assert(0 <= 4 * r + c < 16);
    }
    assert forall|i: int| 0 <= i < 16 implies abs(#[trigger] m.m[i] as int) <= MAT_LIMIT by {
        assert(m.m[i] == m.at(i / 4, i % 4));
    }
    m
}

} // verus!
