use vstd::prelude::*;

use crate::fixed::{abs, clamp_lim, clamp_limit, div_trunc, div_trunc_i128, lemma_mul_abs_le, LIMIT, ONE};
use crate::fragment::Fragment;
use crate::linalg::Vec3;
use crate::vertex::Vertex;

verus! {

/// Largest framebuffer side, in pixels, that the rasterizer accepts.
pub const MAX_SIDE: usize = 65536;

/// Twice the signed area of the screen triangle `(a, b, p)`; positive when
/// `p` lies to the left of the edge from `a` to `b`.
pub open spec fn edge(ax: int, ay: int, bx: int, by: int, px: int, py: int) -> int {
    (bx - ax) * (py - ay) - (by - ay) * (px - ax)
}

/// Fixed-point screen coordinate of the centre of pixel `i`.
pub open spec fn center(i: int) -> int {
    i * ONE + ONE / 2
}

/// Twice the signed screen-space area of the triangle.
pub open spec fn signed_area(a: Vertex, b: Vertex, c: Vertex) -> int {
    let (pa, pb, pc) = (a.transformed_position, b.transformed_position, c.transformed_position);
    edge(pa.x as int, pa.y as int, pb.x as int, pb.y as int, pc.x as int, pc.y as int)
}

/// Unnormalised barycentric weights of the centre of pixel `(x, y)`, signed so
/// that they are all non-negative inside the triangle whatever its winding;
/// the normalised weights are these divided by `abs(signed_area(a, b, c))`.
pub open spec fn bary(a: Vertex, b: Vertex, c: Vertex, x: int, y: int) -> (int, int, int) {
    let (pa, pb, pc) = (a.transformed_position, b.transformed_position, c.transformed_position);
    let (px, py) = (center(x), center(y));
    let w0 = edge(pb.x as int, pb.y as int, pc.x as int, pc.y as int, px, py);
    let w1 = edge(pc.x as int, pc.y as int, pa.x as int, pa.y as int, px, py);
    let w2 = edge(pa.x as int, pa.y as int, pb.x as int, pb.y as int, px, py);
    if signed_area(a, b, c) >= 0 {
        (w0, w1, w2)
    } else {
        (-w0, -w1, -w2)
    }
}

/// The centre of pixel `(x, y)` lies in the (non-degenerate) triangle.
pub open spec fn covered(a: Vertex, b: Vertex, c: Vertex, x: int, y: int) -> bool {
    let l = bary(a, b, c, x, y);
    signed_area(a, b, c) != 0 && l.0 >= 0 && l.1 >= 0 && l.2 >= 0
}

/// Barycentric interpolation of three values, limited to `[-LIMIT, LIMIT]`.
pub open spec fn interp(l: (int, int, int), area: int, p0: int, p1: int, p2: int) -> int {
    clamp_lim(div_trunc(l.0 * p0 + l.1 * p1 + l.2 * p2, area))
}

pub open spec fn interp3(l: (int, int, int), area: int, p0: Vec3, p1: Vec3, p2: Vec3) -> Vec3 {
    Vec3 {
        x: interp(l, area, p0.x as int, p1.x as int, p2.x as int) as i64,
        y: interp(l, area, p0.y as int, p1.y as int, p2.y as int) as i64,
        z: interp(l, area, p0.z as int, p1.z as int, p2.z as int) as i64,
    }
}

/// Lighting term: the z component of the normal (the light shines along the
/// view axis toward the viewer), limited to `[0, ONE]`.
pub open spec fn intensity_of(n: Vec3) -> int {
    if n.z < 0 {
        0
    } else if n.z > ONE {
        ONE as int
    } else {
        n.z as int
    }
}

/// The fragment at a covered pixel: depth, model-space position and
/// transformed normal interpolated from the three vertices.
pub open spec fn fragment_at(a: Vertex, b: Vertex, c: Vertex, x: int, y: int) -> Fragment {
    let l = bary(a, b, c, x, y);
    let area = abs(signed_area(a, b, c));
    let (pa, pb, pc) = (a.transformed_position, b.transformed_position, c.transformed_position);
    let n = interp3(l, area, a.transformed_normal, b.transformed_normal, c.transformed_normal);
    Fragment {
        x: x as usize,
        y: y as usize,
        depth: interp(l, area, pa.z as int, pb.z as int, pc.z as int) as i64,
        vertex_position: interp3(l, area, a.position, b.position, c.position),
        normal: n,
        intensity: intensity_of(n) as i64,
    }
}

/// Fragments of row `y` for the pixels `x_lo <= x < x_end`, left to right.
pub open spec fn scan_row(a: Vertex, b: Vertex, c: Vertex, y: int, x_lo: int, x_end: int) -> Seq<Fragment>
    decreases x_end - x_lo,
{
    if x_end <= x_lo {
        seq![]
    } else {
        let prev = scan_row(a, b, c, y, x_lo, x_end - 1);
        if covered(a, b, c, x_end - 1, y) {
            prev.push(fragment_at(a, b, c, x_end - 1, y))
        } else {
            prev
        }
    }
}

/// Fragments of rows `y_lo <= y < y_end`, top to bottom, each row over `x_lo <= x < x_hi`.
pub open spec fn scan_rows(
    a: Vertex,
    b: Vertex,
    c: Vertex,
    y_lo: int,
    y_end: int,
    x_lo: int,
    x_hi: int,
) -> Seq<Fragment>
    decreases y_end - y_lo,
{
    if y_end <= y_lo {
        seq![]
    } else {
        scan_rows(a, b, c, y_lo, y_end - 1, x_lo, x_hi) + scan_row(a, b, c, y_end - 1, x_lo, x_hi)
    }
}

pub open spec fn min3(p: int, q: int, r: int) -> int {
    if p <= q && p <= r {
        p
    } else if q <= r {
        q
    } else {
        r
    }
}

pub open spec fn max3(p: int, q: int, r: int) -> int {
    if p >= q && p >= r {
        p
    } else if q >= r {
        q
    } else {
        r
    }
}

/// First pixel index of the bounding box along one axis.
pub open spec fn box_lo(lo: int) -> int {
    if lo < 0 {
        0
    } else {
        lo / (ONE as int)
    }
}

/// One past the last pixel index of the bounding box along one axis, within `[0, n]`.
pub open spec fn box_end(hi: int, n: int) -> int {
    if hi < 0 {
        0
    } else if hi / (ONE as int) + 1 > n {
        n
    } else {
        hi / (ONE as int) + 1
    }
}

/// All fragments of the triangle within a `width` by `height` framebuffer, in
/// scan order over the screen-space bounding box.
pub open spec fn rasterize(a: Vertex, b: Vertex, c: Vertex, width: int, height: int) -> Seq<Fragment> {
    let (pa, pb, pc) = (a.transformed_position, b.transformed_position, c.transformed_position);
    let x_lo = box_lo(min3(pa.x as int, pb.x as int, pc.x as int));
    let x_hi = box_end(max3(pa.x as int, pb.x as int, pc.x as int), width);
    let y_lo = box_lo(min3(pa.y as int, pb.y as int, pc.y as int));
    let y_hi = box_end(max3(pa.y as int, pb.y as int, pc.y as int), height);
    scan_rows(a, b, c, y_lo, y_hi, x_lo, x_hi)
}

/// The three weights always sum to twice the triangle's area.
pub proof fn lemma_edge_sum(ax: int, ay: int, bx: int, by: int, cx: int, cy: int, px: int, py: int)
    ensures
        edge(bx, by, cx, cy, px, py) + edge(cx, cy, ax, ay, px, py) + edge(ax, ay, bx, by, px, py)
            == edge(ax, ay, bx, by, cx, cy),
{
    lemma_edge_cross(bx, by, cx, cy, px, py);
    lemma_edge_cross(cx, cy, ax, ay, px, py);
    lemma_edge_cross(ax, ay, bx, by, px, py);
    lemma_edge_cross(ax, ay, bx, by, cx, cy);
    assert(cross(cx, cy, px, py) + cross(px, py, cx, cy) == 0) by (nonlinear_arith);
    assert(cross(ax, ay, px, py) + cross(px, py, ax, ay) == 0) by (nonlinear_arith);
    assert(cross(bx, by, px, py) + cross(px, py, bx, by) == 0) by (nonlinear_arith);
}

/// The 2D cross product of `(ux, uy)` and `(vx, vy)`.
pub open spec fn cross(ux: int, uy: int, vx: int, vy: int) -> int {
    ux * vy - uy * vx
}

proof fn lemma_edge_cross(ax: int, ay: int, bx: int, by: int, px: int, py: int)
    ensures
        edge(ax, ay, bx, by, px, py) == cross(ax, ay, bx, by) + cross(bx, by, px, py) + cross(px, py, ax, ay),
{
    assert(edge(ax, ay, bx, by, px, py) == cross(ax, ay, bx, by) + cross(bx, by, px, py) + cross(px, py, ax, ay))
        by (nonlinear_arith);
}

/// At every covered pixel the barycentric weights are non-negative and sum to
/// the normalising area, which is positive: the normalised weights sum to one.
pub proof fn lemma_barycentric_partition(a: Vertex, b: Vertex, c: Vertex, x: int, y: int)
    requires
        covered(a, b, c, x, y),
    ensures
        ({
            let l = bary(a, b, c, x, y);
            &&& l.0 >= 0 && l.1 >= 0 && l.2 >= 0
            &&& l.0 + l.1 + l.2 == abs(signed_area(a, b, c))
            &&& abs(signed_area(a, b, c)) > 0
        }),
{
    let (pa, pb, pc) = (a.transformed_position, b.transformed_position, c.transformed_position);
    lemma_edge_sum(
        pa.x as int,
        pa.y as int,
        pb.x as int,
        pb.y as int,
        pc.x as int,
        pc.y as int,
        center(x),
        center(y),
    );
}

/// Largest magnitude of an edge value over bounded coordinates: `2 * (2 * LIMIT)^2`, that is 2^83.
pub open spec fn edge_limit() -> int {
    9671406556917033397649408
}

fn edge_exec(ax: i64, ay: i64, bx: i64, by: i64, px: i64, py: i64) -> (e: i128)
    requires
        abs(ax as int) <= LIMIT,
        abs(ay as int) <= LIMIT,
        abs(bx as int) <= LIMIT,
        abs(by as int) <= LIMIT,
        abs(px as int) <= LIMIT,
        abs(py as int) <= LIMIT,
    ensures
        e == edge(ax as int, ay as int, bx as int, by as int, px as int, py as int),
        abs(e as int) <= edge_limit(),
{
    let dx1: i128 = (bx as i128) - (ax as i128);
    let dy1: i128 = (py as i128) - (ay as i128);
    let dx2: i128 = (by as i128) - (ay as i128);
    let dy2: i128 = (px as i128) - (ax as i128);
    proof {
        lemma_mul_abs_le(dx1 as int, dy1 as int, 2 * LIMIT, 2 * LIMIT);
        lemma_mul_abs_le(dx2 as int, dy2 as int, 2 * LIMIT, 2 * LIMIT);
        assert(2 * ((2 * LIMIT) * (2 * LIMIT)) == edge_limit()) by (nonlinear_arith);
    }
    dx1 * dy1 - dx2 * dy2
}

fn interp_exec(l0: i128, l1: i128, l2: i128, area: i128, p0: i64, p1: i64, p2: i64) -> (r: i64)
    requires
        abs(l0 as int) <= edge_limit(),
        abs(l1 as int) <= edge_limit(),
        abs(l2 as int) <= edge_limit(),
        area > 0,
        abs(p0 as int) <= LIMIT,
        abs(p1 as int) <= LIMIT,
        abs(p2 as int) <= LIMIT,
    ensures
        r == interp((l0 as int, l1 as int, l2 as int), area as int, p0 as int, p1 as int, p2 as int),
        abs(r as int) <= LIMIT,
{
    proof {
        lemma_mul_abs_le(l0 as int, p0 as int, edge_limit(), LIMIT as int);
        lemma_mul_abs_le(l1 as int, p1 as int, edge_limit(), LIMIT as int);
        lemma_mul_abs_le(l2 as int, p2 as int, edge_limit(), LIMIT as int);
    }
    let s: i128 = l0 * (p0 as i128) + l1 * (p1 as i128) + l2 * (p2 as i128);
    clamp_limit(div_trunc_i128(s, area))
}

fn interp3_exec(l0: i128, l1: i128, l2: i128, area: i128, p0: &Vec3, p1: &Vec3, p2: &Vec3) -> (r: Vec3)
    requires
        abs(l0 as int) <= edge_limit(),
        abs(l1 as int) <= edge_limit(),
        abs(l2 as int) <= edge_limit(),
        area > 0,
        p0.bounded(),
        p1.bounded(),
        p2.bounded(),
    ensures
        r == interp3((l0 as int, l1 as int, l2 as int), area as int, *p0, *p1, *p2),
        r.bounded(),
{
    Vec3 {
        x: interp_exec(l0, l1, l2, area, p0.x, p1.x, p2.x),
        y: interp_exec(l0, l1, l2, area, p0.y, p1.y, p2.y),
        z: interp_exec(l0, l1, l2, area, p0.z, p1.z, p2.z),
    }
}

fn min3_exec(p: i64, q: i64, r: i64) -> (m: i64)
    ensures
        m == min3(p as int, q as int, r as int),
{
    if p <= q && p <= r {
        p
    } else if q <= r {
        q
    } else {
        r
    }
}

fn max3_exec(p: i64, q: i64, r: i64) -> (m: i64)
    ensures
        m == max3(p as int, q as int, r as int),
{
    if p >= q && p >= r {
        p
    } else if q >= r {
        q
    } else {
        r
    }
}

fn box_lo_exec(lo: i64) -> (r: usize)
    requires
        abs(lo as int) <= LIMIT,
    ensures
        r == box_lo(lo as int),
{
    if lo < 0 {
        0
    } else {
        (lo / ONE) as usize
    }
}

fn box_end_exec(hi: i64, n: usize) -> (r: usize)
    requires
        abs(hi as int) <= LIMIT,
    ensures
        r == box_end(hi as int, n as int),
        r <= n,
{
    if hi < 0 {
        0
    } else {
        let e: i64 = hi / ONE + 1;
        if e as i128 > n as i128 {
            n
        } else {
            e as usize
        }
    }
}

/// Barycentric weights of the centre of pixel `(x, y)` with their
/// normaliser: `(l0, l1, l2, area)` with `area` the triangle's doubled
/// unsigned area, `l0 + l1 + l2 == area`, and all three weights non-negative
/// exactly when the centre lies in the triangle.
pub fn barycentric(v1: &Vertex, v2: &Vertex, v3: &Vertex, x: usize, y: usize) -> (r: (i128, i128, i128, i128))
    requires
        v1.transformed_wf(),
        v2.transformed_wf(),
        v3.transformed_wf(),
        x < MAX_SIDE,
        y < MAX_SIDE,
    ensures
        (r.0 as int, r.1 as int, r.2 as int) == bary(*v1, *v2, *v3, x as int, y as int),
        r.3 == abs(signed_area(*v1, *v2, *v3)),
        r.0 + r.1 + r.2 == r.3,
        abs(r.0 as int) <= edge_limit(),
        abs(r.1 as int) <= edge_limit(),
        abs(r.2 as int) <= edge_limit(),
        r.3 <= edge_limit(),
{
    let (pa, pb, pc) = (v1.transformed_position, v2.transformed_position, v3.transformed_position);
    let px: i64 = (x as i64) * ONE + ONE / 2;
    let py: i64 = (y as i64) * ONE + ONE / 2;
    let area = edge_exec(pa.x, pa.y, pb.x, pb.y, pc.x, pc.y);
    let w0 = edge_exec(pb.x, pb.y, pc.x, pc.y, px, py);
    let w1 = edge_exec(pc.x, pc.y, pa.x, pa.y, px, py);
    let w2 = edge_exec(pa.x, pa.y, pb.x, pb.y, px, py);
    proof {
        lemma_edge_sum(
            pa.x as int,
            pa.y as int,
            pb.x as int,
            pb.y as int,
            pc.x as int,
            pc.y as int,
            px as int,
            py as int,
        );
    }
    if area >= 0 {
        (w0, w1, w2, area)
    } else {
        (-w0, -w1, -w2, -area)
    }
}

/// Rasterizes one screen-space triangle: every pixel of the `width` by
/// `height` framebuffer whose centre lies in the triangle yields one fragment
/// (none if the triangle is degenerate), in scan order over the triangle's
/// bounding box.
pub fn triangle(v1: &Vertex, v2: &Vertex, v3: &Vertex, width: usize, height: usize) -> (r: Vec<Fragment>)
    requires
        v1.wf() && v1.transformed_wf(),
        v2.wf() && v2.transformed_wf(),
        v3.wf() && v3.transformed_wf(),
        width <= MAX_SIDE,
        height <= MAX_SIDE,
    ensures
        r@ == rasterize(*v1, *v2, *v3, width as int, height as int),
        forall|i: int|
            0 <= i < r@.len() ==> emitted(*v1, *v2, *v3, #[trigger] r@[i], width as int, height as int),
        forall|x: int, y: int|
            0 <= x < width && 0 <= y < height && covered(*v1, *v2, *v3, x, y) ==> r@.contains(
                #[trigger] fragment_at(*v1, *v2, *v3, x, y),
            ),
{
    proof {
        lemma_rasterize_sound(*v1, *v2, *v3, width as int, height as int);
        assert forall|x: int, y: int|
            0 <= x < width && 0 <= y < height && covered(*v1, *v2, *v3, x, y) implies rasterize(
            *v1,
            *v2,
            *v3,
            width as int,
            height as int,
        ).contains(#[trigger] fragment_at(*v1, *v2, *v3, x, y)) by {
            lemma_rasterize_complete(*v1, *v2, *v3, width as int, height as int, x, y);
        }
    }
    let (pa, pb, pc) = (v1.transformed_position, v2.transformed_position, v3.transformed_position);
    let x_lo = box_lo_exec(min3_exec(pa.x, pb.x, pc.x));
    let x_hi = box_end_exec(max3_exec(pa.x, pb.x, pc.x), width);
    let y_lo = box_lo_exec(min3_exec(pa.y, pb.y, pc.y));
    let y_hi = box_end_exec(max3_exec(pa.y, pb.y, pc.y), height);
    let area: i128 = edge_exec(pa.x, pa.y, pb.x, pb.y, pc.x, pc.y);
    let mut frags: Vec<Fragment> = Vec::new();
    if area == 0 || x_lo >= x_hi || y_lo >= y_hi {
        proof {
            lemma_scan_rows_empty(*v1, *v2, *v3, y_lo as int, y_hi as int, x_lo as int, x_hi as int);
        }
        return frags;
    }
    let mut y: usize = y_lo;
    while y < y_hi
        invariant
            y_lo <= y <= y_hi,
            x_lo < x_hi,
            abs(area as int) <= edge_limit(),
            y_hi <= height,
            x_hi <= width,
            height <= MAX_SIDE,
            width <= MAX_SIDE,
            area == signed_area(*v1, *v2, *v3),
            area != 0,
            pa == v1.transformed_position,
            pb == v2.transformed_position,
            pc == v3.transformed_position,
            v1.wf() && v1.transformed_wf(),
            v2.wf() && v2.transformed_wf(),
            v3.wf() && v3.transformed_wf(),
            frags@ == scan_rows(*v1, *v2, *v3, y_lo as int, y as int, x_lo as int, x_hi as int),
        decreases y_hi - y,
    {
        let mut x: usize = x_lo;
        let ghost before = frags@;
        assert(frags@ =~= before + scan_row(*v1, *v2, *v3, y as int, x_lo as int, x as int));
        while x < x_hi
            invariant
                x_lo <= x <= x_hi,
                abs(area as int) <= edge_limit(),
                y_lo <= y < y_hi,
                y_hi <= height,
                x_hi <= width,
                height <= MAX_SIDE,
                width <= MAX_SIDE,
                area == signed_area(*v1, *v2, *v3),
                area != 0,
                pa == v1.transformed_position,
                pb == v2.transformed_position,
                pc == v3.transformed_position,
                v1.wf() && v1.transformed_wf(),
                v2.wf() && v2.transformed_wf(),
                v3.wf() && v3.transformed_wf(),
                before == scan_rows(*v1, *v2, *v3, y_lo as int, y as int, x_lo as int, x_hi as int),
                frags@ == before + scan_row(*v1, *v2, *v3, y as int, x_lo as int, x as int),
            decreases x_hi - x,
        {
            let (l0, l1, l2, ar) = barycentric(v1, v2, v3, x, y);
            if l0 >= 0 && l1 >= 0 && l2 >= 0 {
                let depth = interp_exec(l0, l1, l2, ar, pa.z, pb.z, pc.z);
                let vertex_position = interp3_exec(
                    l0,
                    l1,
                    l2,
                    ar,
                    &v1.position,
                    &v2.position,
                    &v3.position,
                );
                let normal = interp3_exec(
                    l0,
                    l1,
                    l2,
                    ar,
                    &v1.transformed_normal,
                    &v2.transformed_normal,
                    &v3.transformed_normal,
                );
                let intensity: i64 = if normal.z < 0 {
                    0
                } else if normal.z > ONE {
                    ONE
                } else {
                    normal.z
                };
                let f = Fragment { x, y, depth, vertex_position, normal, intensity };
                assert(f == fragment_at(*v1, *v2, *v3, x as int, y as int));
                frags.push(f);
            }
            proof {
                assert(before + scan_row(*v1, *v2, *v3, y as int, x_lo as int, x + 1) =~= frags@);
            }
            x = x + 1;
        }
        assert(frags@ == scan_rows(*v1, *v2, *v3, y_lo as int, y + 1, x_lo as int, x_hi as int));
        y = y + 1;
    }
    frags
}

proof fn lemma_scan_row_empty(a: Vertex, b: Vertex, c: Vertex, y: int, x_lo: int, x_end: int)
    requires
        signed_area(a, b, c) == 0 || x_end <= x_lo,
    ensures
        scan_row(a, b, c, y, x_lo, x_end) == Seq::<Fragment>::empty(),
    decreases x_end - x_lo,
{
    if x_end > x_lo {
        lemma_scan_row_empty(a, b, c, y, x_lo, x_end - 1);
    }
}

proof fn lemma_scan_rows_empty(
    a: Vertex,
    b: Vertex,
    c: Vertex,
    y_lo: int,
    y_end: int,
    x_lo: int,
    x_hi: int,
)
    requires
        signed_area(a, b, c) == 0 || x_hi <= x_lo || y_end <= y_lo,
    ensures
        scan_rows(a, b, c, y_lo, y_end, x_lo, x_hi) == Seq::<Fragment>::empty(),
    decreases y_end - y_lo,
{
    if y_end > y_lo {
        lemma_scan_rows_empty(a, b, c, y_lo, y_end - 1, x_lo, x_hi);
        lemma_scan_row_empty(a, b, c, y_end - 1, x_lo, x_hi);
        assert(scan_rows(a, b, c, y_lo, y_end - 1, x_lo, x_hi) + scan_row(a, b, c, y_end - 1, x_lo, x_hi)
            =~= Seq::<Fragment>::empty());
    }
}

/// `f` is the fragment of a covered pixel of a `width` by `height`
/// framebuffer, with its attributes in range.
pub open spec fn emitted(a: Vertex, b: Vertex, c: Vertex, f: Fragment, width: int, height: int) -> bool {
    &&& f.wf()
    &&& f.x < width
    &&& f.y < height
    &&& covered(a, b, c, f.x as int, f.y as int)
    &&& f == fragment_at(a, b, c, f.x as int, f.y as int)
}

proof fn lemma_scan_row_emitted(
    a: Vertex,
    b: Vertex,
    c: Vertex,
    y: int,
    x_lo: int,
    x_end: int,
    width: int,
    height: int,
)
    requires
        0 <= x_lo,
        x_end <= width <= MAX_SIDE,
        0 <= y < height <= MAX_SIDE,
    ensures
        forall|i: int| 0 <= i < scan_row(a, b, c, y, x_lo, x_end).len()
            ==> emitted(a, b, c, #[trigger] scan_row(a, b, c, y, x_lo, x_end)[i], width, height),
    decreases x_end - x_lo,
{
    if x_end > x_lo {
        lemma_scan_row_emitted(a, b, c, y, x_lo, x_end - 1, width, height);
        let prev = scan_row(a, b, c, y, x_lo, x_end - 1);
        let f = fragment_at(a, b, c, x_end - 1, y);
        assert(f.wf());
        assert(f.x as int == x_end - 1 && f.y as int == y);
        if covered(a, b, c, x_end - 1, y) {
            assert forall|i: int| 0 <= i < prev.push(f).len() implies emitted(
                a,
                b,
                c,
                #[trigger] prev.push(f)[i],
                width,
                height,
            ) by {
                if i < prev.len() {
                    assert(prev.push(f)[i] == prev[i]);
                }
            }
        }
    }
}

proof fn lemma_scan_rows_emitted(
    a: Vertex,
    b: Vertex,
    c: Vertex,
    y_lo: int,
    y_end: int,
    x_lo: int,
    x_hi: int,
    width: int,
    height: int,
)
    requires
        0 <= x_lo,
        x_hi <= width <= MAX_SIDE,
        0 <= y_lo,
        y_end <= height <= MAX_SIDE,
    ensures
        forall|i: int| 0 <= i < scan_rows(a, b, c, y_lo, y_end, x_lo, x_hi).len()
            ==> emitted(a, b, c, #[trigger] scan_rows(a, b, c, y_lo, y_end, x_lo, x_hi)[i], width, height),
    decreases y_end - y_lo,
{
    if y_end > y_lo {
        lemma_scan_rows_emitted(a, b, c, y_lo, y_end - 1, x_lo, x_hi, width, height);
        lemma_scan_row_emitted(a, b, c, y_end - 1, x_lo, x_hi, width, height);
        let p = scan_rows(a, b, c, y_lo, y_end - 1, x_lo, x_hi);
        let q = scan_row(a, b, c, y_end - 1, x_lo, x_hi);
        assert forall|i: int| 0 <= i < (p + q).len() implies emitted(a, b, c, #[trigger] (p + q)[i], width, height) by {
            if i >= p.len() {
                assert((p + q)[i] == q[i - p.len()]);
            }
        }
    }
}

/// Every fragment of a triangle is the fragment of a covered pixel inside the
/// framebuffer, with its attributes within the fixed-point range and its
/// lighting term in `[0, ONE]`.
pub proof fn lemma_rasterize_sound(a: Vertex, b: Vertex, c: Vertex, width: int, height: int)
    requires
        0 <= width <= MAX_SIDE,
        0 <= height <= MAX_SIDE,
    ensures
        forall|i: int| 0 <= i < rasterize(a, b, c, width, height).len()
            ==> emitted(a, b, c, #[trigger] rasterize(a, b, c, width, height)[i], width, height),
{
    let (pa, pb, pc) = (a.transformed_position, b.transformed_position, c.transformed_position);
    lemma_scan_rows_emitted(
        a,
        b,
        c,
        box_lo(min3(pa.y as int, pb.y as int, pc.y as int)),
        box_end(max3(pa.y as int, pb.y as int, pc.y as int), height),
        box_lo(min3(pa.x as int, pb.x as int, pc.x as int)),
        box_end(max3(pa.x as int, pb.x as int, pc.x as int), width),
        width,
        height,
    );
}

/// The weights reproduce the point: `w0 * a + w1 * b + w2 * c == area * p`
/// along each axis.
proof fn lemma_edge_combination(ax: int, ay: int, bx: int, by: int, cx: int, cy: int, px: int, py: int)
    ensures
        edge(bx, by, cx, cy, px, py) * ax + edge(cx, cy, ax, ay, px, py) * bx + edge(ax, ay, bx, by, px, py)
            * cx == edge(ax, ay, bx, by, cx, cy) * px,
        edge(bx, by, cx, cy, px, py) * ay + edge(cx, cy, ax, ay, px, py) * by + edge(ax, ay, bx, by, px, py)
            * cy == edge(ax, ay, bx, by, cx, cy) * py,
{
    let (ux, uy, vx, vy, qx, qy) = (bx - ax, by - ay, cx - ax, cy - ay, px - ax, py - ay);
    let w0 = edge(bx, by, cx, cy, px, py);
    let w1 = edge(cx, cy, ax, ay, px, py);
    let w2 = edge(ax, ay, bx, by, px, py);
    let area = edge(ax, ay, bx, by, cx, cy);
    lemma_edge_sum(ax, ay, bx, by, cx, cy, px, py);
    assert(w1 == cross(qx, qy, vx, vy)) by (nonlinear_arith)
        requires
            w1 == edge(cx, cy, ax, ay, px, py),
            vx == cx - ax,
            vy == cy - ay,
            qx == px - ax,
            qy == py - ay,
    ;
    assert(w2 == cross(ux, uy, qx, qy));
    assert(area == cross(ux, uy, vx, vy));
    lemma_cross_scaled(qx, qy, vx, vy, ux);
    lemma_cross_scaled(ux, uy, qx, qy, vx);
    lemma_cross_scaled(ux, uy, vx, vy, qx);
    lemma_cross_scaled(qx, qy, vx, vy, uy);
    lemma_cross_scaled(ux, uy, qx, qy, vy);
    lemma_cross_scaled(ux, uy, vx, vy, qy);
    lemma_mul3_comm(qx, vy, ux);
    lemma_mul3_comm(qy, vx, ux);
    lemma_mul3_comm(uy, qx, vx);
    lemma_mul3_comm(qx, vy, uy);
    lemma_mul3_comm(qy, vx, uy);
    lemma_mul3_comm(ux, qy, vy);
    assert(w0 * ax + w1 * bx + w2 * cx == area * px) by (nonlinear_arith)
        requires
            w0 + w1 + w2 == area,
            bx == ax + ux,
            cx == ax + vx,
            px == ax + qx,
            w1 * ux + w2 * vx == area * qx,
    ;
    assert(w0 * ay + w1 * by + w2 * cy == area * py) by (nonlinear_arith)
        requires
            w0 + w1 + w2 == area,
            by == ay + uy,
            cy == ay + vy,
            py == ay + qy,
            w1 * uy + w2 * vy == area * qy,
    ;
}

proof fn lemma_cross_scaled(a: int, b: int, c: int, d: int, k: int)
    ensures
        cross(a, b, c, d) * k == a * d * k - b * c * k,
{
    assert(cross(a, b, c, d) * k == a * d * k - b * c * k) by (nonlinear_arith);
}

/// Any order of a product of three factors gives the same value.
proof fn lemma_mul3_comm(a: int, b: int, c: int)
    ensures
        a * b * c == a * c * b,
        a * b * c == b * a * c,
        a * b * c == b * c * a,
        a * b * c == c * a * b,
        a * b * c == c * b * a,
{
    assert(a * b * c == a * c * b) by (nonlinear_arith);
    assert(a * b * c == b * a * c) by (nonlinear_arith);
    assert(a * b * c == b * c * a) by (nonlinear_arith);
    assert(a * b * c == c * a * b) by (nonlinear_arith);
    assert(a * b * c == c * b * a) by (nonlinear_arith);
}

proof fn lemma_weighted_bounds(l: int, p: int, lo: int, hi: int)
    requires
        l >= 0,
        lo <= p <= hi,
    ensures
        l * lo <= l * p <= l * hi,
{
    assert(l * lo <= l * p <= l * hi) by (nonlinear_arith)
        requires
            l >= 0,
            lo <= p <= hi,
    ;
}

/// A convex combination with weights summing to `s > 0` lies between the
/// smallest and largest of the three values.
proof fn lemma_convex_between(l0: int, l1: int, l2: int, p0: int, p1: int, p2: int, s: int, q: int)
    requires
        l0 >= 0,
        l1 >= 0,
        l2 >= 0,
        l0 + l1 + l2 == s,
        s > 0,
        l0 * p0 + l1 * p1 + l2 * p2 == s * q,
    ensures
        min3(p0, p1, p2) <= q <= max3(p0, p1, p2),
{
    let lo = min3(p0, p1, p2);
    let hi = max3(p0, p1, p2);
    lemma_weighted_bounds(l0, p0, lo, hi);
    lemma_weighted_bounds(l1, p1, lo, hi);
    lemma_weighted_bounds(l2, p2, lo, hi);
    assert(s * lo == l0 * lo + l1 * lo + l2 * lo) by (nonlinear_arith)
        requires
            s == l0 + l1 + l2,
    ;
    assert(s * hi == l0 * hi + l1 * hi + l2 * hi) by (nonlinear_arith)
        requires
            s == l0 + l1 + l2,
    ;
    assert(lo <= q <= hi) by (nonlinear_arith)
        requires
            s > 0,
            s * lo <= s * q <= s * hi,
    ;
}

/// A pixel whose centre lies in `[lo, hi]` along an axis lies in that axis's
/// scan range.
proof fn lemma_in_box(i: int, lo: int, hi: int, n: int)
    requires
        0 <= i < n,
        lo <= center(i) <= hi,
    ensures
        box_lo(lo) <= i < box_end(hi, n),
{
    if lo >= 0 {
        vstd::arithmetic::div_mod::lemma_fundamental_div_mod(lo, ONE as int);
    }
    vstd::arithmetic::div_mod::lemma_fundamental_div_mod(hi, ONE as int);
}

proof fn lemma_scan_row_contains(a: Vertex, b: Vertex, c: Vertex, y: int, x_lo: int, x_end: int, x: int)
    requires
        x_lo <= x < x_end,
        covered(a, b, c, x, y),
    ensures
        scan_row(a, b, c, y, x_lo, x_end).contains(fragment_at(a, b, c, x, y)),
    decreases x_end - x_lo,
{
    let prev = scan_row(a, b, c, y, x_lo, x_end - 1);
    if x == x_end - 1 {
        assert(prev.push(fragment_at(a, b, c, x, y))[prev.len() as int] == fragment_at(a, b, c, x, y));
    } else {
        lemma_scan_row_contains(a, b, c, y, x_lo, x_end - 1, x);
        let k = choose|k: int| 0 <= k < prev.len() && prev[k] == fragment_at(a, b, c, x, y);
        if covered(a, b, c, x_end - 1, y) {
            assert(prev.push(fragment_at(a, b, c, x_end - 1, y))[k] == prev[k]);
        }
    }
}

proof fn lemma_scan_rows_contains(
    a: Vertex,
    b: Vertex,
    c: Vertex,
    y_lo: int,
    y_end: int,
    x_lo: int,
    x_hi: int,
    x: int,
    y: int,
)
    requires
        x_lo <= x < x_hi,
        y_lo <= y < y_end,
        covered(a, b, c, x, y),
    ensures
        scan_rows(a, b, c, y_lo, y_end, x_lo, x_hi).contains(fragment_at(a, b, c, x, y)),
    decreases y_end - y_lo,
{
    let p = scan_rows(a, b, c, y_lo, y_end - 1, x_lo, x_hi);
    let q = scan_row(a, b, c, y_end - 1, x_lo, x_hi);
    let f = fragment_at(a, b, c, x, y);
    if y == y_end - 1 {
        lemma_scan_row_contains(a, b, c, y, x_lo, x_hi, x);
        let k = choose|k: int| 0 <= k < q.len() && q[k] == f;
        assert((p + q)[p.len() + k] == f);
    } else {
        lemma_scan_rows_contains(a, b, c, y_lo, y_end - 1, x_lo, x_hi, x, y);
        let k = choose|k: int| 0 <= k < p.len() && p[k] == f;
        assert((p + q)[k] == f);
    }
}

/// At a covered pixel the weights reproduce the pixel's centre: it is the
/// combination of the three screen positions with weights `l / area`.
pub proof fn lemma_center_is_combination(a: Vertex, b: Vertex, c: Vertex, x: int, y: int)
    requires
        covered(a, b, c, x, y),
    ensures
        ({
            let (pa, pb, pc) = (a.transformed_position, b.transformed_position, c.transformed_position);
            let l = bary(a, b, c, x, y);
            let s = abs(signed_area(a, b, c));
            &&& l.0 * pa.x + l.1 * pb.x + l.2 * pc.x == s * center(x)
            &&& l.0 * pa.y + l.1 * pb.y + l.2 * pc.y == s * center(y)
        }),
{
    let (pa, pb, pc) = (a.transformed_position, b.transformed_position, c.transformed_position);
    let (ax, ay, bx, by, cx, cy) = (pa.x as int, pa.y as int, pb.x as int, pb.y as int, pc.x as int, pc.y as int);
    let (px, py) = (center(x), center(y));
    lemma_edge_combination(ax, ay, bx, by, cx, cy, px, py);
    let l = bary(a, b, c, x, y);
    let s = abs(signed_area(a, b, c));
    if signed_area(a, b, c) < 0 {
        assert(l.0 * ax + l.1 * bx + l.2 * cx == s * px) by (nonlinear_arith)
            requires
                l.0 == -edge(bx, by, cx, cy, px, py),
                l.1 == -edge(cx, cy, ax, ay, px, py),
                l.2 == -edge(ax, ay, bx, by, px, py),
                s == -edge(ax, ay, bx, by, cx, cy),
                edge(bx, by, cx, cy, px, py) * ax + edge(cx, cy, ax, ay, px, py) * bx + edge(ax, ay, bx, by, px, py)
                    * cx == edge(ax, ay, bx, by, cx, cy) * px,
        ;
        assert(l.0 * ay + l.1 * by + l.2 * cy == s * py) by (nonlinear_arith)
            requires
                l.0 == -edge(bx, by, cx, cy, px, py),
                l.1 == -edge(cx, cy, ax, ay, px, py),
                l.2 == -edge(ax, ay, bx, by, px, py),
                s == -edge(ax, ay, bx, by, cx, cy),
                edge(bx, by, cx, cy, px, py) * ay + edge(cx, cy, ax, ay, px, py) * by + edge(ax, ay, bx, by, px, py)
                    * cy == edge(ax, ay, bx, by, cx, cy) * py,
        ;
    }
}

/// The depth of a covered pixel's fragment lies between the smallest and the
/// largest depth of the three vertices.
pub proof fn lemma_depth_between(a: Vertex, b: Vertex, c: Vertex, x: int, y: int)
    requires
        covered(a, b, c, x, y),
        a.transformed_wf(),
        b.transformed_wf(),
        c.transformed_wf(),
    ensures
        ({
            let (pa, pb, pc) = (a.transformed_position, b.transformed_position, c.transformed_position);
            let d = fragment_at(a, b, c, x, y).depth as int;
            min3(pa.z as int, pb.z as int, pc.z as int) <= d <= max3(pa.z as int, pb.z as int, pc.z as int)
        }),
{
    let (pa, pb, pc) = (a.transformed_position, b.transformed_position, c.transformed_position);
    let (z0, z1, z2) = (pa.z as int, pb.z as int, pc.z as int);
    lemma_barycentric_partition(a, b, c, x, y);
    let l = bary(a, b, c, x, y);
    let s = abs(signed_area(a, b, c));
    let lo = min3(z0, z1, z2);
    let hi = max3(z0, z1, z2);
    let num = l.0 * z0 + l.1 * z1 + l.2 * z2;
    lemma_weighted_bounds(l.0, z0, lo, hi);
    lemma_weighted_bounds(l.1, z1, lo, hi);
    lemma_weighted_bounds(l.2, z2, lo, hi);
    assert(s * lo == l.0 * lo + l.1 * lo + l.2 * lo) by (nonlinear_arith)
        requires
            s == l.0 + l.1 + l.2,
    ;
    assert(s * hi == l.0 * hi + l.1 * hi + l.2 * hi) by (nonlinear_arith)
        requires
            s == l.0 + l.1 + l.2,
    ;
    lemma_div_trunc_between(num, s, lo, hi);
}

/// A quotient rounded toward zero stays between bounds that the exact
/// quotient respects.
proof fn lemma_div_trunc_between(num: int, s: int, lo: int, hi: int)
    requires
        s > 0,
        s * lo <= num <= s * hi,
    ensures
        lo <= div_trunc(num, s) <= hi,
{
    if num >= 0 {
        vstd::arithmetic::div_mod::lemma_div_is_ordered(s * lo, num, s);
        vstd::arithmetic::div_mod::lemma_div_is_ordered(num, s * hi, s);
        vstd::arithmetic::div_mod::lemma_div_multiples_vanish(lo, s);
        vstd::arithmetic::div_mod::lemma_div_multiples_vanish(hi, s);
    } else {
        assert(s * (-hi) <= -num <= s * (-lo)) by (nonlinear_arith)
            requires
                s * lo <= num <= s * hi,
        ;
        vstd::arithmetic::div_mod::lemma_div_is_ordered(s * (-hi), -num, s);
        vstd::arithmetic::div_mod::lemma_div_is_ordered(-num, s * (-lo), s);
        vstd::arithmetic::div_mod::lemma_div_multiples_vanish(-lo, s);
        vstd::arithmetic::div_mod::lemma_div_multiples_vanish(-hi, s);
    }
}

/// Every pixel of the framebuffer whose centre lies in the triangle yields
/// its fragment.
pub proof fn lemma_rasterize_complete(a: Vertex, b: Vertex, c: Vertex, width: int, height: int, x: int, y: int)
    requires
        0 <= x < width,
        0 <= y < height,
        covered(a, b, c, x, y),
    ensures
        rasterize(a, b, c, width, height).contains(fragment_at(a, b, c, x, y)),
{
    let (pa, pb, pc) = (a.transformed_position, b.transformed_position, c.transformed_position);
    let (ax, ay, bx, by, cx, cy) = (pa.x as int, pa.y as int, pb.x as int, pb.y as int, pc.x as int, pc.y as int);
    let (px, py) = (center(x), center(y));
    lemma_barycentric_partition(a, b, c, x, y);
    lemma_center_is_combination(a, b, c, x, y);
    let l = bary(a, b, c, x, y);
    let s = abs(signed_area(a, b, c));
    lemma_convex_between(l.0, l.1, l.2, ax, bx, cx, s, px);
    lemma_convex_between(l.0, l.1, l.2, ay, by, cy, s, py);
    lemma_in_box(x, min3(ax, bx, cx), max3(ax, bx, cx), width);
    lemma_in_box(y, min3(ay, by, cy), max3(ay, by, cy), height);
    lemma_scan_rows_contains(
        a,
        b,
        c,
        box_lo(min3(ay, by, cy)),
        box_end(max3(ay, by, cy), height),
        box_lo(min3(ax, bx, cx)),
        box_end(max3(ax, bx, cx), width),
        x,
        y,
    );
}

} // verus!
