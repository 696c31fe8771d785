use vstd::prelude::*;

use crate::fixed::{abs, clamp_lim, clamp_limit, div_trunc, div_trunc_i128, LIMIT, MAT_LIMIT, ONE};
use crate::linalg::{
    mat_mul, mat_mul_entry, mat_vec, mat_vec_spec, normal_transform, normal_transform_spec, Mat4,
    Vec3, Vec4,
};
use crate::vertex::Vertex;

verus! {

/// Smallest magnitude that a clip-space `w` is given before the perspective
/// division (1/1024): a vertex on the eye plane is moved just off it.
pub const W_MIN: i64 = 64;

/// The per-body, per-frame transform state.
#[derive(Clone, Copy, Debug)]
pub struct Uniforms {
    pub model_matrix: Mat4,
    pub view_matrix: Mat4,
    pub projection_matrix: Mat4,
    pub viewport_matrix: Mat4,
    /// Frame counter driving the animated materials.
    pub time: u32,
    /// The sun's pulsation offset along z, in fixed point; the caller derives
    /// it from `time` (0.8 sin(0.008 time)).
    pub pulse: i64,
}

impl Uniforms {
    pub open spec fn wf(self) -> bool {
        &&& self.model_matrix.bounded()
        &&& self.view_matrix.bounded()
        &&& self.projection_matrix.bounded()
        &&& self.viewport_matrix.bounded()
    }
}

/// `w` moved away from zero to at least `W_MIN` in magnitude, keeping its sign
/// (zero counts as positive).
pub open spec fn guard_w(w: int) -> int {
    if 0 <= w < W_MIN {
        W_MIN as int
    } else if -W_MIN < w < 0 {
        -W_MIN as int
    } else {
        w
    }
}

/// One clip-space coordinate divided by the guarded `w`, in fixed point.
pub open spec fn perspective_divide(c: int, w: int) -> int {
    clamp_lim(div_trunc(c * ONE, guard_w(w)))
}

/// Clip-space position: the model, view and projection matrices applied in that order.
pub open spec fn clip_position(u: Uniforms, p: Vec3) -> Vec4 {
    let h = Vec4 { x: p.x, y: p.y, z: p.z, w: ONE };
    mat_vec_spec(u.projection_matrix, mat_vec_spec(u.view_matrix, mat_vec_spec(u.model_matrix, h)))
}

/// Normalized device coordinates after the perspective division.
pub open spec fn ndc_position(u: Uniforms, p: Vec3) -> Vec4 {
    let c = clip_position(u, p);
    Vec4 {
        x: perspective_divide(c.x as int, c.w as int) as i64,
        y: perspective_divide(c.y as int, c.w as int) as i64,
        z: perspective_divide(c.z as int, c.w as int) as i64,
        w: ONE,
    }
}

/// Screen-space position: the viewport matrix applied to the device coordinates.
pub open spec fn screen_position(u: Uniforms, p: Vec3) -> Vec3 {
    let s = mat_vec_spec(u.viewport_matrix, ndc_position(u, p));
    Vec3 { x: s.x, y: s.y, z: s.z }
}

fn divide_by_w(c: i64, w: i64) -> (r: i64)
    requires
        abs(c as int) <= LIMIT,
        abs(w as int) <= LIMIT,
    ensures
        r == perspective_divide(c as int, w as int),
{
    let g: i64 = if 0 <= w && w < W_MIN {
        W_MIN
    } else if -W_MIN < w && w < 0 {
        -W_MIN
    } else {
        w
    };
    assert(abs(c * ONE) <= LIMIT * ONE) by (nonlinear_arith)
        requires
            abs(c as int) <= LIMIT,
    ;
    clamp_limit(div_trunc_i128((c as i128) * (ONE as i128), g as i128))
}

/// Transforms a vertex: its position through model, view and projection,
/// the perspective division with a guarded `w`, and the viewport; its normal by
/// the inverse transpose of the model matrix's linear part (unchanged where
/// that part is singular). The model-space attributes are kept.
pub fn vertex_shader(vertex: &Vertex, uniforms: &Uniforms) -> (r: Vertex)
    requires
        vertex.wf(),
        uniforms.wf(),
    ensures
        r.position == vertex.position,
        r.normal == vertex.normal,
        r.tex_coords == vertex.tex_coords,
        r.color == vertex.color,
        r.transformed_position == screen_position(*uniforms, vertex.position),
        r.transformed_normal == normal_transform_spec(uniforms.model_matrix, vertex.normal),
        r.wf(),
        r.transformed_wf(),
{
    let h = Vec4 { x: vertex.position.x, y: vertex.position.y, z: vertex.position.z, w: ONE };
    let world = mat_vec(&uniforms.model_matrix, &h);
    let eye = mat_vec(&uniforms.view_matrix, &world);
    let clip = mat_vec(&uniforms.projection_matrix, &eye);
    let ndc = Vec4 {
        x: divide_by_w(clip.x, clip.w),
        y: divide_by_w(clip.y, clip.w),
        z: divide_by_w(clip.z, clip.w),
        w: ONE,
    };
    let screen = mat_vec(&uniforms.viewport_matrix, &ndc);
    let transformed_normal = normal_transform(&uniforms.model_matrix, &vertex.normal);
    Vertex {
        position: vertex.position,
        normal: vertex.normal,
        tex_coords: vertex.tex_coords,
        color: vertex.color,
        transformed_position: Vec3 { x: screen.x, y: screen.y, z: screen.z },
        transformed_normal,
    }
}

/// Maps device coordinates in `[-1, 1]` to pixels of a `width` by `height`
/// screen, y pointing down; depth is kept.
pub fn create_viewport_matrix(width: u32, height: u32) -> (m: Mat4)
    requires
        width <= 65536,
        height <= 65536,
    ensures
        m.bounded(),
        m.at(0, 0) == width * (ONE / 2),
        m.at(0, 3) == width * (ONE / 2),
        m.at(1, 1) == -(height * (ONE / 2)),
        m.at(1, 3) == height * (ONE / 2),
        m.at(2, 2) == ONE,
        m.at(3, 3) == ONE,
        forall|r: int, c: int|
            0 <= r < 4 && 0 <= c < 4 && !(r == c || (c == 3 && r < 2)) ==> #[trigger] m.at(r, c) == 0,
{
    let hw: i64 = (width as i64) * (ONE / 2);
    let hh: i64 = (height as i64) * (ONE / 2);
    let nh: i64 = -hh;
    let m = Mat4 { m: [hw, 0, 0, hw, 0, nh, 0, hh, 0, 0, ONE, 0, 0, 0, 0, ONE] };
    assert(m.m@ =~= seq![hw, 0, 0, hw, 0, nh, 0, hh, 0, 0, ONE, 0, 0, 0, 0, ONE]);
    assert forall|i: int| 0 <= i < 16 implies abs(#[trigger] m.m[i] as int) <= MAT_LIMIT by {}
    m
}

/// Rotation about x by the angle whose sine and cosine are `s` and `c`.
pub open spec fn rotation_x_spec(s: i64, c: i64) -> Mat4 {
    Mat4 { m: [ONE, 0, 0, 0, 0, c, (-s) as i64, 0, 0, s, c, 0, 0, 0, 0, ONE] }
}

/// Rotation about y by the angle whose sine and cosine are `s` and `c`.
pub open spec fn rotation_y_spec(s: i64, c: i64) -> Mat4 {
    Mat4 { m: [c, 0, s, 0, 0, ONE, 0, 0, (-s) as i64, 0, c, 0, 0, 0, 0, ONE] }
}

/// Rotation about z by the angle whose sine and cosine are `s` and `c`.
pub open spec fn rotation_z_spec(s: i64, c: i64) -> Mat4 {
    Mat4 { m: [c, (-s) as i64, 0, 0, s, c, 0, 0, 0, 0, ONE, 0, 0, 0, 0, ONE] }
}

/// Uniform scale by `k` followed by a translation by `t`.
pub open spec fn scale_translate_spec(t: Vec3, k: i64) -> Mat4 {
    Mat4 { m: [k, 0, 0, t.x, 0, k, 0, t.y, 0, 0, k, t.z, 0, 0, 0, ONE] }
}

/// Every coordinate has magnitude at most `MAT_LIMIT`.
pub open spec fn mat_bounded3(v: Vec3) -> bool {
    abs(v.x as int) <= MAT_LIMIT && abs(v.y as int) <= MAT_LIMIT && abs(v.z as int) <= MAT_LIMIT
}

/// `b` is the fixed-point product `x * y`.
pub open spec fn is_product(b: Mat4, x: Mat4, y: Mat4) -> bool {
    forall|r: int, c: int| 0 <= r < 4 && 0 <= c < 4 ==> #[trigger] b.at(r, c) == mat_mul_entry(x, y, r, c)
}

fn matrix_of(a: [i64; 16]) -> (m: Mat4)
    requires
        forall|i: int| 0 <= i < 16 ==> abs(#[trigger] a[i] as int) <= MAT_LIMIT,
    ensures
        m == (Mat4 { m: a }),
        m.bounded(),
{
    Mat4 { m: a }
}

/// The model matrix of a body: rotation about x, then y, then z (the angles
/// given by their fixed-point sines and cosines), then uniform scale by
/// `scale`, then translation by `translation`.
pub fn create_model_matrix(translation: Vec3, scale: i64, sin: Vec3, cos: Vec3) -> (m: Mat4)
    requires
        mat_bounded3(translation),
        abs(scale as int) <= MAT_LIMIT,
        mat_bounded3(sin),
        mat_bounded3(cos),
    ensures
        m.bounded(),
        exists|zy: Mat4, rot: Mat4|
            {
                &&& is_product(zy, rotation_z_spec(sin.z, cos.z), rotation_y_spec(sin.y, cos.y))
                &&& is_product(rot, zy, rotation_x_spec(sin.x, cos.x))
                &&& is_product(m, scale_translate_spec(translation, scale), rot)
            },
{
    let rx = matrix_of([ONE, 0, 0, 0, 0, cos.x, -sin.x, 0, 0, sin.x, cos.x, 0, 0, 0, 0, ONE]);
    let ry = matrix_of([cos.y, 0, sin.y, 0, 0, ONE, 0, 0, -sin.y, 0, cos.y, 0, 0, 0, 0, ONE]);
    let rz = matrix_of([cos.z, -sin.z, 0, 0, sin.z, cos.z, 0, 0, 0, 0, ONE, 0, 0, 0, 0, ONE]);
    let st = matrix_of(
        [scale, 0, 0, translation.x, 0, scale, 0, translation.y, 0, 0, scale, translation.z, 0, 0, 0, ONE],
    );
    assert(rx == rotation_x_spec(sin.x, cos.x));
    assert(ry == rotation_y_spec(sin.y, cos.y));
    assert(rz == rotation_z_spec(sin.z, cos.z));
    assert(st == scale_translate_spec(translation, scale));
    let zy = mat_mul(&rz, &ry);
    let rot = mat_mul(&zy, &rx);
    let m = mat_mul(&st, &rot);
    assert(is_product(zy, rz, ry));
    assert(is_product(rot, zy, rx));
    assert(is_product(m, st, rot));
    m
}

} // verus!
