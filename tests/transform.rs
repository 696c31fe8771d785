use solar_raster::color::Color;
use solar_raster::fixed::{isqrt_u64, ONE};
use solar_raster::linalg::{mat_mul, mat_vec, normal_transform, Mat4, Vec2, Vec3, Vec4};
use solar_raster::transform::{create_model_matrix, create_viewport_matrix, vertex_shader, Uniforms};
use solar_raster::vertex::Vertex;

fn uniforms_with(model: Mat4, viewport: Mat4) -> Uniforms {
    Uniforms {
        model_matrix: model,
        view_matrix: Mat4::identity(),
        projection_matrix: Mat4::identity(),
        viewport_matrix: viewport,
        time: 0,
        pulse: 0,
    }
}

#[test]
fn viewport_matrix_entries() {
    let m = create_viewport_matrix(800, 600);
    let h = 32768;
    assert_eq!(
        m.m,
        [400 * ONE, 0, 0, 400 * ONE, 0, -300 * ONE, 0, 300 * ONE, 0, 0, ONE, 0, 0, 0, 0, ONE]
    );
    assert_eq!(m.m[0], 800 * h);
}

#[test]
fn identity_times_vector() {
    let v = Vec4 { x: 3 * ONE, y: -2 * ONE, z: ONE / 2, w: ONE };
    assert_eq!(mat_vec(&Mat4::identity(), &v), v);
}

#[test]
fn matrix_product_of_scales() {
    let mut a = Mat4::identity();
    a.m[0] = 2 * ONE;
    let mut b = Mat4::identity();
    b.m[0] = 3 * ONE;
    b.m[3] = ONE;
    let p = mat_mul(&a, &b);
    assert_eq!(p.m[0], 6 * ONE);
    assert_eq!(p.m[3], 2 * ONE);
    assert_eq!(p.m[5], ONE);
}

#[test]
fn model_matrix_without_rotation() {
    let m = create_model_matrix(
        Vec3::new(ONE, 2 * ONE, 3 * ONE),
        2 * ONE,
        Vec3::new(0, 0, 0),
        Vec3::new(ONE, ONE, ONE),
    );
    assert_eq!(
        m.m,
        [2 * ONE, 0, 0, ONE, 0, 2 * ONE, 0, 2 * ONE, 0, 0, 2 * ONE, 3 * ONE, 0, 0, 0, ONE]
    );
}

#[test]
fn model_matrix_quarter_turn_about_z() {
    let m = create_model_matrix(Vec3::new(0, 0, 0), ONE, Vec3::new(0, 0, ONE), Vec3::new(ONE, ONE, 0));
    assert_eq!(&m.m[0..4], &[0, -ONE, 0, 0]);
    assert_eq!(&m.m[4..8], &[ONE, 0, 0, 0]);
    assert_eq!(&m.m[8..12], &[0, 0, ONE, 0]);
}

#[test]
fn vertex_shader_maps_to_pixels() {
    let u = uniforms_with(Mat4::identity(), create_viewport_matrix(100, 100));
    let v = Vertex::new(Vec3::new(ONE / 2, 0, 0), Vec3::new(0, 0, ONE), Vec2 { x: 0, y: 0 });
    let t = vertex_shader(&v, &u);
    assert_eq!(t.transformed_position, Vec3::new(75 * ONE, 50 * ONE, 0));
    assert_eq!(t.transformed_normal, Vec3::new(0, 0, ONE));
    assert_eq!(t.position, v.position);
    assert_eq!(t.color, Color::new(0, 0, 0));
}

#[test]
fn vertex_shader_flips_y() {
    let u = uniforms_with(Mat4::identity(), create_viewport_matrix(100, 100));
    let v = Vertex::new(Vec3::new(-ONE, ONE, 0), Vec3::new(0, 0, ONE), Vec2 { x: 0, y: 0 });
    let t = vertex_shader(&v, &u);
    assert_eq!(t.transformed_position, Vec3::new(0, 0, 0));
}

#[test]
fn zero_w_is_guarded() {
    let mut projection = Mat4::identity();
    projection.m[15] = 0;
    let mut u = uniforms_with(Mat4::identity(), Mat4::identity());
    u.projection_matrix = projection;
    let v = Vertex::new(Vec3::new(ONE, 0, 0), Vec3::new(0, 0, ONE), Vec2 { x: 0, y: 0 });
    let t = vertex_shader(&v, &u);
    // w = 0 is replaced by 1/1024, so x = 1 becomes 1024.
    assert_eq!(t.transformed_position.x, 1024 * ONE);
}

#[test]
fn singular_model_keeps_normal() {
    let mut model = Mat4::identity();
    model.m[0] = 0;
    model.m[5] = 0;
    model.m[10] = 0;
    let u = uniforms_with(model, create_viewport_matrix(100, 100));
    let n = Vec3::new(ONE, 2 * ONE, -3 * ONE);
    let v = Vertex::new(Vec3::new(0, 0, 0), n, Vec2 { x: 0, y: 0 });
    assert_eq!(vertex_shader(&v, &u).transformed_normal, n);
}

#[test]
fn rank_deficient_model_keeps_normal() {
    let mut model = Mat4::identity();
    model.m[4] = ONE;
    model.m[5] = 0;
    model.m[6] = 0;
    let n = Vec3::new(ONE, ONE, ONE);
    assert_eq!(normal_transform(&model, &n), n);
}

#[test]
fn uniform_scale_shrinks_normal() {
    let mut model = Mat4::identity();
    model.m[0] = 2 * ONE;
    model.m[5] = 2 * ONE;
    model.m[10] = 2 * ONE;
    let n = Vec3::new(ONE, 0, 0);
    assert_eq!(normal_transform(&model, &n), Vec3::new(ONE / 2, 0, 0));
}

#[test]
fn non_uniform_scale_inverse_transpose() {
    let mut model = Mat4::identity();
    model.m[0] = 4 * ONE;
    let n = Vec3::new(ONE, ONE, 0);
    assert_eq!(normal_transform(&model, &n), Vec3::new(ONE / 4, ONE, 0));
}

#[test]
fn integer_square_root() {
    assert_eq!(isqrt_u64(0), 0);
    assert_eq!(isqrt_u64(15), 3);
    assert_eq!(isqrt_u64(16), 4);
    assert_eq!(isqrt_u64(u64::MAX), 4294967295);
}
