use solar_raster::color::Color;
use solar_raster::fixed::ONE;
use solar_raster::framebuffer::Framebuffer;
use solar_raster::linalg::{Mat4, Vec2, Vec3};
use solar_raster::render::{assemble_fragments, render};
use solar_raster::transform::{create_viewport_matrix, Uniforms};
use solar_raster::vertex::Vertex;

fn edge(a: (f64, f64), b: (f64, f64), p: (f64, f64)) -> f64 {
    (b.0 - a.0) * (p.1 - a.1) - (b.1 - a.1) * (p.0 - a.0)
}

#[test]
fn flat_triangle_end_to_end() {
    let normal = Vec3::new(0, 0, ONE);
    let uv = Vec2 { x: 0, y: 0 };
    let mesh = vec![
        Vertex::new(Vec3::new(-ONE, -ONE, 0), normal, uv),
        Vertex::new(Vec3::new(ONE, -ONE, 0), normal, uv),
        Vertex::new(Vec3::new(0, ONE, 0), normal, uv),
    ];
    let uniforms = Uniforms {
        model_matrix: Mat4::identity(),
        view_matrix: Mat4::identity(),
        projection_matrix: Mat4::identity(),
        viewport_matrix: create_viewport_matrix(100, 100),
        time: 0,
        pulse: 0,
    };
    let mut fb = Framebuffer::new(100, 100);
    fb.set_background_color(0x333355);
    fb.clear();
    let fragments = assemble_fragments(&mesh, &uniforms, 100, 100);
    let colors = vec![Color::new(0xff, 0x88, 0x00); fragments.len()];
    render(&mut fb, &fragments, &colors);

    let (a, b, c) = ((0.0, 100.0), (100.0, 100.0), (50.0, 0.0));
    let mut inside = 0;
    for y in 0..100 {
        for x in 0..100 {
            let p = (x as f64 + 0.5, y as f64 + 0.5);
            let w = [edge(b, c, p), edge(c, a, p), edge(a, b, p)];
            let covered = w.iter().all(|&e| e >= 0.0) || w.iter().all(|&e| e <= 0.0);
            let expected = if covered { 0xff8800 } else { 0x333355 };
            if covered {
                inside += 1;
            }
            assert_eq!(fb.buffer[y * 100 + x], expected, "pixel ({}, {})", x, y);
        }
    }
    assert!(inside > 4000 && inside < 6000);
}

#[test]
fn incomplete_triangle_is_ignored() {
    let normal = Vec3::new(0, 0, ONE);
    let uv = Vec2 { x: 0, y: 0 };
    let mesh = vec![Vertex::new(Vec3::new(0, 0, 0), normal, uv), Vertex::new(Vec3::new(ONE, 0, 0), normal, uv)];
    let uniforms = Uniforms {
        model_matrix: Mat4::identity(),
        view_matrix: Mat4::identity(),
        projection_matrix: Mat4::identity(),
        viewport_matrix: create_viewport_matrix(10, 10),
        time: 0,
        pulse: 0,
    };
    assert!(assemble_fragments(&mesh, &uniforms, 10, 10).is_empty());
}

#[test]
fn nearer_body_hides_farther_one() {
    let normal = Vec3::new(0, 0, ONE);
    let uv = Vec2 { x: 0, y: 0 };
    let tri = |z: i64| {
        vec![
            Vertex::new(Vec3::new(-ONE, -ONE, z), normal, uv),
            Vertex::new(Vec3::new(ONE, -ONE, z), normal, uv),
            Vertex::new(Vec3::new(0, ONE, z), normal, uv),
        ]
    };
    let uniforms = Uniforms {
        model_matrix: Mat4::identity(),
        view_matrix: Mat4::identity(),
        projection_matrix: Mat4::identity(),
        viewport_matrix: create_viewport_matrix(20, 20),
        time: 0,
        pulse: 0,
    };
    let mut fb = Framebuffer::new(20, 20);
    let near = assemble_fragments(&tri(-ONE / 2), &uniforms, 20, 20);
    let far = assemble_fragments(&tri(ONE / 2), &uniforms, 20, 20);
    render(&mut fb, &near, &vec![Color::new(255, 0, 0); near.len()]);
    render(&mut fb, &far, &vec![Color::new(0, 0, 255); far.len()]);
    assert!(fb.buffer.iter().all(|&c| c == 0 || c == 0xff0000));
    assert!(fb.buffer.iter().any(|&c| c == 0xff0000));
}
