use solar_raster::fixed::ONE;
use solar_raster::linalg::{Vec2, Vec3};
use solar_raster::triangle::{barycentric, triangle};
use solar_raster::vertex::Vertex;

fn screen_vertex(x: i64, y: i64, z: i64) -> Vertex {
    let mut v = Vertex::new(Vec3::new(x, y, z), Vec3::new(0, 0, ONE), Vec2 { x: 0, y: 0 });
    v.transformed_position = Vec3::new(x * ONE, y * ONE, z * ONE);
    v
}

#[test]
fn right_triangle_coverage() {
    let (a, b, c) = (screen_vertex(0, 0, 0), screen_vertex(10, 0, 0), screen_vertex(0, 10, 0));
    let frags = triangle(&a, &b, &c, 100, 100);
    assert!(frags.iter().any(|f| f.x == 3 && f.y == 3));
    assert!(!frags.iter().any(|f| f.x == 8 && f.y == 8));
    assert_eq!(frags.len(), 55);
    assert!(frags.iter().all(|f| f.x + f.y <= 9));
}

#[test]
fn winding_does_not_matter() {
    let (a, b, c) = (screen_vertex(0, 0, 0), screen_vertex(10, 0, 0), screen_vertex(0, 10, 0));
    let cw = triangle(&a, &c, &b, 100, 100);
    let ccw = triangle(&a, &b, &c, 100, 100);
    assert_eq!(cw.len(), ccw.len());
}

#[test]
fn barycentric_weights_partition() {
    let (a, b, c) = (screen_vertex(0, 0, 0), screen_vertex(10, 0, 0), screen_vertex(0, 10, 0));
    let (l0, l1, l2, area) = barycentric(&a, &b, &c, 3, 3);
    assert!(l0 >= 0 && l1 >= 0 && l2 >= 0);
    assert_eq!(l0 + l1 + l2, area);
    assert_eq!(area, 100 * (ONE as i128) * (ONE as i128));
    let (m0, m1, m2, area2) = barycentric(&a, &b, &c, 8, 8);
    assert!(m0 < 0 || m1 < 0 || m2 < 0);
    assert_eq!(m0 + m1 + m2, area2);
}

#[test]
fn degenerate_triangle_has_no_fragments() {
    let (a, b, c) = (screen_vertex(0, 0, 0), screen_vertex(5, 5, 0), screen_vertex(10, 10, 0));
    assert!(triangle(&a, &b, &c, 100, 100).is_empty());
}

#[test]
fn clipped_to_framebuffer() {
    let (a, b, c) = (screen_vertex(-20, -20, 0), screen_vertex(40, -20, 0), screen_vertex(-20, 40, 0));
    let frags = triangle(&a, &b, &c, 5, 5);
    assert_eq!(frags.len(), 25);
    assert!(frags.iter().all(|f| f.x < 5 && f.y < 5));
}

#[test]
fn constant_attributes_interpolate_exactly() {
    let (a, b, c) = (screen_vertex(0, 0, 5), screen_vertex(10, 0, 5), screen_vertex(0, 10, 5));
    let frags = triangle(&a, &b, &c, 100, 100);
    assert!(frags.iter().all(|f| f.depth == 5 * ONE));
    assert!(frags.iter().all(|f| f.normal == Vec3::new(0, 0, ONE) && f.intensity == ONE));
}

#[test]
fn fragments_in_scan_order() {
    let (a, b, c) = (screen_vertex(0, 0, 0), screen_vertex(10, 0, 0), screen_vertex(0, 10, 0));
    let frags = triangle(&a, &b, &c, 100, 100);
    for w in frags.windows(2) {
        assert!((w[0].y, w[0].x) < (w[1].y, w[1].x));
    }
}
