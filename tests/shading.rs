use solar_raster::color::Color;
use solar_raster::fixed::ONE;
use solar_raster::fragment::Fragment;
use solar_raster::linalg::{Mat4, Vec3};
use solar_raster::planet_type::PlanetType;
use solar_raster::shaders::{
    blend_layers, cloud_shader, composite_layers, earth_shader, fragment_shader, jupiter_shader,
    lava_shader, mars_shader, mercury_shader, neptune_shader, noise_queries, noise_sample_count,
    saturn_shader, uranus_shader, venus_shader, NoiseQuery, CLOUD_OPACITY, CLOUD_THRESHOLD,
};
use solar_raster::transform::Uniforms;

fn frag(normal_z: i64, intensity: i64) -> Fragment {
    Fragment {
        x: 0,
        y: 0,
        depth: 0,
        vertex_position: Vec3::new(ONE, 2 * ONE, 3 * ONE),
        normal: Vec3::new(0, 0, normal_z),
        intensity,
    }
}

fn uniforms(time: u32) -> Uniforms {
    Uniforms {
        model_matrix: Mat4::identity(),
        view_matrix: Mat4::identity(),
        projection_matrix: Mat4::identity(),
        viewport_matrix: Mat4::identity(),
        time,
        pulse: ONE / 2,
    }
}

#[test]
fn sun_colors() {
    assert_eq!(lava_shader(&frag(ONE, ONE), 0, 0), Color::new(255, 196, 24));
    assert_eq!(lava_shader(&frag(ONE, ONE / 2), ONE / 2, -ONE / 4), Color::new(154, 107, 19));
}

#[test]
fn sun_brightening_at_darkest() {
    let c = lava_shader(&frag(ONE, ONE), -ONE, -ONE);
    assert_eq!(c, Color::new(255, 168, 0));
    assert!(c.g as u32 * 5 >= 140 * 6);
}

#[test]
fn earth_colors() {
    assert_eq!(earth_shader(&frag(ONE, ONE), ONE / 2), Color::new(38, 120, 130));
    assert_eq!(earth_shader(&frag(0, ONE), ONE * 3 / 4), Color::new(90, 176, 150));
    assert_eq!(earth_shader(&frag(ONE / 2, ONE), ONE / 10), Color::new(38, 92, 188));
}

#[test]
fn cloud_colors() {
    assert_eq!(cloud_shader(&frag(ONE, ONE), ONE / 2), Color::new(113, 113, 113));
    assert_eq!(cloud_shader(&frag(ONE, ONE), 0), Color::new(0, 0, 0));
    assert_eq!(cloud_shader(&frag(ONE, ONE / 2), 2 * ONE), Color::new(128, 128, 128));
}

#[test]
fn mercury_colors() {
    assert_eq!(mercury_shader(&frag(ONE, ONE), ONE / 2, ONE * 3 / 4), Color::new(93, 87, 80));
    assert_eq!(mercury_shader(&frag(ONE, ONE), ONE / 2, ONE / 2), Color::new(125, 118, 110));
}

#[test]
fn venus_colors() {
    assert_eq!(venus_shader(&frag(0, ONE), ONE / 2), Color::new(247, 198, 93));
    assert_eq!(venus_shader(&frag(ONE, ONE), ONE / 2), Color::new(243, 189, 69));
}

#[test]
fn mars_color() {
    assert_eq!(mars_shader(&frag(ONE, ONE), ONE / 2, ONE), Color::new(190, 85, 33));
}

#[test]
fn jupiter_color() {
    assert_eq!(jupiter_shader(&frag(ONE, ONE), -ONE / 2, ONE), Color::new(229, 174, 134));
}

#[test]
fn saturn_color() {
    assert_eq!(saturn_shader(&frag(ONE, ONE), ONE, ONE), Color::new(217, 198, 158));
}

#[test]
fn uranus_color() {
    assert_eq!(uranus_shader(&frag(ONE, ONE), ONE), Color::new(162, 218, 240));
}

#[test]
fn neptune_color() {
    assert_eq!(neptune_shader(&frag(ONE, ONE / 2), ONE, ONE), Color::new(36, 68, 117));
}

#[test]
fn zero_intensity_is_black() {
    assert_eq!(mars_shader(&frag(ONE, 0), ONE / 2, ONE), Color::new(0, 0, 0));
}

#[test]
fn composite_at_threshold_keeps_base() {
    let base = Color::new(0, 0, 255);
    let over = Color::new(255, 255, 255);
    assert_eq!(composite_layers(base, over, CLOUD_THRESHOLD), base);
}

#[test]
fn composite_above_threshold_blends() {
    let base = Color::new(0, 0, 255);
    let over = Color::new(255, 255, 255);
    assert_eq!(composite_layers(base, over, CLOUD_THRESHOLD + 1), base.lerp(&over, CLOUD_OPACITY));
    assert_eq!(composite_layers(base, over, CLOUD_THRESHOLD + 1), Color::new(178, 178, 255));
}

#[test]
fn blend_layers_by_cloud_brightness() {
    let base = Color::new(0, 0, 255);
    assert_eq!(blend_layers(base, Color::new(229, 0, 0)), base);
    assert_eq!(blend_layers(base, Color::new(230, 0, 0)), base.lerp(&Color::new(230, 0, 0), CLOUD_OPACITY));
}

#[test]
fn earth_dispatch_composites_clouds() {
    let f = frag(ONE, ONE);
    let c = fragment_shader(&f, &vec![ONE / 2, ONE / 2], PlanetType::Earth);
    assert_eq!(c, blend_layers(earth_shader(&f, ONE / 2), cloud_shader(&f, ONE / 2)));
    assert_eq!(c, Color::new(90, 115, 118));
}

#[test]
fn dispatch_matches_materials() {
    let f = frag(ONE, ONE);
    assert_eq!(fragment_shader(&f, &vec![0, 0], PlanetType::Sun), lava_shader(&f, 0, 0));
    assert_eq!(fragment_shader(&f, &vec![ONE], PlanetType::Uranus), uranus_shader(&f, ONE));
    assert_eq!(fragment_shader(&f, &vec![ONE, 5], PlanetType::Neptune), neptune_shader(&f, ONE, 5));
}

#[test]
fn sample_counts_match_queries() {
    let all = [
        PlanetType::Sun,
        PlanetType::Mercury,
        PlanetType::Venus,
        PlanetType::Earth,
        PlanetType::Mars,
        PlanetType::Jupiter,
        PlanetType::Saturn,
        PlanetType::Uranus,
        PlanetType::Neptune,
    ];
    for pt in all {
        assert_eq!(noise_queries(pt, &frag(ONE, ONE), &uniforms(7)).len(), noise_sample_count(pt));
    }
}

#[test]
fn jupiter_sample_points() {
    let q = noise_queries(PlanetType::Jupiter, &frag(ONE, ONE), &uniforms(10));
    assert_eq!(
        q,
        vec![
            NoiseQuery::Plane { x: 200 * ONE, y: ONE },
            NoiseQuery::Space { x: 300 * ONE + ONE, y: 600 * ONE, z: 900 * ONE },
        ]
    );
}

#[test]
fn earth_terrain_sampled_in_model_space() {
    let mut f = frag(ONE, ONE);
    f.depth = 7 * ONE;
    let q = noise_queries(PlanetType::Earth, &f, &uniforms(0));
    assert_eq!(q[0], NoiseQuery::Space { x: 250 * ONE, y: 500 * ONE, z: 750 * ONE });
}

#[test]
fn sun_sample_points_follow_pulse() {
    let q = noise_queries(PlanetType::Sun, &frag(ONE, ONE), &uniforms(0));
    assert_eq!(q[0], NoiseQuery::Space { x: 800 * ONE, y: 1600 * ONE, z: 800 * (3 * ONE + ONE / 2) });
    assert_eq!(
        q[1],
        NoiseQuery::Space { x: 1001 * 800 * ONE, y: 1002 * 800 * ONE, z: 800 * (1003 * ONE + ONE / 2) }
    );
}
