use solar_raster::color::Color;
use solar_raster::fixed::ONE;

#[test]
fn lerp_at_zero_is_first_color() {
    let a = Color::new(10, 20, 30);
    let b = Color::new(200, 100, 0);
    assert_eq!(a.lerp(&b, 0), a);
}

#[test]
fn lerp_at_one_is_second_color() {
    let a = Color::new(10, 20, 30);
    let b = Color::new(200, 100, 0);
    assert_eq!(a.lerp(&b, ONE), b);
}

#[test]
fn lerp_halfway() {
    let a = Color::new(10, 20, 30);
    let b = Color::new(200, 100, 0);
    assert_eq!(a.lerp(&b, ONE / 2), Color::new(105, 60, 15));
}

#[test]
fn lerp_factor_is_clamped() {
    let a = Color::new(10, 20, 30);
    let b = Color::new(200, 100, 0);
    assert_eq!(a.lerp(&b, -5 * ONE), a);
    assert_eq!(a.lerp(&b, 3 * ONE), b);
}

#[test]
fn lerp_channels_stay_between_ends() {
    let a = Color::new(0, 255, 17);
    let b = Color::new(255, 0, 200);
    let mut t: i64 = 0;
    while t <= ONE {
        let c = a.lerp(&b, t);
        assert!(c.r >= a.r && c.r <= b.r);
        assert!(c.g <= a.g && c.g >= b.g);
        assert!(c.b >= a.b && c.b <= b.b);
        t += 1021;
    }
}

#[test]
fn scale_halves_and_saturates() {
    let c = Color::new(100, 200, 255);
    assert_eq!(c.scale(ONE / 2), Color::new(50, 100, 128));
    assert_eq!(c.scale(2 * ONE), Color::new(200, 255, 255));
    assert_eq!(c.scale(-ONE), Color::new(0, 0, 0));
    assert_eq!(c.scale(i64::MAX), Color::new(255, 255, 255));
}

#[test]
fn scale_rounds_to_nearest() {
    assert_eq!(Color::new(140, 0, 0).scale(78643).r, 168);
    assert_eq!(Color::new(10, 0, 0).lerp(&Color::new(0, 0, 0), 45875).r, 3);
}

#[test]
fn hex_packing() {
    assert_eq!(Color::new(0x12, 0x34, 0x56).to_hex(), 0x123456);
    assert_eq!(Color::new(255, 255, 255).to_hex(), 0xffffff);
    assert_eq!(Color::black().to_hex(), 0);
}

#[test]
fn channel_getters() {
    let c = Color::new(1, 2, 3);
    assert_eq!((c.get_red(), c.get_green(), c.get_blue()), (1, 2, 3));
}
