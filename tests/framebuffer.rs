use solar_raster::framebuffer::{Framebuffer, DEPTH_FAR};

#[test]
fn new_framebuffer_is_cleared() {
    let fb = Framebuffer::new(4, 3);
    assert_eq!(fb.buffer.len(), 12);
    assert_eq!(fb.zbuffer.len(), 12);
    assert!(fb.buffer.iter().all(|&c| c == 0));
    assert!(fb.zbuffer.iter().all(|&d| d == DEPTH_FAR));
}

#[test]
fn clear_uses_background() {
    let mut fb = Framebuffer::new(4, 3);
    fb.set_current_color(0xff0000);
    fb.point(1, 1, 10);
    fb.set_background_color(0x333355);
    fb.clear();
    assert!(fb.buffer.iter().all(|&c| c == 0x333355));
    assert!(fb.zbuffer.iter().all(|&d| d == DEPTH_FAR));
}

#[test]
fn nearer_write_after_farther_wins() {
    let mut fb = Framebuffer::new(4, 4);
    fb.set_current_color(0x0000ff);
    fb.point(2, 1, 20);
    fb.set_current_color(0xff0000);
    fb.point(2, 1, 10);
    assert_eq!(fb.buffer[1 * 4 + 2], 0xff0000);
    assert_eq!(fb.zbuffer[1 * 4 + 2], 10);
}

#[test]
fn farther_write_after_nearer_changes_nothing() {
    let mut fb = Framebuffer::new(4, 4);
    fb.set_current_color(0xff0000);
    fb.point(2, 1, 10);
    let colors = fb.buffer.clone();
    let depths = fb.zbuffer.clone();
    fb.set_current_color(0x0000ff);
    fb.point(2, 1, 20);
    assert_eq!(fb.buffer, colors);
    assert_eq!(fb.zbuffer, depths);
    assert_eq!(fb.buffer[1 * 4 + 2], 0xff0000);
}

#[test]
fn equal_depth_does_not_overwrite() {
    let mut fb = Framebuffer::new(2, 2);
    fb.set_current_color(1);
    fb.point(0, 0, 5);
    fb.set_current_color(2);
    fb.point(0, 0, 5);
    assert_eq!(fb.buffer[0], 1);
}

#[test]
fn out_of_bounds_point_is_dropped() {
    let mut fb = Framebuffer::new(2, 2);
    fb.set_current_color(7);
    fb.point(2, 0, 0);
    fb.point(0, 2, 0);
    assert!(fb.buffer.iter().all(|&c| c == 0));
}
