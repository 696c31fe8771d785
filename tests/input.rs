use solar_raster::input::{handle_input, CameraAction, KeyState};

fn none() -> KeyState {
    KeyState { left: false, right: false, w: false, s: false, a: false, d: false, q: false, e: false, up: false, down: false }
}

#[test]
fn no_keys_no_actions() {
    assert!(handle_input(&none()).is_empty());
}

#[test]
fn orbit_keys_in_order() {
    let keys = KeyState { left: true, s: true, ..none() };
    assert_eq!(
        handle_input(&keys),
        vec![CameraAction::Orbit { yaw: 1, pitch: 0 }, CameraAction::Orbit { yaw: 0, pitch: 1 }]
    );
}

#[test]
fn movement_keys_combine_into_one_pan() {
    let keys = KeyState { d: true, q: true, ..none() };
    assert_eq!(handle_input(&keys), vec![CameraAction::Pan { dx: 1, dy: 1 }]);
}

#[test]
fn opposite_movement_keys_cancel() {
    let keys = KeyState { a: true, d: true, ..none() };
    assert!(handle_input(&keys).is_empty());
}

#[test]
fn zoom_keys() {
    let keys = KeyState { up: true, down: true, w: true, e: true, ..none() };
    assert_eq!(
        handle_input(&keys),
        vec![
            CameraAction::Orbit { yaw: 0, pitch: -1 },
            CameraAction::Pan { dx: 0, dy: -1 },
            CameraAction::Zoom { steps: 1 },
            CameraAction::Zoom { steps: -1 },
        ]
    );
}
