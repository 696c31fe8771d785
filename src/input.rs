use vstd::prelude::*;

verus! {

/// Which of the recognised keys are held down.
#[derive(Clone, Copy, Debug, PartialEq, Eq, Structural)]
pub struct KeyState {
    pub left: bool,
    pub right: bool,
    pub w: bool,
    pub s: bool,
    pub a: bool,
    pub d: bool,
    pub q: bool,
    pub e: bool,
    pub up: bool,
    pub down: bool,
}

/// A camera command, in units of the camera's fixed step sizes.
#[derive(Clone, Copy, Debug, PartialEq, Eq, Structural)]
pub enum CameraAction {
    /// Orbit around the centre: positive yaw to the left, positive pitch downward.
    Orbit { yaw: i64, pitch: i64 },
    /// Move the centre: positive `dx` to the right, positive `dy` upward.
    Pan { dx: i64, dy: i64 },
    /// Zoom: positive toward the centre.
    Zoom { steps: i64 },
}

pub open spec fn when(b: bool, a: CameraAction) -> Seq<CameraAction> {
    if b {
        seq![a]
    } else {
        seq![]
    }
}

pub open spec fn unit(b: bool) -> int {
    if b {
        1
    } else {
        0
    }
}

/// The commands for one frame, in order: orbit left, right, up, down; one
/// pan combining the movement keys, if they do not cancel out; zoom in, out.
pub open spec fn input_actions(k: KeyState) -> Seq<CameraAction> {
    let dx = unit(k.d) - unit(k.a);
    let dy = unit(k.q) - unit(k.e);
    when(k.left, CameraAction::Orbit { yaw: 1, pitch: 0 }) + when(
        k.right,
        CameraAction::Orbit { yaw: -1i64, pitch: 0 },
    ) + when(k.w, CameraAction::Orbit { yaw: 0, pitch: -1i64 }) + when(
        k.s,
        CameraAction::Orbit { yaw: 0, pitch: 1 },
    ) + when(dx != 0 || dy != 0, CameraAction::Pan { dx: dx as i64, dy: dy as i64 }) + when(
        k.up,
        CameraAction::Zoom { steps: 1 },
    ) + when(k.down, CameraAction::Zoom { steps: -1i64 })
}

fn push_when(v: &mut Vec<CameraAction>, b: bool, a: CameraAction)
    ensures
        final(v)@ == old(v)@ + when(b, a),
{
    if b {
        v.push(a);
    }
    assert(final(v)@ =~= old(v)@ + when(b, a));
}

/// The camera commands that the held keys call for.
pub fn handle_input(keys: &KeyState) -> (r: Vec<CameraAction>)
    ensures
        r@ == input_actions(*keys),
{
    let mut r: Vec<CameraAction> = Vec::new();
    push_when(&mut r, keys.left, CameraAction::Orbit { yaw: 1, pitch: 0 });
    push_when(&mut r, keys.right, CameraAction::Orbit { yaw: -1, pitch: 0 });
    push_when(&mut r, keys.w, CameraAction::Orbit { yaw: 0, pitch: -1 });
    push_when(&mut r, keys.s, CameraAction::Orbit { yaw: 0, pitch: 1 });
    let dx: i64 = (if keys.d { 1 } else { 0 }) - (if keys.a { 1 } else { 0 });
    let dy: i64 = (if keys.q { 1 } else { 0 }) - (if keys.e { 1 } else { 0 });
    push_when(&mut r, dx != 0 || dy != 0, CameraAction::Pan { dx, dy });
    push_when(&mut r, keys.up, CameraAction::Zoom { steps: 1 });
    push_when(&mut r, keys.down, CameraAction::Zoom { steps: -1 });
    assert(r@ =~= input_actions(*keys));
    r
}

} // verus!
