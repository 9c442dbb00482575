//! Where the pointer is, in the window and in the world.

use vstd::prelude::*;
use crate::geometry::Point;
use crate::shadow_pass::Viewport;
use crate::world_camera::WorldCamera;

verus! {

/// The latest pointer position: `window` as the window reported it, `world`
/// as the place in the world under it.
#[derive(Clone, Copy, Debug, PartialEq, Eq, Structural)]
pub struct MousePosition {
    pub window: Point,
    pub world: Point,
}

impl Default for MousePosition {
    fn default() -> (position: MousePosition)
        ensures
            position == (MousePosition {
                window: Point { x: 0, y: 0 },
                world: Point { x: 0, y: 0 },
            }),
    {
        MousePosition { window: Point { x: 0, y: 0 }, world: Point { x: 0, y: 0 } }
    }
}

/// The world coordinate nearest to `v` that a position can hold.
pub open spec fn clamp_coordinate(v: int) -> int {
    if v < i32::MIN {
        i32::MIN as int
    } else if v > i32::MAX {
        i32::MAX as int
    } else {
        v
    }
}

/// The world position under a pointer at `cursor`: the pointer's offset from
/// the centre of the viewport, carried to where the camera stands.
pub open spec fn pointer_world(cursor: Point, viewport: Viewport, camera: WorldCamera) -> Point {
    Point {
        x: clamp_coordinate(cursor.x - viewport.width / 2 + camera.position.x) as i32,
        y: clamp_coordinate(cursor.y - viewport.height / 2 + camera.position.y) as i32,
    }
}

/// Brings a coordinate back into the range of world coordinates.
pub fn clamp_to_world(v: i64) -> (c: i32)
    ensures
        c == clamp_coordinate(v as int),
{
    if v < i32::MIN as i64 {
        i32::MIN
    } else if v > i32::MAX as i64 {
        i32::MAX
    } else {
        v as i32
    }
}

/// Follows the pointer. With a pointer event this frame, `position` takes
/// the event's window position and the world position under it; without
/// one, `position` stays as it was.
pub fn track_mouse_world_position_system(
    cursor: Option<Point>,
    position: &mut MousePosition,
    viewport: Viewport,
    camera: &WorldCamera,
)
    ensures
        cursor is None ==> *final(position) == *old(position),
        cursor matches Some(at) ==> final(position).window == at && final(position).world
            == pointer_world(at, viewport, *camera),
{
    match cursor {
        None => {},
        Some(at) => {
            let x: i64 = at.x as i64 - (viewport.width / 2) as i64 + camera.position.x as i64;
            let y: i64 = at.y as i64 - (viewport.height / 2) as i64 + camera.position.y as i64;
            position.world = Point { x: clamp_to_world(x), y: clamp_to_world(y) };
            position.window = at;
        },
    }
}

} // verus!
