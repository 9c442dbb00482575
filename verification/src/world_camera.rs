//! The camera through which the viewer sees the world.

use vstd::prelude::*;
use crate::geometry::Point;

verus! {

/// The main viewer. It looks straight at the world plane, one world unit to
/// the pixel, and is placed by the world position at the centre of its view.
#[derive(Clone, Copy, Debug, PartialEq, Eq, Structural)]
pub struct WorldCamera {
    pub position: Point,
}

/// Sets up the world camera, centred on the world's origin.
pub fn setup_camera_system() -> (camera: WorldCamera)
    ensures
        camera.position == (Point { x: 0, y: 0 }),
{
    WorldCamera { position: Point { x: 0, y: 0 } }
}

} // verus!
