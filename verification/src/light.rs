//! The lights: markers that follow the pointer.

use vstd::prelude::*;
use crate::color::Rgba;
use crate::geometry::Point;
use crate::mouse_position::MousePosition;
use crate::mouse_position::clamp_coordinate;
use crate::shadow_pass::LIGHT_PASS_LAYER;

verus! {

/// How far apart, in world units, one light stands from the next.
pub const LIGHT_SPACING: i64 = 400;

/// The edge length of the quad that shows a light, in world units.
pub const LIGHT_SIZE: u32 = 800;

/// A light in the world. `id` names it; shadow casters remember by it which
/// lights they have met.
#[derive(Clone, Copy, Debug, PartialEq, Eq, Structural)]
pub struct Light {
    pub id: u64,
    pub position: Point,
}

/// How a light is shown: a square of the falloff sprite in `tint`, seen by
/// the cameras of `layer` only.
#[derive(Clone, Copy, Debug, PartialEq, Eq, Structural)]
pub struct LightMarker {
    pub tint: Rgba,
    pub size: u32,
    pub layer: u8,
}

/// The markers of the lights of the scene, in the order of the lights.
pub open spec fn light_markers() -> Seq<LightMarker> {
    seq![
        LightMarker {
            tint: Rgba { r: 255, g: 255, b: 255, a: 255 },
            size: LIGHT_SIZE,
            layer: LIGHT_PASS_LAYER,
        },
        LightMarker {
            tint: Rgba { r: 255, g: 0, b: 0, a: 255 },
            size: LIGHT_SIZE,
            layer: LIGHT_PASS_LAYER,
        },
    ]
}

/// The lights to put into the scene: a white one and a red one, both on the
/// layer of the light pass.
pub fn spawn_lights_system() -> (markers: Vec<LightMarker>)
    ensures
        markers@ == light_markers(),
{
    let mut markers: Vec<LightMarker> = Vec::new();
    markers.push(
        LightMarker {
            tint: Rgba { r: 255, g: 255, b: 255, a: 255 },
            size: LIGHT_SIZE,
            layer: LIGHT_PASS_LAYER,
        },
    );
    markers.push(
        LightMarker {
            tint: Rgba { r: 255, g: 0, b: 0, a: 255 },
            size: LIGHT_SIZE,
            layer: LIGHT_PASS_LAYER,
        },
    );
    assert(markers@ =~= light_markers());
    markers
}

/// Where light number `index` stands while the pointer is over `pointer`:
/// at the pointer's height, `LIGHT_SPACING` further right for each light
/// before it.
pub open spec fn light_position(pointer: Point, index: int) -> Point {
    Point { x: clamp_coordinate(pointer.x + LIGHT_SPACING * index) as i32, y: pointer.y }
}

/// Moves the lights to the pointer: each keeps its name and goes to its
/// place beside the world position of the pointer.
pub fn move_light_system(mouse_pos: &MousePosition, lights: &mut Vec<Light>)
    ensures
        final(lights)@.len() == old(lights)@.len(),
        forall|i: int|
            0 <= i < old(lights)@.len() ==> (#[trigger] final(lights)@[i]).id == old(lights)@[i].id
                && final(lights)@[i].position == light_position(mouse_pos.world, i),
{
    let n: usize = lights.len();
    let mut i: usize = 0;
    while i < n
        invariant
            n == lights@.len(),
            n == old(lights)@.len(),
            0 <= i <= n,
            forall|k: int| 0 <= k < n ==> (#[trigger] lights@[k]).id == old(lights)@[k].id,
            forall|k: int|
                0 <= k < i ==> (#[trigger] lights@[k]).position == light_position(
                    mouse_pos.world,
                    k,
                ),
        decreases n - i,
    {
        let reach: i128 = mouse_pos.world.x as i128 + LIGHT_SPACING as i128 * i as i128;
        let x: i32 = if reach > i32::MAX as i128 {
            i32::MAX
        } else {
            reach as i32
        };
        let id: u64 = lights[i].id;
        lights.set(i, Light { id, position: Point { x, y: mouse_pos.world.y } });
        i = i + 1;
    }
}

} // verus!
