//! The offscreen light pass: its render target and its camera.
//!
//! Lights and shadow volumes are drawn into a texture of their own, which
//! the compositing pass later reads. The texture is made once, from the size
//! of the window at that moment, and the camera of the pass can only be made
//! after it.

use vstd::prelude::*;
use crate::color::Rgba;

verus! {

/// The visual layer of lights and shadow volumes. The camera of the light
/// pass sees this layer and no other.
pub const LIGHT_PASS_LAYER: u8 = 1;

/// The light pass camera renders before the world camera, whose priority
/// is zero.
pub const LIGHT_PASS_PRIORITY: i32 = -1;

/// The far plane of the light pass camera, in world units.
pub const LIGHT_PASS_FAR: u32 = 1000;

/// The size of the window's drawing area in pixels.
#[derive(Clone, Copy, Debug, PartialEq, Eq, Structural)]
pub struct Viewport {
    pub width: u32,
    pub height: u32,
}

/// The texture that the light pass renders into: two-dimensional, four
/// 8-bit normalised channels.
#[derive(Clone, Copy, Debug, PartialEq, Eq, Structural)]
pub struct OffscreenTarget {
    pub width: u32,
    pub height: u32,
    pub mip_level_count: u32,
    pub sample_count: u32,
    /// The compositing pass may sample it.
    pub texture_binding: bool,
    /// It may be written by a copy.
    pub copy_dst: bool,
    /// A pass may render into it.
    pub render_attachment: bool,
}

/// The target of the light pass, once it has been made.
#[derive(Clone, Copy, Debug, PartialEq, Eq, Structural)]
pub struct ShadowMap(pub Option<OffscreenTarget>);

/// The camera of the light pass.
#[derive(Clone, Copy, Debug, PartialEq, Eq, Structural)]
pub struct LightPassCamera {
    pub target: OffscreenTarget,
    pub layer: u8,
    pub clear_color: Rgba,
    pub priority: i32,
    pub far: u32,
}

/// Why the light pass could not be set up.
#[derive(Clone, Copy, Debug, PartialEq, Eq, Structural)]
pub enum PassError {
    /// The render target has not been made yet.
    TargetMissing,
}

/// The render target for a window of the given size: as large as the
/// window, one mip level, one sample, usable as a render attachment, as a
/// copy destination and as a sampled texture.
pub open spec fn target_for(window: Viewport) -> OffscreenTarget {
    OffscreenTarget {
        width: window.width,
        height: window.height,
        mip_level_count: 1,
        sample_count: 1,
        texture_binding: true,
        copy_dst: true,
        render_attachment: true,
    }
}

/// The light pass camera over a target: on the light layer, clearing to the
/// ambient colour, ahead of the world camera.
pub open spec fn camera_over(target: OffscreenTarget, ambient: Rgba) -> LightPassCamera {
    LightPassCamera {
        target,
        layer: LIGHT_PASS_LAYER,
        clear_color: ambient,
        priority: LIGHT_PASS_PRIORITY,
        far: LIGHT_PASS_FAR,
    }
}

impl OffscreenTarget {
    /// The render target for a window of the given size.
    pub fn for_window(window: Viewport) -> (target: OffscreenTarget)
        ensures
            target == target_for(window),
    {
        OffscreenTarget {
            width: window.width,
            height: window.height,
            mip_level_count: 1,
            sample_count: 1,
            texture_binding: true,
            copy_dst: true,
            render_attachment: true,
        }
    }
}

impl Default for ShadowMap {
    fn default() -> (map: ShadowMap)
        ensures
            map.0 is None,
    {
        ShadowMap(None)
    }
}

impl ShadowMap {
    /// Makes the render target from the size of the window, unless there is
    /// one already: a target, once made, stays as it is, whatever size the
    /// window has by now. Tells whether the target was made by this call.
    pub fn ensure(&mut self, window: Viewport) -> (made: bool)
        ensures
            made == (old(self).0 is None),
            old(self).0 is None ==> final(self).0 == Some(target_for(window)),
            old(self).0 is Some ==> *final(self) == *old(self),
    {
        match self.0 {
            Some(_) => false,
            None => {
                self.0 = Some(OffscreenTarget::for_window(window));
                true
            },
        }
    }

    /// Whether there is a target whose size is no longer that of the window.
    pub fn is_stale(&self, window: Viewport) -> (stale: bool)
        ensures
            stale == (self.0 matches Some(target) && (target.width != window.width || target.height
                != window.height)),
    {
        match self.0 {
            Some(target) => target.width != window.width || target.height != window.height,
            None => false,
        }
    }
}

/// Makes the camera of the light pass over the render target. The target
/// has to be there first: without one there is no camera.
pub fn new_light_camera(shadow_map: &ShadowMap, ambient: Rgba) -> (camera: Result<
    LightPassCamera,
    PassError,
>)
    ensures
        shadow_map.0 is None ==> camera == Err::<LightPassCamera, PassError>(
            PassError::TargetMissing,
        ),
        shadow_map.0 matches Some(target) ==> camera == Ok::<LightPassCamera, PassError>(
            camera_over(target, ambient),
        ),
{
    match shadow_map.0 {
        None => Err(PassError::TargetMissing),
        Some(target) => Ok(
            LightPassCamera {
                target,
                layer: LIGHT_PASS_LAYER,
                clear_color: ambient,
                priority: LIGHT_PASS_PRIORITY,
                far: LIGHT_PASS_FAR,
            },
        ),
    }
}

/// Sets up the light pass at startup: the render target first, from the
/// size of the window, then the camera over it.
pub fn setup_shadow_pass_system(shadow_map: &mut ShadowMap, window: Viewport, ambient: Rgba) -> (camera:
    LightPassCamera)
    ensures
        old(shadow_map).0 is None ==> final(shadow_map).0 == Some(target_for(window)),
        old(shadow_map).0 is Some ==> *final(shadow_map) == *old(shadow_map),
        final(shadow_map).0 == Some(camera.target),
        camera == camera_over(camera.target, ambient),
{
    let target = match shadow_map.0 {
        Some(target) => target,
        None => {
            let made = OffscreenTarget::for_window(window);
            shadow_map.0 = Some(made);
            made
        },
    };
    LightPassCamera {
        target,
        layer: LIGHT_PASS_LAYER,
        clear_color: ambient,
        priority: LIGHT_PASS_PRIORITY,
        far: LIGHT_PASS_FAR,
    }
}

} // verus!
