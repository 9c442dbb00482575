use shadowcast::color::Rgba;
use shadowcast::shadow_pass::new_light_camera;
use shadowcast::shadow_pass::setup_shadow_pass_system;
use shadowcast::shadow_pass::OffscreenTarget;
use shadowcast::shadow_pass::PassError;
use shadowcast::shadow_pass::ShadowMap;
use shadowcast::shadow_pass::Viewport;
use shadowcast::shadow_pass::LIGHT_PASS_FAR;
use shadowcast::shadow_pass::LIGHT_PASS_LAYER;
use shadowcast::shadow_pass::LIGHT_PASS_PRIORITY;

const AMBIENT: Rgba = Rgba { r: 178, g: 178, b: 178, a: 255 };

fn target(width: u32, height: u32) -> OffscreenTarget {
    OffscreenTarget {
        width,
        height,
        mip_level_count: 1,
        sample_count: 1,
        texture_binding: true,
        copy_dst: true,
        render_attachment: true,
    }
}

#[test]
fn light_pass_constants() {
    assert_eq!(LIGHT_PASS_LAYER, 1);
    assert_eq!(LIGHT_PASS_PRIORITY, -1);
    assert_eq!(LIGHT_PASS_FAR, 1000);
}

#[test]
fn shadow_map_starts_without_target() {
    assert_eq!(ShadowMap::default(), ShadowMap(None));
}

#[test]
fn target_takes_the_size_of_the_window() {
    let mut map = ShadowMap::default();
    assert!(map.ensure(Viewport { width: 800, height: 600 }));
    assert_eq!(map, ShadowMap(Some(target(800, 600))));
    assert!(!map.is_stale(Viewport { width: 800, height: 600 }));
}

#[test]
fn resized_window_leaves_a_stale_target() {
    let mut map = ShadowMap::default();
    map.ensure(Viewport { width: 800, height: 600 });
    let resized = Viewport { width: 1920, height: 1080 };
    assert!(map.is_stale(resized));
    assert!(!map.ensure(resized));
    assert_eq!(map, ShadowMap(Some(target(800, 600))));
    let camera = setup_shadow_pass_system(&mut map, resized, AMBIENT);
    assert_eq!(camera.target, target(800, 600));
    assert!(map.is_stale(Viewport { width: 800, height: 601 }));
    assert!(map.is_stale(Viewport { width: 799, height: 600 }));
}

#[test]
fn no_target_is_never_stale() {
    assert!(!ShadowMap(None).is_stale(Viewport { width: 800, height: 600 }));
}

#[test]
fn camera_needs_the_target_first() {
    assert_eq!(new_light_camera(&ShadowMap(None), AMBIENT), Err(PassError::TargetMissing));
}

#[test]
fn camera_renders_the_light_layer_into_the_target() {
    let map = ShadowMap(Some(target(640, 480)));
    let camera = new_light_camera(&map, AMBIENT).unwrap();
    assert_eq!(camera.target, target(640, 480));
    assert_eq!(camera.layer, 1);
    assert_eq!(camera.clear_color, AMBIENT);
    assert_eq!(camera.priority, -1);
    assert_eq!(camera.far, 1000);
}

#[test]
fn setup_makes_target_then_camera() {
    let mut map = ShadowMap::default();
    let camera = setup_shadow_pass_system(&mut map, Viewport { width: 1280, height: 720 }, AMBIENT);
    assert_eq!(map, ShadowMap(Some(target(1280, 720))));
    assert_eq!(Ok(camera), new_light_camera(&map, AMBIENT));
}

#[test]
fn empty_window_gives_empty_target() {
    let mut map = ShadowMap::default();
    let camera = setup_shadow_pass_system(&mut map, Viewport { width: 0, height: 0 }, AMBIENT);
    assert_eq!(camera.target, target(0, 0));
}
