use shadowcast::color::Rgba;
use shadowcast::geometry::Point;
use shadowcast::light::move_light_system;
use shadowcast::light::spawn_lights_system;
use shadowcast::light::Light;
use shadowcast::light::LightMarker;
use shadowcast::light::LIGHT_SIZE;
use shadowcast::light::LIGHT_SPACING;
use shadowcast::mouse_position::clamp_to_world;
use shadowcast::mouse_position::track_mouse_world_position_system;
use shadowcast::mouse_position::MousePosition;
use shadowcast::shadow_pass::Viewport;
use shadowcast::world_camera::setup_camera_system;
use shadowcast::world_camera::WorldCamera;

#[test]
fn camera_starts_at_the_origin() {
    assert_eq!(setup_camera_system(), WorldCamera { position: Point::new(0, 0) });
}

#[test]
fn pointer_starts_at_the_origin() {
    let position = MousePosition::default();
    assert_eq!(position.window, Point::new(0, 0));
    assert_eq!(position.world, Point::new(0, 0));
}

#[test]
fn pointer_is_measured_from_the_centre_of_the_viewport() {
    let mut position = MousePosition::default();
    let camera = setup_camera_system();
    let viewport = Viewport { width: 800, height: 600 };
    track_mouse_world_position_system(Some(Point::new(500, 400)), &mut position, viewport, &camera);
    assert_eq!(position.window, Point::new(500, 400));
    assert_eq!(position.world, Point::new(100, 100));
    track_mouse_world_position_system(Some(Point::new(0, 0)), &mut position, viewport, &camera);
    assert_eq!(position.world, Point::new(-400, -300));
    track_mouse_world_position_system(Some(Point::new(400, 300)), &mut position, viewport, &camera);
    assert_eq!(position.world, Point::new(0, 0));
}

#[test]
fn pointer_follows_the_camera() {
    let mut position = MousePosition::default();
    let camera = WorldCamera { position: Point::new(1000, -50) };
    let viewport = Viewport { width: 801, height: 601 };
    track_mouse_world_position_system(Some(Point::new(10, 20)), &mut position, viewport, &camera);
    assert_eq!(position.window, Point::new(10, 20));
    assert_eq!(position.world, Point::new(610, -330));
}

#[test]
fn frame_without_pointer_event_changes_nothing() {
    let mut position = MousePosition { window: Point::new(3, 4), world: Point::new(-7, 9) };
    let camera = WorldCamera { position: Point::new(55, 66) };
    track_mouse_world_position_system(None, &mut position, Viewport { width: 800, height: 600 }, &camera);
    assert_eq!(position, MousePosition { window: Point::new(3, 4), world: Point::new(-7, 9) });
}

#[test]
fn world_position_stops_at_the_ends_of_the_range() {
    let mut position = MousePosition::default();
    let far_right = WorldCamera { position: Point::new(i32::MAX, i32::MIN) };
    let viewport = Viewport { width: 100, height: u32::MAX };
    track_mouse_world_position_system(
        Some(Point::new(i32::MAX, i32::MIN)),
        &mut position,
        viewport,
        &far_right,
    );
    assert_eq!(position.world, Point::new(i32::MAX, i32::MIN));
    assert_eq!(position.window, Point::new(i32::MAX, i32::MIN));
    assert_eq!(clamp_to_world(i64::MAX), i32::MAX);
    assert_eq!(clamp_to_world(i64::MIN), i32::MIN);
    assert_eq!(clamp_to_world(-12), -12);
    assert_eq!(clamp_to_world(2147483648), 2147483647);
    assert_eq!(clamp_to_world(-2147483649), -2147483648);
}

#[test]
fn lights_line_up_beside_the_pointer() {
    assert_eq!(LIGHT_SPACING, 400);
    let mouse = MousePosition { window: Point::new(0, 0), world: Point::new(120, -30) };
    let mut lights = vec![
        Light { id: 7, position: Point::new(1, 1) },
        Light { id: 8, position: Point::new(2, 2) },
        Light { id: 9, position: Point::new(3, 3) },
    ];
    move_light_system(&mouse, &mut lights);
    assert_eq!(
        lights,
        vec![
            Light { id: 7, position: Point::new(120, -30) },
            Light { id: 8, position: Point::new(520, -30) },
            Light { id: 9, position: Point::new(920, -30) },
        ]
    );
}

#[test]
fn lights_stop_at_the_end_of_the_range() {
    let mouse = MousePosition { window: Point::new(0, 0), world: Point::new(i32::MAX - 500, 5) };
    let mut lights = vec![
        Light { id: 1, position: Point::new(0, 0) },
        Light { id: 2, position: Point::new(0, 0) },
        Light { id: 3, position: Point::new(0, 0) },
    ];
    move_light_system(&mouse, &mut lights);
    assert_eq!(lights[0].position, Point::new(i32::MAX - 500, 5));
    assert_eq!(lights[1].position, Point::new(i32::MAX - 100, 5));
    assert_eq!(lights[2].position, Point::new(i32::MAX, 5));
}

#[test]
fn moving_no_lights_does_nothing() {
    let mouse = MousePosition::default();
    let mut lights: Vec<Light> = Vec::new();
    move_light_system(&mouse, &mut lights);
    assert!(lights.is_empty());
}

#[test]
fn scene_has_a_white_and_a_red_light() {
    assert_eq!(LIGHT_SIZE, 800);
    assert_eq!(
        spawn_lights_system(),
        vec![
            LightMarker { tint: Rgba { r: 255, g: 255, b: 255, a: 255 }, size: 800, layer: 1 },
            LightMarker { tint: Rgba { r: 255, g: 0, b: 0, a: 255 }, size: 800, layer: 1 },
        ]
    );
}
