use shadowcast::color::compose;
use shadowcast::color::Rgba;
use shadowcast::shadow_material::bind_group_layout;
use shadowcast::shadow_material::light_map_texel;
use shadowcast::shadow_material::prepare_asset;
use shadowcast::shadow_material::BindEntry;
use shadowcast::shadow_material::BindingKind;
use shadowcast::shadow_material::BindingSource;
use shadowcast::shadow_material::LayoutEntry;
use shadowcast::shadow_material::PrepareAssetError;
use shadowcast::shadow_material::ShaderStages;
use shadowcast::shadow_material::ShadowMaterial;
use shadowcast::shadow_pass::OffscreenTarget;
use shadowcast::shadow_pass::Viewport;

fn target(width: u32, height: u32) -> OffscreenTarget {
    OffscreenTarget {
        width,
        height,
        mip_level_count: 1,
        sample_count: 1,
        texture_binding: true,
        copy_dst: true,
        render_attachment: true,
    }
}

#[test]
fn material_keeps_its_two_textures() {
    let material = ShadowMaterial::new(3, 8);
    assert_eq!(material, ShadowMaterial { texture: 3, shadow_map: 8 });
}

#[test]
fn layout_has_two_textures_two_samplers_and_the_shader_data() {
    assert_eq!(
        bind_group_layout(),
        vec![
            LayoutEntry { binding: 0, visibility: ShaderStages::Fragment, kind: BindingKind::Texture },
            LayoutEntry { binding: 1, visibility: ShaderStages::Fragment, kind: BindingKind::Sampler },
            LayoutEntry { binding: 2, visibility: ShaderStages::Fragment, kind: BindingKind::Texture },
            LayoutEntry { binding: 3, visibility: ShaderStages::Fragment, kind: BindingKind::Sampler },
            LayoutEntry {
                binding: 4,
                visibility: ShaderStages::VertexFragment,
                kind: BindingKind::UniformBuffer,
            },
        ]
    );
}

#[test]
fn material_with_both_textures_ready_is_prepared() {
    let material = ShadowMaterial::new(1, 2);
    assert_eq!(
        prepare_asset(material, true, true),
        Ok(vec![
            BindEntry { binding: 0, source: BindingSource::TextureView },
            BindEntry { binding: 1, source: BindingSource::TextureSampler },
            BindEntry { binding: 2, source: BindingSource::ShadowMapView },
            BindEntry { binding: 3, source: BindingSource::ShadowMapSampler },
            BindEntry { binding: 4, source: BindingSource::ShaderData },
        ])
    );
}

#[test]
fn material_with_a_missing_texture_is_retried() {
    let material = ShadowMaterial::new(1, 2);
    let retry = Err(PrepareAssetError::RetryNextUpdate(material));
    assert_eq!(prepare_asset(material, false, true), retry);
    assert_eq!(prepare_asset(material, true, false), retry);
    assert_eq!(prepare_asset(material, false, false), retry);
    // the same material is prepared once the textures have arrived
    assert!(prepare_asset(material, true, true).is_ok());
}

#[test]
fn bindings_follow_the_layout() {
    let layout = bind_group_layout();
    let entries = prepare_asset(ShadowMaterial::new(0, 0), true, true).unwrap();
    assert_eq!(layout.len(), entries.len());
    for (slot, entry) in layout.iter().zip(entries.iter()) {
        assert_eq!(slot.binding, entry.binding);
    }
}

#[test]
fn centre_of_viewport_samples_centre_of_target() {
    let viewport = Viewport { width: 800, height: 600 };
    assert_eq!(light_map_texel((400, 300), viewport, target(800, 600)), Some((400, 300)));
    assert_eq!(light_map_texel((400, 300), viewport, target(1920, 1080)), Some((960, 540)));
    assert_eq!(light_map_texel((400, 300), viewport, target(7, 5)), Some((3, 2)));
}

#[test]
fn same_size_target_is_sampled_in_place() {
    let viewport = Viewport { width: 800, height: 600 };
    for fragment in [(0, 0), (1, 2), (799, 599), (123, 456)] {
        assert_eq!(light_map_texel(fragment, viewport, target(800, 600)), Some(fragment));
    }
}

#[test]
fn stale_target_is_sampled_in_proportion() {
    // the window grew from 800x600 to 1920x1080 and the target did not
    let viewport = Viewport { width: 1920, height: 1080 };
    let stale = target(800, 600);
    assert_eq!(light_map_texel((960, 540), viewport, stale), Some((400, 300)));
    assert_eq!(light_map_texel((0, 0), viewport, stale), Some((0, 0)));
    assert_eq!(light_map_texel((1919, 1079), viewport, stale), Some((799, 599)));
    assert_eq!(light_map_texel((1000, 100), viewport, stale), Some((416, 55)));
}

#[test]
fn fragment_outside_the_viewport_has_no_texel() {
    let viewport = Viewport { width: 800, height: 600 };
    assert_eq!(light_map_texel((800, 0), viewport, target(800, 600)), None);
    assert_eq!(light_map_texel((0, 600), viewport, target(800, 600)), None);
    assert_eq!(light_map_texel((0, 0), Viewport { width: 0, height: 0 }, target(800, 600)), None);
}

#[test]
fn largest_extents_do_not_overflow() {
    let viewport = Viewport { width: u32::MAX, height: u32::MAX };
    assert_eq!(
        light_map_texel((u32::MAX - 1, 0), viewport, target(u32::MAX, u32::MAX)),
        Some((u32::MAX - 1, 0))
    );
    assert_eq!(light_map_texel((5, 5), viewport, target(0, 0)), Some((0, 0)));
}

#[test]
fn light_multiplies_the_base_colour() {
    let base = Rgba { r: 200, g: 100, b: 0, a: 255 };
    let white = Rgba { r: 255, g: 255, b: 255, a: 255 };
    let black = Rgba { r: 0, g: 0, b: 0, a: 0 };
    assert_eq!(compose(base, white), base);
    assert_eq!(compose(base, black), black);
    assert_eq!(
        compose(base, Rgba { r: 128, g: 64, b: 255, a: 255 }),
        Rgba { r: 100, g: 25, b: 0, a: 255 }
    );
    assert_eq!(
        compose(Rgba { r: 255, g: 1, b: 1, a: 3 }, Rgba { r: 178, g: 127, b: 128, a: 85 }),
        Rgba { r: 178, g: 0, b: 1, a: 1 }
    );
}

#[test]
fn texel_lies_inside_the_target() {
    let viewport = Viewport { width: 3, height: 3 };
    let small = target(2, 5);
    for x in 0..3 {
        for y in 0..3 {
            let (u, v) = light_map_texel((x, y), viewport, small).unwrap();
            assert!(u < 2 && v < 5);
        }
    }
    assert_eq!(light_map_texel((2, 2), viewport, small), Some((1, 3)));
}
