//! The compositing material: how an object of the world reads the light map.
//!
//! The material binds two textures, the object's own and the light map. A
//! fragment of the object is lit by the texel of the light map that lies
//! under it on the screen.

use vstd::prelude::*;
use vstd::arithmetic::div_mod::lemma_fundamental_div_mod_converse;
use crate::geometry::lemma_mul_spread;
use crate::geometry::lemma_mul_swap;
use crate::geometry::lemma_sign_of_product;
use crate::shadow_pass::OffscreenTarget;
use crate::shadow_pass::Viewport;

verus! {

/// The material of a lit object: the names of its own texture and of the
/// light map.
#[derive(Clone, Copy, Debug, PartialEq, Eq, Structural)]
pub struct ShadowMaterial {
    pub texture: u64,
    pub shadow_map: u64,
}

impl ShadowMaterial {
    pub fn new(texture: u64, shadow_map: u64) -> (material: ShadowMaterial)
        ensures
            material.texture == texture,
            material.shadow_map == shadow_map,
    {
        ShadowMaterial { texture, shadow_map }
    }
}

/// What kind of resource a binding takes.
#[derive(Clone, Copy, Debug, PartialEq, Eq, Structural)]
pub enum BindingKind {
    /// A two-dimensional texture of filterable samples, not multisampled.
    Texture,
    /// A filtering sampler.
    Sampler,
    /// A uniform buffer without dynamic offset.
    UniformBuffer,
}

/// Which shader stages see a binding.
#[derive(Clone, Copy, Debug, PartialEq, Eq, Structural)]
pub enum ShaderStages {
    Fragment,
    VertexFragment,
}

/// Where the resource of a binding comes from.
#[derive(Clone, Copy, Debug, PartialEq, Eq, Structural)]
pub enum BindingSource {
    /// The view of the object's own texture.
    TextureView,
    /// The sampler of the object's own texture.
    TextureSampler,
    /// The view of the light map.
    ShadowMapView,
    /// The sampler of the light map.
    ShadowMapSampler,
    /// The buffer of the material's shader data.
    ShaderData,
}

/// One entry of the material's bind group layout.
#[derive(Clone, Copy, Debug, PartialEq, Eq, Structural)]
pub struct LayoutEntry {
    pub binding: u32,
    pub visibility: ShaderStages,
    pub kind: BindingKind,
}

/// One entry of the material's bind group.
#[derive(Clone, Copy, Debug, PartialEq, Eq, Structural)]
pub struct BindEntry {
    pub binding: u32,
    pub source: BindingSource,
}

/// Why a material could not be prepared for the GPU.
#[derive(Clone, Copy, Debug, PartialEq, Eq, Structural)]
pub enum PrepareAssetError {
    /// A texture of the material is not on the GPU yet. The material comes
    /// back as it was, to be prepared again with the next update.
    RetryNextUpdate(ShadowMaterial),
}

/// The layout of the material's bind group: texture and sampler of the
/// object, texture and sampler of the light map, then the shader data.
pub open spec fn material_layout() -> Seq<LayoutEntry> {
    seq![
        LayoutEntry { binding: 0, visibility: ShaderStages::Fragment, kind: BindingKind::Texture },
        LayoutEntry { binding: 1, visibility: ShaderStages::Fragment, kind: BindingKind::Sampler },
        LayoutEntry { binding: 2, visibility: ShaderStages::Fragment, kind: BindingKind::Texture },
        LayoutEntry { binding: 3, visibility: ShaderStages::Fragment, kind: BindingKind::Sampler },
        LayoutEntry {
            binding: 4,
            visibility: ShaderStages::VertexFragment,
            kind: BindingKind::UniformBuffer,
        },
    ]
}

/// What the material binds, entry by entry of its layout.
pub open spec fn material_bindings() -> Seq<BindEntry> {
    seq![
        BindEntry { binding: 0, source: BindingSource::TextureView },
        BindEntry { binding: 1, source: BindingSource::TextureSampler },
        BindEntry { binding: 2, source: BindingSource::ShadowMapView },
        BindEntry { binding: 3, source: BindingSource::ShadowMapSampler },
        BindEntry { binding: 4, source: BindingSource::ShaderData },
    ]
}

/// The kind of resource that a source hands to its binding.
pub open spec fn kind_of(source: BindingSource) -> BindingKind {
    match source {
        BindingSource::TextureView => BindingKind::Texture,
        BindingSource::TextureSampler => BindingKind::Sampler,
        BindingSource::ShadowMapView => BindingKind::Texture,
        BindingSource::ShadowMapSampler => BindingKind::Sampler,
        BindingSource::ShaderData => BindingKind::UniformBuffer,
    }
}

/// The layout of the bind group of the compositing material.
pub fn bind_group_layout() -> (layout: Vec<LayoutEntry>)
    ensures
        layout@ == material_layout(),
{
    let mut layout: Vec<LayoutEntry> = Vec::new();
    layout.push(
        LayoutEntry { binding: 0, visibility: ShaderStages::Fragment, kind: BindingKind::Texture },
    );
    layout.push(
        LayoutEntry { binding: 1, visibility: ShaderStages::Fragment, kind: BindingKind::Sampler },
    );
    layout.push(
        LayoutEntry { binding: 2, visibility: ShaderStages::Fragment, kind: BindingKind::Texture },
    );
    layout.push(
        LayoutEntry { binding: 3, visibility: ShaderStages::Fragment, kind: BindingKind::Sampler },
    );
    layout.push(
        LayoutEntry {
            binding: 4,
            visibility: ShaderStages::VertexFragment,
            kind: BindingKind::UniformBuffer,
        },
    );
    assert(layout@ =~= material_layout());
    layout
}

/// Prepares a material for the GPU. With both of its textures on the GPU
/// the result is the bind group to make. While either is missing, the
/// material is handed back to be tried again with the next update.
pub fn prepare_asset(
    extracted_asset: ShadowMaterial,
    texture_ready: bool,
    shadow_map_ready: bool,
) -> (prepared: Result<Vec<BindEntry>, PrepareAssetError>)
    ensures
        prepared is Ok <==> texture_ready && shadow_map_ready,
        prepared matches Ok(entries) ==> entries@ == material_bindings(),
        prepared matches Err(e) ==> e == PrepareAssetError::RetryNextUpdate(extracted_asset),
{
    if !texture_ready {
        return Err(PrepareAssetError::RetryNextUpdate(extracted_asset));
    }
    if !shadow_map_ready {
        return Err(PrepareAssetError::RetryNextUpdate(extracted_asset));
    }
    let mut entries: Vec<BindEntry> = Vec::new();
    entries.push(BindEntry { binding: 0, source: BindingSource::TextureView });
    entries.push(BindEntry { binding: 1, source: BindingSource::TextureSampler });
    entries.push(BindEntry { binding: 2, source: BindingSource::ShadowMapView });
    entries.push(BindEntry { binding: 3, source: BindingSource::ShadowMapSampler });
    entries.push(BindEntry { binding: 4, source: BindingSource::ShaderData });
    assert(entries@ =~= material_bindings());
    Ok(entries)
}

/// The bind group fits the layout: entry for entry the same binding number,
/// and a resource of the kind that the layout asks for.
pub proof fn lemma_bindings_fit_layout()
    ensures
        material_bindings().len() == material_layout().len(),
        forall|k: int|
            0 <= k < material_layout().len() ==> (#[trigger] material_bindings()[k]).binding
                == material_layout()[k].binding && kind_of(material_bindings()[k].source)
                == material_layout()[k].kind,
{
}

/// Where along one axis of the target a position along the same axis of the
/// viewport falls: the position, scaled by the ratio of the two extents.
pub open spec fn remap_axis(position: int, extent: int, target: int) -> int {
    (position * target) / extent
}

fn remap(position: u32, extent: u32, target: u32) -> (texel: u32)
    requires
        position < extent,
    ensures
        texel == remap_axis(position as int, extent as int, target as int),
        target > 0 ==> texel < target,
{
    proof {
        let p = position as int;
        let e = extent as int;
        let t = target as int;
        let q = (p * t) / e;
        assert(0 <= p * t <= 0xffff_ffff * 0xffff_ffff) by (nonlinear_arith)
            requires
                0 <= p <= 0xffff_ffff,
                0 <= t <= 0xffff_ffff,
        ;
        assert(0 <= q && (t > 0 ==> q < t)) by (nonlinear_arith)
            requires
                q == (p * t) / e,
                0 <= p < e,
                0 <= t,
        ;
    }
    ((position as u64 * target as u64) / (extent as u64)) as u32
}

/// The texel of the light map that lights a fragment: the fragment's place
/// in the viewport, carried over to the target. Only a fragment inside the
/// viewport has one, and it lies inside the target.
pub fn light_map_texel(fragment: (u32, u32), viewport: Viewport, target: OffscreenTarget) -> (texel:
    Option<(u32, u32)>)
    ensures
        texel is Some <==> fragment.0 < viewport.width && fragment.1 < viewport.height,
        texel matches Some(at) ==> at.0 == remap_axis(
            fragment.0 as int,
            viewport.width as int,
            target.width as int,
        ) && at.1 == remap_axis(fragment.1 as int, viewport.height as int, target.height as int),
        texel matches Some(at) ==> (target.width > 0 ==> at.0 < target.width) && (target.height > 0
            ==> at.1 < target.height),
{
    if fragment.0 < viewport.width && fragment.1 < viewport.height {
        Some(
            (
                remap(fragment.0, viewport.width, target.width),
                remap(fragment.1, viewport.height, target.height),
            ),
        )
    } else {
        None
    }
}

/// The centre of the viewport is lit by the centre of the light map: a
/// position half way along the viewport falls half way along the target,
/// whatever the two extents are.
pub proof fn lemma_center_samples_center(position: int, extent: int, target: int)
    requires
        extent > 0,
        target >= 0,
        2 * position == extent,
    ensures
        remap_axis(position, extent, target) == target / 2,
{
    let q = target / 2;
    let r = target % 2;
    assert(position * target == q * extent + position * r) by {
        lemma_mul_spread(position, 2 * q, r);
        lemma_mul_swap(position, 2, q);
        lemma_mul_swap(2, position, q);
        lemma_mul_swap(2 * position, q, 1);
    }
    lemma_sign_of_product(position, r);
    assert(0 <= position * r < extent) by {
        if r == 1 {
            assert(position * r == position) by (nonlinear_arith)
                requires
                    r == 1,
            ;
        }
    }
    lemma_fundamental_div_mod_converse(position * target, extent, q, position * r);
}

/// With a target as large as the viewport, every fragment is lit by the
/// texel right under it.
pub proof fn lemma_same_size_samples_in_place(position: int, extent: int)
    requires
        extent > 0,
        0 <= position,
    ensures
        remap_axis(position, extent, extent) == position,
{
    lemma_fundamental_div_mod_converse(position * extent, extent, position, 0);
}

} // verus!
