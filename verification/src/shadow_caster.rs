//! Shadow casters and the shadow volumes they own.
//!
//! A caster keeps one shadow volume for each light it has met, under the
//! light's name. The volume is made when the caster first meets the light,
//! from where the light stands at that moment, and is never made again: for
//! a pair of caster and light there are two states, absent and cached, and
//! the only step leads from the first to the second.

use std::collections::HashMap;
use vstd::prelude::*;
use crate::geometry::Point;
use crate::light::Light;
use crate::shadow_pass::LIGHT_PASS_LAYER;
use crate::silhouette::MeshView;
use crate::silhouette::ShadowMesh;
use crate::silhouette::project;
use crate::silhouette::projection;

verus! {

/// The shadow volume of one caster under one light: its mesh, and the
/// visual layer it is drawn on.
#[derive(Clone, Debug, PartialEq, Eq)]
pub struct Shadow {
    pub mesh: ShadowMesh,
    pub layer: u8,
}

/// What a shadow volume holds, as plain values.
pub struct ShadowView {
    pub mesh: MeshView,
    pub layer: u8,
}

impl View for Shadow {
    type V = ShadowView;

    open spec fn view(&self) -> ShadowView {
        ShadowView { mesh: self.mesh@, layer: self.layer }
    }
}

/// The state of a pair of caster and light.
#[derive(Clone, Copy, Debug, PartialEq, Eq, Structural)]
pub enum ShadowState {
    /// The caster has no volume for the light.
    Absent,
    /// The caster has made its volume for the light.
    Cached,
}

/// What a caster did on meeting a light.
#[derive(Clone, Copy, Debug, PartialEq, Eq, Structural)]
pub enum ShadowStep {
    /// The volume was there already and was left as it is.
    Cached,
    /// The volume was made and is now kept.
    Created,
    /// The caster has no outline, so there is nothing to cast.
    Skipped,
}

/// An object that blocks light. It owns the shadow volumes made for it.
pub struct ShadowCaster {
    shadows: HashMap<u64, Shadow>,
}

/// A caster together with the outline of its shape in the world.
pub struct Occluder {
    pub caster: ShadowCaster,
    pub outline: Vec<Point>,
}

/// The volume that an outline of at least one vertex casts away from a
/// light at `light_pos`, on the layer of the light pass.
pub open spec fn shadow_under(light_pos: Point, outline: Seq<Point>) -> ShadowView {
    ShadowView { mesh: projection(light_pos, outline), layer: LIGHT_PASS_LAYER }
}

/// What a caster with the volumes `cache` does on meeting `light`.
pub open spec fn cast_step(cache: Map<u64, ShadowView>, light: Light, outline: Seq<Point>) -> ShadowStep {
    if cache.contains_key(light.id) {
        ShadowStep::Cached
    } else if outline.len() == 0 {
        ShadowStep::Skipped
    } else {
        ShadowStep::Created
    }
}

/// The volumes of a caster after it has met `light`.
pub open spec fn cast_one(cache: Map<u64, ShadowView>, light: Light, outline: Seq<Point>) -> Map<
    u64,
    ShadowView,
> {
    if cast_step(cache, light, outline) == ShadowStep::Created {
        cache.insert(light.id, shadow_under(light.position, outline))
    } else {
        cache
    }
}

/// The volumes of a caster after it has met the lights one after the other.
pub open spec fn cast_all(cache: Map<u64, ShadowView>, lights: Seq<Light>, outline: Seq<Point>) -> Map<
    u64,
    ShadowView,
>
    decreases lights.len(),
{
    if lights.len() == 0 {
        cache
    } else {
        cast_one(cast_all(cache, lights.drop_last(), outline), lights.last(), outline)
    }
}

/// The names of the lights for which the caster made a volume while it met
/// the lights one after the other, in that order.
pub open spec fn created_for(cache: Map<u64, ShadowView>, lights: Seq<Light>, outline: Seq<Point>) -> Seq<
    u64,
>
    decreases lights.len(),
{
    if lights.len() == 0 {
        Seq::empty()
    } else {
        let before = created_for(cache, lights.drop_last(), outline);
        let met = cast_all(cache, lights.drop_last(), outline);
        if cast_step(met, lights.last(), outline) == ShadowStep::Created {
            before.push(lights.last().id)
        } else {
            before
        }
    }
}

impl View for ShadowCaster {
    type V = Map<u64, ShadowView>;

    /// The volumes of the caster, by the name of the light.
    closed spec fn view(&self) -> Map<u64, ShadowView> {
        self.shadows@.map_values(|s: Shadow| s@)
    }
}

impl ShadowCaster {
    /// A caster that has met no light yet.
    pub fn new() -> (caster: ShadowCaster)
        ensures
            caster@ == Map::<u64, ShadowView>::empty(),
    {
        let caster = ShadowCaster { shadows: HashMap::new() };
        assert(caster@ =~= Map::<u64, ShadowView>::empty());
        caster
    }

    /// The state of this caster and the light named `light`.
    pub fn state_of(&self, light: u64) -> (state: ShadowState)
        ensures
            state == ShadowState::Cached <==> self@.contains_key(light),
            state == ShadowState::Absent <==> !self@.contains_key(light),
    {
        if self.shadows.contains_key(&light) {
            ShadowState::Cached
        } else {
            ShadowState::Absent
        }
    }

    /// The volume kept for the light named `light`, if there is one.
    pub fn shadow_of(&self, light: u64) -> (shadow: Option<&Shadow>)
        ensures
            shadow is Some <==> self@.contains_key(light),
            shadow matches Some(s) ==> s@ == self@[light],
    {
        self.shadows.get(&light)
    }

    /// Meets a light. For a light met before, the volume stays exactly as it
    /// was made, wherever the light stands now. For a new light, the volume
    /// is projected from the outline and kept, unless the outline is empty.
    pub fn cast(&mut self, light: &Light, outline: &Vec<Point>) -> (step: ShadowStep)
        ensures
            step == cast_step(old(self)@, *light, outline@),
            final(self)@ == cast_one(old(self)@, *light, outline@),
    {
        if self.shadows.contains_key(&light.id) {
            return ShadowStep::Cached;
        }
        match project(light.position, outline) {
            None => ShadowStep::Skipped,
            Some(mesh) => {
                let shadow = Shadow { mesh, layer: LIGHT_PASS_LAYER };
                self.shadows.insert(light.id, shadow);
                assert(self@ =~= cast_one(old(self)@, *light, outline@));
                ShadowStep::Created
            },
        }
    }
}

/// Lets one caster meet every light, in order, and tells for which lights
/// it made a volume.
pub fn cast_lights(occluder: &mut Occluder, lights: &Vec<Light>) -> (created: Vec<u64>)
    ensures
        final(occluder).outline@ == old(occluder).outline@,
        final(occluder).caster@ == cast_all(old(occluder).caster@, lights@, old(occluder).outline@),
        created@ == created_for(old(occluder).caster@, lights@, old(occluder).outline@),
{
    let mut created: Vec<u64> = Vec::new();
    let n: usize = lights.len();
    let mut k: usize = 0;
    while k < n
        invariant
            n == lights@.len(),
            0 <= k <= n,
            occluder.outline@ == old(occluder).outline@,
            occluder.caster@ == cast_all(
                old(occluder).caster@,
                lights@.take(k as int),
                old(occluder).outline@,
            ),
            created@ == created_for(
                old(occluder).caster@,
                lights@.take(k as int),
                old(occluder).outline@,
            ),
        decreases n - k,
    {
        proof {
            let upto = lights@.take(k + 1);
            assert(upto.drop_last() =~= lights@.take(k as int));
            assert(upto.last() == lights@[k as int]);
        }
        let step = occluder.caster.cast(&lights[k], &occluder.outline);
        if step == ShadowStep::Created {
            created.push(lights[k].id);
        }
        k = k + 1;
    }
    proof {
        assert(lights@.take(n as int) =~= lights@);
    }
    created
}

/// One frame of shadow keeping: every caster meets every light. The result
/// tells, caster by caster, for which lights a volume was made in this
/// frame; those are the volumes that have yet to enter the scene.
pub fn spawn_shadows_system(lights: &Vec<Light>, casters: &mut Vec<Occluder>) -> (created: Vec<
    Vec<u64>,
>)
    ensures
        final(casters)@.len() == old(casters)@.len(),
        created@.len() == old(casters)@.len(),
        forall|c: int|
            0 <= c < old(casters)@.len() ==> {
                &&& (#[trigger] final(casters)@[c]).outline@ == old(casters)@[c].outline@
                &&& final(casters)@[c].caster@ == cast_all(
                    old(casters)@[c].caster@,
                    lights@,
                    old(casters)@[c].outline@,
                )
                &&& created@[c]@ == created_for(
                    old(casters)@[c].caster@,
                    lights@,
                    old(casters)@[c].outline@,
                )
            },
{
    let mut created: Vec<Vec<u64>> = Vec::new();
    let n: usize = casters.len();
    let mut c: usize = 0;
    while c < n
        invariant
            n == casters@.len(),
            n == old(casters)@.len(),
            0 <= c <= n,
            created@.len() == c,
            forall|i: int| c <= i < n ==> casters@[i] == old(casters)@[i],
            forall|i: int|
                0 <= i < c ==> {
                    &&& (#[trigger] casters@[i]).outline@ == old(casters)@[i].outline@
                    &&& casters@[i].caster@ == cast_all(
                        old(casters)@[i].caster@,
                        lights@,
                        old(casters)@[i].outline@,
                    )
                    &&& created@[i]@ == created_for(
                        old(casters)@[i].caster@,
                        lights@,
                        old(casters)@[i].outline@,
                    )
                },
        decreases n - c,
    {
        let ids = cast_lights(&mut casters[c], lights);
        created.push(ids);
        c = c + 1;
    }
    created
}

/// What a caster is shown in one frame: the lights of the scene, and its
/// own outline at that time.
pub struct Frame {
    pub lights: Seq<Light>,
    pub outline: Seq<Point>,
}

/// The volumes of a caster after the given frames, one after the other.
pub open spec fn after_frames(cache: Map<u64, ShadowView>, frames: Seq<Frame>) -> Map<
    u64,
    ShadowView,
>
    decreases frames.len(),
{
    if frames.len() == 0 {
        cache
    } else {
        cast_all(after_frames(cache, frames.drop_last()), frames.last().lights, frames.last().outline)
    }
}

/// The names of the lights for which the caster made a volume in frame
/// number `f`.
pub open spec fn created_in_frame(cache: Map<u64, ShadowView>, frames: Seq<Frame>, f: int) -> Seq<
    u64,
> {
    created_for(after_frames(cache, frames.take(f)), frames[f].lights, frames[f].outline)
}

/// A volume that a caster has stays with it through a frame, exactly as it
/// is, wherever the lights of the frame stand.
pub proof fn lemma_cached_volume_is_kept(
    cache: Map<u64, ShadowView>,
    lights: Seq<Light>,
    outline: Seq<Point>,
)
    ensures
        forall|id: u64| #[trigger]
            cache.contains_key(id) ==> cast_all(cache, lights, outline).contains_key(id)
                && cast_all(cache, lights, outline)[id] == cache[id],
    decreases lights.len(),
{
    if lights.len() > 0 {
        lemma_cached_volume_is_kept(cache, lights.drop_last(), outline);
    }
}

/// The volumes made in a frame are made for lights that had none, once for
/// each such light, and are with the caster after the frame.
pub proof fn lemma_created_volumes_are_new(
    cache: Map<u64, ShadowView>,
    lights: Seq<Light>,
    outline: Seq<Point>,
)
    ensures
        created_for(cache, lights, outline).no_duplicates(),
        forall|k: int|
            0 <= k < created_for(cache, lights, outline).len() ==> !cache.contains_key(
                #[trigger] created_for(cache, lights, outline)[k],
            ) && cast_all(cache, lights, outline).contains_key(
                created_for(cache, lights, outline)[k],
            ),
    decreases lights.len(),
{
    if lights.len() > 0 {
        let front = lights.drop_last();
        lemma_created_volumes_are_new(cache, front, outline);
        lemma_cached_volume_is_kept(cache, front, outline);
        let before = created_for(cache, front, outline);
        let met = cast_all(cache, front, outline);
        let now = created_for(cache, lights, outline);
        assert forall|k: int| 0 <= k < now.len() implies !cache.contains_key(#[trigger] now[k])
            && cast_all(cache, lights, outline).contains_key(now[k]) by {
            if k < before.len() {
                assert(now[k] == before[k]);
                assert(met.contains_key(before[k]));
            }
        }
        assert forall|i: int, j: int| 0 <= i < now.len() && 0 <= j < now.len() && i != j implies now[i]
            != now[j] by {
            if i < before.len() && j < before.len() {
                assert(before[i] != before[j]);
            } else if i < before.len() {
                assert(met.contains_key(before[i]));
            } else if j < before.len() {
                assert(met.contains_key(before[j]));
            }
        }
    }
}

/// A caster makes no volume for a light it has one for.
pub proof fn lemma_cached_volume_is_not_made_again(
    cache: Map<u64, ShadowView>,
    lights: Seq<Light>,
    outline: Seq<Point>,
    id: u64,
)
    requires
        cache.contains_key(id),
    ensures
        !created_for(cache, lights, outline).contains(id),
{
    lemma_created_volumes_are_new(cache, lights, outline);
}

/// Through any number of frames a volume, once it is with the caster, stays
/// as it was made: what the caster holds for a light after `f` frames it
/// still holds, unchanged, after `g >= f` frames.
pub proof fn lemma_volume_never_changes(
    cache: Map<u64, ShadowView>,
    frames: Seq<Frame>,
    f: int,
    g: int,
    id: u64,
)
    requires
        0 <= f <= g <= frames.len(),
        after_frames(cache, frames.take(f)).contains_key(id),
    ensures
        after_frames(cache, frames.take(g)).contains_key(id),
        after_frames(cache, frames.take(g))[id] == after_frames(cache, frames.take(f))[id],
    decreases g - f,
{
    if f < g {
        lemma_volume_never_changes(cache, frames, f, g - 1, id);
        let upto = frames.take(g);
        assert(upto.drop_last() =~= frames.take(g - 1));
        assert(upto.last() == frames[g - 1]);
        lemma_cached_volume_is_kept(
            after_frames(cache, frames.take(g - 1)),
            frames[g - 1].lights,
            frames[g - 1].outline,
        );
    }
}

/// For one caster and one light at most one volume is ever made, however
/// many frames go by: no frame makes two volumes for one light, and a light
/// for which some frame made a volume gets none in any later frame.
pub proof fn lemma_volume_is_made_at_most_once(
    cache: Map<u64, ShadowView>,
    frames: Seq<Frame>,
    f: int,
    g: int,
    id: u64,
)
    requires
        0 <= f < g < frames.len(),
        created_in_frame(cache, frames, f).contains(id),
    ensures
        created_in_frame(cache, frames, f).no_duplicates(),
        !created_in_frame(cache, frames, g).contains(id),
{
    let start = after_frames(cache, frames.take(f));
    lemma_created_volumes_are_new(start, frames[f].lights, frames[f].outline);
    let upto = frames.take(f + 1);
    assert(upto.drop_last() =~= frames.take(f));
    assert(upto.last() == frames[f]);
    assert(after_frames(cache, upto).contains_key(id));
    lemma_volume_never_changes(cache, frames, f + 1, g, id);
    lemma_cached_volume_is_not_made_again(
        after_frames(cache, frames.take(g)),
        frames[g].lights,
        frames[g].outline,
        id,
    );
}

} // verus!
