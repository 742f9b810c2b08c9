//! Per-frame decisions of the render phases: the window extent rendered at, whether
//! window-sized textures are created, resized or dropped, the opaque passes to run,
//! the batch of deferred transparent draws, and how many lights are uploaded.

use vstd::prelude::*;
use crate::render_phase::RenderPhase;

verus! {

/// The framebuffer extent used for a window: its physical size, at least 1x1.
pub fn window_extent(physical_width: u32, physical_height: u32) -> (r: (u32, u32))
    ensures
        r.0 == (if physical_width > 1 {
            physical_width
        } else {
            1
        }),
        r.1 == (if physical_height > 1 {
            physical_height
        } else {
            1
        }),
{
    (
        if physical_width > 1 {
            physical_width
        } else {
            1
        },
        if physical_height > 1 {
            physical_height
        } else {
            1
        },
    )
}

/// What to do with a texture that follows the window's size.
#[derive(PartialEq, Eq, Structural, Clone, Copy, Debug)]
pub enum TextureAction {
    /// Nothing exists and nothing is wanted.
    Nothing,
    /// Create the texture at this size.
    Create(u32, u32),
    /// The texture exists at the wanted size.
    Keep,
    /// Recreate the texture at this size.
    Resize(u32, u32),
    /// Drop the texture: it is no longer wanted.
    Remove,
}

/// Decides the fate of a window-sized texture (the shadow map, the reflection texture)
/// from the size it exists at, if it does, and whether it is wanted.
pub fn texture_size_action(existing: Option<(u32, u32)>, wanted: bool, width: u32, height: u32) -> (r: TextureAction)
    ensures
        r == (match existing {
            Some((w, h)) => if !wanted {
                TextureAction::Remove
            } else if w != width || h != height {
                TextureAction::Resize(width, height)
            } else {
                TextureAction::Keep
            },
            None => if wanted {
                TextureAction::Create(width, height)
            } else {
                TextureAction::Nothing
            },
        }),
{
    match existing {
        Some((w, h)) => {
            if !wanted {
                TextureAction::Remove
            } else if w != width || h != height {
                TextureAction::Resize(width, height)
            } else {
                TextureAction::Keep
            }
        },
        None => {
            if wanted {
                TextureAction::Create(width, height)
            } else {
                TextureAction::Nothing
            }
        },
    }
}

/// Once a texture was created or resized at a size, asking again at that size keeps it.
pub proof fn lemma_texture_action_settles(existing: Option<(u32, u32)>, width: u32, height: u32)
    ensures
        ({
            let a = match existing {
                Some((w, h)) => if w != width || h != height {
                    TextureAction::Resize(width, height)
                } else {
                    TextureAction::Keep
                },
                None => TextureAction::Create(width, height),
            };
            let after = match a {
                TextureAction::Create(w, h) | TextureAction::Resize(w, h) => Some((w, h)),
                _ => existing,
            };
            after == Some((width, height))
        }),
{
}

/// One opaque pass: the phase it runs in, whether it only writes depth, and whether
/// it writes depth.
#[derive(PartialEq, Eq, Structural, Clone, Copy, Debug)]
pub struct OpaquePass {
    pub phase: RenderPhase,
    pub depth_prepass: bool,
    pub write_depth: bool,
}

pub open spec fn spec_opaque_passes(reflection: bool, depth_prepass_enabled: bool) -> Seq<OpaquePass> {
    let (pre, main) = if reflection {
        (RenderPhase::ReflectDepthPrepass, RenderPhase::ReflectOpaque)
    } else {
        (RenderPhase::DepthPrepass, RenderPhase::Opaque)
    };
    let main_pass = OpaquePass { phase: main, depth_prepass: false, write_depth: !depth_prepass_enabled };
    if depth_prepass_enabled {
        seq![OpaquePass { phase: pre, depth_prepass: true, write_depth: true }, main_pass]
    } else {
        seq![main_pass]
    }
}

/// The opaque passes of the camera view (or of the reflected view): a depth-only prepass
/// when the camera asks for one, then the opaque pass, which writes depth only when no
/// prepass did. The reflected view runs only when there is a reflection plane; `None`
/// means nothing is drawn (and the targets are not cleared).
pub fn opaque_passes(reflection: bool, has_reflection_planes: bool, depth_prepass_enabled: bool) -> (r: Option<Vec<OpaquePass>>)
    ensures
        reflection && !has_reflection_planes <==> r is None,
        r matches Some(v) ==> v@ == spec_opaque_passes(reflection, depth_prepass_enabled),
{
    if reflection && !has_reflection_planes {
        return None;
    }
    let (pre, main) = if reflection {
        (RenderPhase::ReflectDepthPrepass, RenderPhase::ReflectOpaque)
    } else {
        (RenderPhase::DepthPrepass, RenderPhase::Opaque)
    };
    let mut passes: Vec<OpaquePass> = Vec::new();
    if depth_prepass_enabled {
        passes.push(OpaquePass { phase: pre, depth_prepass: true, write_depth: true });
    }
    passes.push(OpaquePass { phase: main, depth_prepass: false, write_depth: !depth_prepass_enabled });
    assert(passes@ =~= spec_opaque_passes(reflection, depth_prepass_enabled));
    Some(passes)
}

/// Every opaque pass list writes depth exactly once, and a depth prepass comes first.
pub proof fn lemma_depth_written_once(reflection: bool, depth_prepass_enabled: bool)
    ensures
        ({
            let v = spec_opaque_passes(reflection, depth_prepass_enabled);
            &&& v.last().write_depth == !depth_prepass_enabled
            &&& depth_prepass_enabled ==> v.len() == 2 && v[0].depth_prepass && v[0].write_depth
            &&& !depth_prepass_enabled ==> v.len() == 1 && v[0].write_depth
        }),
{
}

/// The transparent draws are drawn as one batch when every deferred draw is of the same
/// kind: the entities come out from the back of the (distance-sorted) list. When kinds
/// differ, nothing is drawn this frame.
pub open spec fn spec_alpha_blend_batch(deferred: Seq<(u64, u64)>) -> Option<(u64, Seq<u64>)> {
    if deferred.len() > 0 && forall|i: int| 0 <= i < deferred.len() ==> (#[trigger] deferred[i]).1
        == deferred.last().1 {
        Some((deferred.last().1, deferred.map_values(|d: (u64, u64)| d.0).reverse()))
    } else {
        None
    }
}

/// Collects the deferred transparent draws (entity, kind) from the back of the list,
/// which is sorted by descending distance, while they are of the kind of the first one
/// taken. Returns the kind to draw and its entities, or `None` when the list is empty or
/// a draw of another kind is met.
pub fn alpha_blend_batch(deferred: &mut Vec<(u64, u64)>) -> (r: Option<(u64, Vec<u64>)>)
    ensures
        r matches Some((t, v)) ==> spec_alpha_blend_batch(old(deferred)@) == Some((t, v@)),
        r is None ==> spec_alpha_blend_batch(old(deferred)@) is None,
        final(deferred)@ == old(deferred)@.take(final(deferred)@.len() as int),
        r is Some ==> final(deferred)@.len() == 0,
        r is None && old(deferred)@.len() > 0 ==> {
            &&& final(deferred)@.len() > 0
            &&& final(deferred)@.last().1 != old(deferred)@.last().1
            &&& forall|i: int|
                final(deferred)@.len() <= i < old(deferred)@.len() ==> (#[trigger] old(deferred)@[i]).1
                    == old(deferred)@.last().1
        },
{
    let ghost d0 = deferred@;
    let mut next: Vec<u64> = Vec::new();
    let mut current_type_id: Option<u64> = None;
    loop
        invariant_except_break
            current_type_id is None ==> deferred@.len() == d0.len() && next@.len() == 0,
        invariant
            deferred@.len() <= d0.len(),
            deferred@ == d0.take(deferred@.len() as int),
            current_type_id matches Some(t) ==> d0.len() > 0 && t == d0.last().1 && forall|i: int|
                deferred@.len() <= i < d0.len() ==> (#[trigger] d0[i]).1 == t,
            next@ == d0.skip(deferred@.len() as int).map_values(|d: (u64, u64)| d.0).reverse(),
        ensures
            current_type_id matches Some(t) ==> spec_alpha_blend_batch(d0) == Some((t, next@)),
            current_type_id is None ==> spec_alpha_blend_batch(d0) is None,
            deferred@ == d0.take(deferred@.len() as int),
            current_type_id is Some ==> deferred@.len() == 0,
            current_type_id is None && d0.len() > 0 ==> {
                &&& deferred@.len() > 0
                &&& deferred@.last().1 != d0.last().1
                &&& forall|i: int| deferred@.len() <= i < d0.len() ==> (#[trigger] d0[i]).1 == d0.last().1
            },
        decreases deferred@.len(),
    {
        let ghost before = deferred@;
        match deferred.pop() {
            Some((dist_entity, type_id)) => {
                assert(before.drop_last() =~= d0.take(deferred@.len() as int));
                assert(d0[deferred@.len() as int] == (dist_entity, type_id));
                match current_type_id {
                    Some(last_type_id) => {
                        if last_type_id == type_id {
                            next.push(dist_entity);
                            assert(d0.skip(deferred@.len() as int).map_values(|d: (u64, u64)| d.0).reverse()
                                =~= d0.skip(deferred@.len() + 1int).map_values(|d: (u64, u64)| d.0).reverse().push(dist_entity));
                        } else {
                            deferred.push((dist_entity, type_id));
                            assert(deferred@ =~= before);
                            assert(!(forall|i: int| 0 <= i < d0.len() ==> (#[trigger] d0[i]).1 == d0.last().1));
                            current_type_id = None;
                            break;
                        }
                    },
                    None => {
                        next.push(dist_entity);
                        current_type_id = Some(type_id);
                        assert(deferred@.len() == d0.len() - 1);
                        assert(d0.skip(deferred@.len() as int).map_values(|d: (u64, u64)| d.0).reverse()
                            =~= seq![dist_entity]);
                    },
                }
            },
            None => {
                assert(d0.skip(0) =~= d0);
                break;
            },
        }
    }
    match current_type_id {
        Some(t) => Some((t, next)),
        None => None,
    }
}

/// How many point and spot lights are uploaded: point lights first, then spot lights,
/// at most `max_point_spot` together.
pub fn select_lights(point_count: usize, spot_count: usize, max_point_spot: usize) -> (r: (usize, usize))
    ensures
        r.0 == (if point_count < max_point_spot {
            point_count
        } else {
            max_point_spot
        }),
        r.1 == (if spot_count < max_point_spot - r.0 {
            spot_count
        } else {
            (max_point_spot - r.0) as usize
        }),
        r.0 + r.1 <= max_point_spot,
{
    let points = if point_count < max_point_spot {
        point_count
    } else {
        max_point_spot
    };
    let room = max_point_spot - points;
    let spots = if spot_count < room {
        spot_count
    } else {
        room
    };
    (points, spots)
}

/// The joints written for a skinned mesh: its joints are paired with the inverse bind
/// poses, and writing stops at the first joint whose transform is missing.
pub open spec fn spec_joint_count(found: Seq<bool>, bindpose_count: nat) -> nat
    decreases found.len(),
{
    if found.len() == 0 {
        0
    } else {
        let k = spec_joint_count(found.drop_last(), bindpose_count);
        if k == found.len() - 1 && found.last() && k < bindpose_count {
            k + 1
        } else {
            k
        }
    }
}

/// The number of joint matrices written for a skinned mesh: joints are paired with the
/// inverse bind poses (the shorter list bounds the pairs), up to the first joint whose
/// transform is missing. `found[i]` tells whether joint `i` has a transform.
pub fn skinned_joint_count(found: &Vec<bool>, bindpose_count: usize) -> (r: usize)
    ensures
        r == spec_joint_count(found@, bindpose_count as nat),
        r <= found@.len(),
        r <= bindpose_count,
        forall|i: int| 0 <= i < r ==> found@[i],
{
    let mut i: usize = 0;
    let mut stopped = false;
    while i < found.len()
        invariant
            i <= found@.len(),
            !stopped ==> spec_joint_count(found@.take(i as int), bindpose_count as nat) == i,
            !stopped ==> forall|j: int| 0 <= j < i ==> found@[j],
            !stopped ==> i <= bindpose_count,
            stopped ==> spec_joint_count(found@.take(i as int), bindpose_count as nat) < i,
            stopped ==> forall|j: int| 0 <= j < spec_joint_count(found@.take(i as int), bindpose_count as nat) ==> found@[j],
            stopped ==> spec_joint_count(found@.take(i as int), bindpose_count as nat) <= bindpose_count,
        decreases found@.len() - i,
    {
        assert(found@.take(i + 1).drop_last() =~= found@.take(i as int));
        assert(found@.take(i + 1).last() == found@[i as int]);
        if !stopped && !(found[i] && i < bindpose_count) {
            stopped = true;
        }
        i = i + 1;
    }
    assert(found@.take(i as int) =~= found@);
    if stopped {
        proof {
            lemma_joint_count_stops(found@, bindpose_count as nat);
        }
        let mut k: usize = 0;
        while k < found.len() && found[k] && k < bindpose_count
            invariant
                k <= found@.len(),
                forall|j: int| 0 <= j < k ==> found@[j],
                k <= spec_joint_count(found@, bindpose_count as nat),
            decreases found@.len() - k,
        {
            proof {
                lemma_joint_count_prefix(found@, bindpose_count as nat, k as nat);
            }
            k = k + 1;
        }
        proof {
            lemma_joint_count_upper(found@, bindpose_count as nat, k as nat);
        }
        k
    } else {
        i
    }
}

proof fn lemma_joint_count_stops(found: Seq<bool>, bindpose_count: nat)
    ensures
        spec_joint_count(found, bindpose_count) <= found.len(),
        spec_joint_count(found, bindpose_count) <= bindpose_count || found.len() == 0,
    decreases found.len(),
{
    if found.len() > 0 {
        lemma_joint_count_stops(found.drop_last(), bindpose_count);
    }
}

/// When the first `k + 1` joints are found and within the bind poses, the count exceeds `k`.
proof fn lemma_joint_count_prefix(found: Seq<bool>, bindpose_count: nat, k: nat)
    requires
        k < found.len(),
        k < bindpose_count,
        forall|j: int| 0 <= j <= k ==> found[j],
    ensures
        spec_joint_count(found, bindpose_count) >= k + 1,
    decreases found.len(),
{
    if k + 1 == found.len() {
        lemma_joint_count_all(found.drop_last(), bindpose_count);
    } else {
        lemma_joint_count_prefix(found.drop_last(), bindpose_count, k);
    }
}

proof fn lemma_joint_count_all(found: Seq<bool>, bindpose_count: nat)
    requires
        found.len() <= bindpose_count,
        forall|j: int| 0 <= j < found.len() ==> found[j],
    ensures
        spec_joint_count(found, bindpose_count) == found.len(),
    decreases found.len(),
{
    if found.len() > 0 {
        lemma_joint_count_all(found.drop_last(), bindpose_count);
    }
}

/// The count is at most the first joint that is missing or beyond the bind poses.
proof fn lemma_joint_count_upper(found: Seq<bool>, bindpose_count: nat, k: nat)
    requires
        k <= found.len(),
        k == found.len() || !found[k as int] || k >= bindpose_count,
    ensures
        spec_joint_count(found, bindpose_count) <= k,
    decreases found.len(),
{
    if found.len() > 0 {
        if k == found.len() {
            lemma_joint_count_stops(found, bindpose_count);
        } else {
            lemma_joint_count_upper(found.drop_last(), bindpose_count, k);
            lemma_joint_count_stops(found.drop_last(), bindpose_count);
        }
    }
}

} // verus!
