//! Drawing the standard material: entities ordered by material, which entities a
//! phase draws or defers to the transparent phase, and when the material uniforms
//! must be bound again.

use vstd::prelude::*;
use itertools::Itertools;
use crate::render_phase::RenderPhase;

verus! {

/// `(entity, material)` pairs sorted by material, ascending; pairs with the same material
/// keep their order.
pub open spec fn spec_sorted_by_material(input: Seq<(u64, u64)>, output: Seq<(u64, u64)>) -> bool {
    &&& output.len() == input.len()
    &&& exists|perm: Seq<int>|
        #![trigger perm.len()]
        perm.len() == input.len() && (forall|i: int|
            0 <= i < perm.len() ==> 0 <= #[trigger] perm[i] < input.len() && output[i]
                == input[perm[i]]) && (forall|i: int, j: int|
            0 <= i < j < perm.len() ==> #[trigger] perm[i] != #[trigger] perm[j]) && (forall|
            i: int,
            j: int,
        |
            0 <= i < j < output.len() ==> (#[trigger] output[i]).1 < (#[trigger] output[j]).1 || (
            output[i].1 == output[j].1 && perm[i] < perm[j]))
}

/// Calls `itertools::Itertools::sorted_by_key` with the material as key. Its
/// documentation states an ascending sort that is stable (equal keys keep their order);
/// the contract states that the output is such a reordering of the input.
#[verifier::external_body]
fn sorted_by_material(pairs: Vec<(u64, u64)>) -> (r: Vec<(u64, u64)>)
    ensures
        spec_sorted_by_material(pairs@, r@),
{
    pairs.into_iter().sorted_by_key(|p| p.1).collect()
}

/// The entities of the standard material, ordered by material (stable), so that
/// consecutive draws share material uniforms.
pub fn sort_std_mat_by_material(mesh_entities: Vec<(u64, u64)>) -> (sorted: Vec<u64>)
    ensures
        exists|pairs: Seq<(u64, u64)>|
            spec_sorted_by_material(mesh_entities@, pairs) && sorted@ == pairs.map_values(
                |p: (u64, u64)| p.0,
            ),
{
    let pairs = sorted_by_material(mesh_entities);
    let mut sorted: Vec<u64> = Vec::new();
    let mut i: usize = 0;
    while i < pairs.len()
        invariant
            i <= pairs@.len(),
            sorted@ == pairs@.take(i as int).map_values(|p: (u64, u64)| p.0),
        decreases pairs@.len() - i,
    {
        sorted.push(pairs[i].0);
        assert(pairs@.take(i + 1).map_values(|p: (u64, u64)| p.0) =~= pairs@.take(i as int).map_values(
            |p: (u64, u64)| p.0,
        ).push(pairs@[i as int].0));
        i = i + 1;
    }
    assert(pairs@.take(i as int) =~= pairs@);
    sorted
}

/// What the standard material renderer reads of a mesh entity.
#[derive(PartialEq, Eq, Structural, Clone, Copy, Debug)]
pub struct DrawCandidate {
    pub entity: u64,
    /// Visible from the camera.
    pub visible: bool,
    /// Left out of reflections.
    pub skip_reflection: bool,
    /// Samples the reflection texture.
    pub read_reflection: bool,
    /// Its material, when the material asset is loaded.
    pub material: Option<u64>,
    /// Its material's alpha mode asks for a transparent draw.
    pub transparent: bool,
}

/// One draw of the standard material.
#[derive(PartialEq, Eq, Structural, Clone, Copy, Debug)]
pub struct MaterialDraw {
    pub entity: u64,
    /// Index of its material in the plan's material list.
    pub material_index: usize,
    /// The value of the `read_reflection` uniform for this draw.
    pub read_reflection: bool,
    /// Its material differs from the previous draw's: material uniforms and cull mode are set.
    pub rebind_material: bool,
}

/// The draws of a phase, the materials they use (one entry per run of equal materials),
/// and the entities deferred to the transparent phase.
pub struct DrawPlan {
    pub draws: Vec<MaterialDraw>,
    pub materials: Vec<u64>,
    pub deferred: Vec<u64>,
}

pub struct DrawScan {
    pub draws: Seq<MaterialDraw>,
    pub materials: Seq<u64>,
    pub deferred: Seq<u64>,
    pub last_material: Option<u64>,
}

/// One entity of the draw scan: entities culled by the camera (in phases that may cull),
/// left out of reflections, or without a loaded material are skipped; transparent ones
/// are deferred in phases that defer them; the others are drawn.
pub open spec fn spec_draw_step(phase: RenderPhase, has_reflection: bool, st: DrawScan, c: DrawCandidate) -> DrawScan {
    if (phase.spec_can_use_camera_frustum_cull() && !c.visible) || (c.skip_reflection
        && phase.spec_reflection()) {
        st
    } else {
        match c.material {
            None => st,
            Some(m) => if c.transparent && phase.spec_defer_transparent() {
                DrawScan { deferred: st.deferred.push(c.entity), ..st }
            } else {
                let new_material = st.last_material != Some(m);
                let materials = if new_material {
                    st.materials.push(m)
                } else {
                    st.materials
                };
                DrawScan {
                    draws: st.draws.push(
                        MaterialDraw {
                            entity: c.entity,
                            material_index: (materials.len() - 1) as usize,
                            read_reflection: c.read_reflection && phase.spec_read_reflect()
                                && has_reflection,
                            rebind_material: new_material,
                        },
                    ),
                    materials,
                    deferred: st.deferred,
                    last_material: Some(m),
                }
            },
        }
    }
}

pub open spec fn spec_draw_scan(phase: RenderPhase, has_reflection: bool, cs: Seq<DrawCandidate>) -> DrawScan
    decreases cs.len(),
{
    if cs.len() == 0 {
        DrawScan { draws: Seq::empty(), materials: Seq::empty(), deferred: Seq::empty(), last_material: None }
    } else {
        spec_draw_step(phase, has_reflection, spec_draw_scan(phase, has_reflection, cs.drop_last()), cs.last())
    }
}

/// Plans the standard material draws of a phase, in the order of `candidates`.
/// `has_reflection` tells whether reflection uniforms exist this frame.
pub fn plan_material_draws(phase: RenderPhase, candidates: &Vec<DrawCandidate>, has_reflection: bool) -> (plan: DrawPlan)
    ensures
        ({
            let st = spec_draw_scan(phase, has_reflection, candidates@);
            &&& plan.draws@ == st.draws
            &&& plan.materials@ == st.materials
            &&& plan.deferred@ == st.deferred
        }),
{
    let cull = phase.can_use_camera_frustum_cull();
    let reflection = phase.reflection();
    let defer = phase.defer_transparent();
    let read_reflect = phase.read_reflect();
    let mut draws: Vec<MaterialDraw> = Vec::new();
    let mut materials: Vec<u64> = Vec::new();
    let mut deferred: Vec<u64> = Vec::new();
    let mut last_material: Option<u64> = None;
    let mut i: usize = 0;
    while i < candidates.len()
        invariant
            i <= candidates@.len(),
            cull == phase.spec_can_use_camera_frustum_cull(),
            reflection == phase.spec_reflection(),
            defer == phase.spec_defer_transparent(),
            read_reflect == phase.spec_read_reflect(),
            ({
                let st = spec_draw_scan(phase, has_reflection, candidates@.take(i as int));
                &&& draws@ == st.draws
                &&& materials@ == st.materials
                &&& deferred@ == st.deferred
                &&& last_material == st.last_material
                &&& last_material is Some ==> materials@.len() > 0
                &&& materials@.len() <= i
            }),
        decreases candidates@.len() - i,
    {
        let c = candidates[i];
        proof {
            assert(candidates@.take(i + 1).drop_last() =~= candidates@.take(i as int));
            assert(candidates@.take(i + 1).last() == c);
        }
        if (cull && !c.visible) || (c.skip_reflection && reflection) {
        } else {
            match c.material {
                None => {},
                Some(m) => {
                    if c.transparent && defer {
                        deferred.push(c.entity);
                    } else {
                        let new_material = match last_material {
                            Some(l) => l != m,
                            None => true,
                        };
                        if new_material {
                            materials.push(m);
                        }
                        draws.push(
                            MaterialDraw {
                                entity: c.entity,
                                material_index: materials.len() - 1,
                                read_reflection: c.read_reflection && read_reflect && has_reflection,
                                rebind_material: new_material,
                            },
                        );
                        last_material = Some(m);
                    }
                },
            }
        }
        i = i + 1;
    }
    assert(candidates@.take(i as int) =~= candidates@);
    DrawPlan { draws, materials, deferred }
}

/// Two candidate lists that differ at most in which entities are left out of reflections.
pub open spec fn spec_same_but_skip_reflection(a: Seq<DrawCandidate>, b: Seq<DrawCandidate>) -> bool {
    &&& a.len() == b.len()
    &&& forall|k: int|
        0 <= k < a.len() ==> (#[trigger] a[k]).entity == b[k].entity && a[k].visible == b[k].visible
            && a[k].read_reflection == b[k].read_reflection && a[k].material == b[k].material
            && a[k].transparent == b[k].transparent
}

/// Leaving an entity out of reflections changes nothing outside reflection phases: two
/// candidate lists that differ only in that flag get the same draws, materials and
/// deferred entities there. In a reflection phase, an entity left out of reflections
/// changes nothing: the plan is the plan of the other candidates.
pub proof fn lemma_skip_reflection_only_in_reflections(
    phase: RenderPhase,
    has_reflection: bool,
    a: Seq<DrawCandidate>,
    b: Seq<DrawCandidate>,
)
    requires
        spec_same_but_skip_reflection(a, b),
    ensures
        !phase.spec_reflection() ==> spec_draw_scan(phase, has_reflection, a) == spec_draw_scan(
            phase,
            has_reflection,
            b,
        ),
        phase.spec_reflection() && a.len() > 0 && a.last().skip_reflection ==> spec_draw_scan(
            phase,
            has_reflection,
            a,
        ) == spec_draw_scan(phase, has_reflection, a.drop_last()),
    decreases a.len(),
{
    if a.len() > 0 {
        assert(spec_same_but_skip_reflection(a.drop_last(), b.drop_last()));
        lemma_skip_reflection_only_in_reflections(phase, has_reflection, a.drop_last(), b.drop_last());
        assert(a.last() == a[a.len() - 1]);
        assert(b.last() == b[b.len() - 1]);
    }
}

/// Every draw's material index names a material of the plan, and a draw rebinds exactly
/// when its material index differs from the previous draw's.
pub proof fn lemma_draw_plan_consistent(phase: RenderPhase, has_reflection: bool, cs: Seq<DrawCandidate>)
    requires
        cs.len() <= usize::MAX,
    ensures
        ({
            let st = spec_draw_scan(phase, has_reflection, cs);
            &&& st.materials.len() <= cs.len()
            &&& forall|k: int|
                0 <= k < st.draws.len() ==> (#[trigger] st.draws[k]).material_index < st.materials.len()
            &&& st.draws.len() > 0 ==> st.draws[0].rebind_material && st.draws[0].material_index == 0
            &&& forall|k: int|
                0 < k < st.draws.len() ==> (#[trigger] st.draws[k]).rebind_material == (
                st.draws[k].material_index != st.draws[k - 1].material_index)
            &&& st.draws.len() > 0 ==> st.draws.last().material_index == st.materials.len() - 1
            &&& st.draws.len() > 0 <==> st.last_material is Some
            &&& st.last_material is Some ==> st.materials.len() > 0 && st.materials.last()
                == st.last_material->0
            &&& st.draws.len() == 0 ==> st.materials.len() == 0
        }),
    decreases cs.len(),
{
    if cs.len() > 0 {
        lemma_draw_plan_consistent(phase, has_reflection, cs.drop_last());
        let st = spec_draw_scan(phase, has_reflection, cs.drop_last());
        let nst = spec_draw_scan(phase, has_reflection, cs);
        let c = cs.last();
        assert(nst == spec_draw_step(phase, has_reflection, st, c));
        if nst.draws.len() > st.draws.len() {
            let m = c.material->0;
            let new_material = st.last_material != Some(m);
            assert(nst.draws == st.draws.push(nst.draws.last()));
            assert(nst.draws.last().rebind_material == new_material);
            if new_material {
                assert(nst.materials == st.materials.push(m));
            } else {
                assert(nst.materials == st.materials);
                assert(st.draws.len() > 0);
            }
            assert(nst.draws.last().material_index == nst.materials.len() - 1);
        } else {
            assert(nst.draws == st.draws);
            assert(nst.materials == st.materials);
            assert(nst.last_material == st.last_material);
        }
        assert forall|k: int| 0 <= k < nst.draws.len() implies (#[trigger] nst.draws[k]).material_index < nst.materials.len() by {
            if k < st.draws.len() {
                assert(nst.draws[k] == st.draws[k]);
            }
        }
        assert forall|k: int| 0 < k < nst.draws.len() implies (#[trigger] nst.draws[k]).rebind_material == (
            nst.draws[k].material_index != nst.draws[k - 1].material_index) by {
            if k < st.draws.len() {
                assert(nst.draws[k] == st.draws[k]);
                assert(nst.draws[k - 1] == st.draws[k - 1]);
            } else {
                assert(nst.draws[k - 1] == st.draws[k - 1]);
            }
        }
        if st.draws.len() > 0 {
            assert(nst.draws[0] == st.draws[0]);
        }
    }
}

} // verus!
