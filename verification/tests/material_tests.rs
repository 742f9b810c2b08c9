use bevy_opengl::material::{plan_material_draws, sort_std_mat_by_material, DrawCandidate, MaterialDraw};
use bevy_opengl::render_phase::RenderPhase;

fn candidate(entity: u64, material: Option<u64>, transparent: bool) -> DrawCandidate {
    DrawCandidate { entity, visible: true, skip_reflection: false, read_reflection: false, material, transparent }
}

#[test]
fn entities_sorted_by_material_stably() {
    let sorted = sort_std_mat_by_material(vec![(1, 30), (2, 10), (3, 30), (4, 20), (5, 10)]);
    assert_eq!(sorted, vec![2, 5, 4, 1, 3]);
    assert_eq!(sort_std_mat_by_material(vec![]), Vec::<u64>::new());
}

#[test]
fn opaque_phase_draws_and_defers() {
    let mut hidden = candidate(4, Some(1), false);
    hidden.visible = false;
    let candidates = vec![
        candidate(1, Some(10), false),
        candidate(2, Some(10), false),
        candidate(3, Some(11), true),
        hidden,
        candidate(5, None, false),
        candidate(6, Some(11), false),
    ];
    let plan = plan_material_draws(RenderPhase::Opaque, &candidates, false);
    assert_eq!(
        plan.draws,
        vec![
            MaterialDraw { entity: 1, material_index: 0, read_reflection: false, rebind_material: true },
            MaterialDraw { entity: 2, material_index: 0, read_reflection: false, rebind_material: false },
            MaterialDraw { entity: 6, material_index: 1, read_reflection: false, rebind_material: true },
        ]
    );
    assert_eq!(plan.materials, vec![10, 11]);
    assert_eq!(plan.deferred, vec![3]);
}

#[test]
fn transparent_phase_draws_transparent_materials() {
    let candidates = vec![candidate(3, Some(11), true), candidate(6, Some(11), false)];
    let plan = plan_material_draws(RenderPhase::Transparent, &candidates, false);
    assert_eq!(plan.draws.len(), 2);
    assert!(plan.deferred.is_empty());
}

#[test]
fn reflection_phase_skips_and_reads() {
    let mut skipped = candidate(1, Some(10), false);
    skipped.skip_reflection = true;
    let mut reader = candidate(2, Some(10), false);
    reader.read_reflection = true;
    reader.visible = false; // reflected views do not cull by the camera
    let plan = plan_material_draws(RenderPhase::ReflectOpaque, &vec![skipped, reader], true);
    assert_eq!(plan.draws, vec![MaterialDraw { entity: 2, material_index: 0, read_reflection: false, rebind_material: true }]);
    let mut reader2 = candidate(2, Some(10), false);
    reader2.read_reflection = true;
    let plan2 = plan_material_draws(RenderPhase::Opaque, &vec![reader2], true);
    assert!(plan2.draws[0].read_reflection);
    let plan3 = plan_material_draws(RenderPhase::Opaque, &vec![reader2], false);
    assert!(!plan3.draws[0].read_reflection);
}
