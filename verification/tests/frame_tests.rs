use bevy_opengl::frame::{
    alpha_blend_batch, opaque_passes, select_lights, skinned_joint_count, texture_size_action,
    window_extent, OpaquePass, TextureAction,
};
use bevy_opengl::render_phase::RenderPhase;

#[test]
fn window_extent_at_least_one() {
    assert_eq!(window_extent(1280, 720), (1280, 720));
    assert_eq!(window_extent(0, 0), (1, 1));
    assert_eq!(window_extent(0, 5), (1, 5));
}

#[test]
fn window_sized_texture_actions() {
    assert_eq!(texture_size_action(None, false, 10, 10), TextureAction::Nothing);
    assert_eq!(texture_size_action(None, true, 10, 20), TextureAction::Create(10, 20));
    assert_eq!(texture_size_action(Some((10, 20)), true, 10, 20), TextureAction::Keep);
    assert_eq!(texture_size_action(Some((10, 20)), true, 11, 20), TextureAction::Resize(11, 20));
    assert_eq!(texture_size_action(Some((10, 20)), false, 10, 20), TextureAction::Remove);
}

#[test]
fn texture_action_settles_after_resize() {
    // after a resize to the wanted size, asking again keeps the texture
    let action = texture_size_action(Some((4, 4)), true, 8, 6);
    let size = match action {
        TextureAction::Resize(w, h) | TextureAction::Create(w, h) => (w, h),
        _ => panic!("expected a resize"),
    };
    assert_eq!(texture_size_action(Some(size), true, 8, 6), TextureAction::Keep);
}

#[test]
fn opaque_pass_lists() {
    assert_eq!(opaque_passes(true, false, true), None);
    assert_eq!(
        opaque_passes(false, false, false),
        Some(vec![OpaquePass { phase: RenderPhase::Opaque, depth_prepass: false, write_depth: true }])
    );
    assert_eq!(
        opaque_passes(false, false, true),
        Some(vec![
            OpaquePass { phase: RenderPhase::DepthPrepass, depth_prepass: true, write_depth: true },
            OpaquePass { phase: RenderPhase::Opaque, depth_prepass: false, write_depth: false },
        ])
    );
    assert_eq!(
        opaque_passes(true, true, false),
        Some(vec![OpaquePass { phase: RenderPhase::ReflectOpaque, depth_prepass: false, write_depth: true }])
    );
}

#[test]
fn depth_written_once_per_pass_list() {
    for reflection in [false, true] {
        for prepass in [false, true] {
            let passes = opaque_passes(reflection, true, prepass).unwrap();
            assert_eq!(passes.iter().filter(|p| p.write_depth).count(), 1);
        }
    }
}

#[test]
fn alpha_blend_batch_of_one_kind() {
    // sorted by descending distance: entity 30 is the nearest, taken first
    let mut deferred = vec![(10, 7), (20, 7), (30, 7)];
    assert_eq!(alpha_blend_batch(&mut deferred), Some((7, vec![30, 20, 10])));
    assert!(deferred.is_empty());
}

#[test]
fn alpha_blend_batch_mixed_kinds_draws_nothing() {
    let mut deferred = vec![(10, 1), (20, 2), (30, 2)];
    assert_eq!(alpha_blend_batch(&mut deferred), None);
    assert_eq!(deferred, vec![(10, 1)]);
    let mut empty: Vec<(u64, u64)> = vec![];
    assert_eq!(alpha_blend_batch(&mut empty), None);
}

#[test]
fn lights_fill_points_first() {
    assert_eq!(select_lights(3, 4, 10), (3, 4));
    assert_eq!(select_lights(12, 4, 10), (10, 0));
    assert_eq!(select_lights(6, 9, 10), (6, 4));
    assert_eq!(select_lights(0, 0, 10), (0, 0));
}

#[test]
fn joints_stop_at_first_missing() {
    assert_eq!(skinned_joint_count(&vec![true, true, true], 5), 3);
    assert_eq!(skinned_joint_count(&vec![true, false, true], 5), 1);
    assert_eq!(skinned_joint_count(&vec![true, true, true], 2), 2);
    assert_eq!(skinned_joint_count(&vec![], 2), 0);
}
