use bevy_opengl::render_phase::{
    blend_func_from_alpha_mode, transparent_draw_from_alpha_mode, AlphaMode, RenderPhase,
};

#[test]
fn phase_predicates() {
    assert!(RenderPhase::Opaque.read_reflect());
    assert!(!RenderPhase::ReflectOpaque.read_reflect());
    assert!(RenderPhase::Shadow.depth_only());
    assert!(!RenderPhase::Shadow.can_use_camera_frustum_cull());
    assert!(RenderPhase::ReflectTransparent.transparent());
    assert!(RenderPhase::ReflectTransparent.reflection());
    assert!(RenderPhase::Opaque.defer_transparent());
    assert!(!RenderPhase::DepthPrepass.defer_transparent());
}

#[test]
fn blend_from_alpha_mode() {
    assert_eq!(blend_func_from_alpha_mode(&AlphaMode::Opaque), (glow::ZERO, glow::ONE));
    assert_eq!(blend_func_from_alpha_mode(&AlphaMode::Add), (glow::SRC_ALPHA, glow::ONE));
    assert_eq!(blend_func_from_alpha_mode(&AlphaMode::Multiply), (glow::DST_COLOR, glow::ZERO));
    assert!(!transparent_draw_from_alpha_mode(&AlphaMode::Mask));
    assert!(transparent_draw_from_alpha_mode(&AlphaMode::Premultiplied));
}
