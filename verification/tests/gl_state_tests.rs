use bevy_opengl::attrib::{is_supported_vertex_format, AttribType, VertexFormat};
use bevy_opengl::context::{pick_config, vsync_for, PresentMode};
use bevy_opengl::cull::{flip_cull_mode, CullCommand, CullState, Face};
use bevy_opengl::gl;

#[test]
fn gl_enumerants_match_glow() {
    assert_eq!(gl::ZERO, glow::ZERO);
    assert_eq!(gl::ONE, glow::ONE);
    assert_eq!(gl::SRC_ALPHA, glow::SRC_ALPHA);
    assert_eq!(gl::ONE_MINUS_SRC_ALPHA, glow::ONE_MINUS_SRC_ALPHA);
    assert_eq!(gl::DST_COLOR, glow::DST_COLOR);
    assert_eq!(gl::FRONT, glow::FRONT);
    assert_eq!(gl::BACK, glow::BACK);
    assert_eq!(gl::BYTE, glow::BYTE);
    assert_eq!(gl::UNSIGNED_BYTE, glow::UNSIGNED_BYTE);
    assert_eq!(gl::SHORT, glow::SHORT);
    assert_eq!(gl::UNSIGNED_SHORT, glow::UNSIGNED_SHORT);
    assert_eq!(gl::UNSIGNED_INT, glow::UNSIGNED_INT);
    assert_eq!(gl::FLOAT, glow::FLOAT);
    assert_eq!(gl::NEAREST, glow::NEAREST);
    assert_eq!(gl::LINEAR, glow::LINEAR);
    assert_eq!(gl::NEAREST_MIPMAP_NEAREST, glow::NEAREST_MIPMAP_NEAREST);
    assert_eq!(gl::LINEAR_MIPMAP_LINEAR, glow::LINEAR_MIPMAP_LINEAR);
    assert_eq!(gl::TEXTURE_2D, glow::TEXTURE_2D);
}

#[test]
fn attrib_types_of_vertex_formats() {
    assert_eq!(AttribType::from_bevy_vertex_format(VertexFormat::Unorm8), AttribType::UnsignedByte);
    assert_eq!(AttribType::from_bevy_vertex_format(VertexFormat::Snorm16x2), AttribType::Short);
    assert_eq!(AttribType::from_bevy_vertex_format(VertexFormat::Float16x4), AttribType::UnsignedShort);
    assert_eq!(AttribType::from_bevy_vertex_format(VertexFormat::Sint32x3), AttribType::Float);
    assert_eq!(AttribType::from_bevy_vertex_format(VertexFormat::Float32x3), AttribType::Float);
    assert_eq!(AttribType::Float.gl_type(), glow::FLOAT);
    assert_eq!(AttribType::Float.gl_type_bytes(), 4);
    assert_eq!(AttribType::Short.gl_type(), glow::SHORT);
    assert_eq!(AttribType::Short.gl_type_bytes(), 2);
    assert_eq!(AttribType::UnsignedByte.gl_type_bytes(), 1);
}

#[test]
fn unsupported_vertex_formats() {
    assert!(!is_supported_vertex_format(VertexFormat::Float64x2));
    assert!(!is_supported_vertex_format(VertexFormat::Unorm10_10_10_2));
    assert!(is_supported_vertex_format(VertexFormat::Unorm8x4Bgra));
    assert_eq!(AttribType::from_bevy_vertex_format(VertexFormat::Unorm8x4Bgra), AttribType::UnsignedByte);
    assert!(is_supported_vertex_format(VertexFormat::Uint16x4));
}

#[test]
fn flip_cull_mode_swaps_faces() {
    assert_eq!(flip_cull_mode(Some(Face::Back), true), Some(Face::Front));
    assert_eq!(flip_cull_mode(Some(Face::Front), true), Some(Face::Back));
    assert_eq!(flip_cull_mode(Some(Face::Back), false), None);
    assert_eq!(flip_cull_mode(None, true), None);
    // flipping twice restores the mode
    assert_eq!(flip_cull_mode(flip_cull_mode(Some(Face::Front), true), true), Some(Face::Front));
}

#[test]
fn cull_state_sends_only_changes() {
    let mut cull = CullState::new();
    assert_eq!(cull.set_cull_mode(Some(Face::Back)), Some(CullCommand::Enable(glow::BACK)));
    assert_eq!(cull.set_cull_mode(Some(Face::Back)), None);
    assert_eq!(cull.set_cull_mode(Some(Face::Front)), Some(CullCommand::Enable(glow::FRONT)));
    assert_eq!(cull.set_cull_mode(None), Some(CullCommand::Disable));
    assert_eq!(cull.set_cull_mode(None), None);
    assert_eq!(cull.last_cull_mode, None);
}

#[test]
fn vsync_by_present_mode() {
    assert!(vsync_for(PresentMode::AutoVsync));
    assert!(vsync_for(PresentMode::Fifo));
    assert!(vsync_for(PresentMode::FifoRelaxed));
    assert!(!vsync_for(PresentMode::AutoNoVsync));
    assert!(!vsync_for(PresentMode::Immediate));
    assert!(!vsync_for(PresentMode::Mailbox));
}

#[test]
fn config_with_most_samples_later_wins_ties() {
    assert_eq!(pick_config(&vec![]), None);
    assert_eq!(pick_config(&vec![0]), Some(0));
    assert_eq!(pick_config(&vec![0, 4, 2]), Some(1));
    assert_eq!(pick_config(&vec![4, 0, 4, 1]), Some(2));
}
