use bevy_opengl::gpu_images::{plan_image_events, GpuImages, ImageEvent, Tex};
use bevy_opengl::image::{
    mag_filter, min_filter, mip_level_size, physical_size, plan_mip_uploads, upload_fits,
    FilterMode, FormatBlocks, ImageLayout, MipUpload,
};
use wgpu_types::TextureFormat;

#[test]
fn mip_level_extents() {
    assert_eq!(mip_level_size((16, 8, 1), 0, 2), (16, 8, 1));
    assert_eq!(mip_level_size((16, 8, 1), 2, 2), (4, 2, 1));
    assert_eq!(mip_level_size((16, 8, 6), 4, 2), (1, 1, 6));
    assert_eq!(mip_level_size((16, 8, 8), 1, 3), (8, 4, 4));
    assert_eq!(mip_level_size((16, 8, 8), 1, 1), (8, 1, 1));
}

#[test]
fn physical_size_pads_to_blocks() {
    assert_eq!(physical_size((5, 3, 1), (4, 4)), (8, 4, 1));
    assert_eq!(physical_size((8, 8, 2), (4, 4)), (8, 8, 2));
    assert_eq!(physical_size((7, 7, 1), (1, 1)), (7, 7, 1));
}

#[test]
fn format_blocks_from_wgpu() {
    let rgba = FormatBlocks::of(&TextureFormat::Rgba8Unorm);
    assert_eq!((rgba.block_width, rgba.block_height, rgba.block_size, rgba.block_size_all), (1, 1, Some(4), Some(4)));
    let bc1 = FormatBlocks::of(&TextureFormat::Bc1RgbaUnorm);
    assert_eq!((bc1.block_width, bc1.block_height, bc1.block_size), (4, 4, Some(8)));
    let depth = FormatBlocks::of(&TextureFormat::Depth24Plus);
    assert_eq!((depth.block_width, depth.block_height, depth.block_size, depth.block_size_all), (1, 1, None, None));
    let astc = FormatBlocks::of(&TextureFormat::Astc {
        block: wgpu_types::AstcBlock::B8x5,
        channel: wgpu_types::AstcChannel::Unorm,
    });
    assert_eq!((astc.block_width, astc.block_height, astc.block_size), (8, 5, Some(16)));
}

#[test]
fn mip_uploads_of_rgba_image() {
    let img = ImageLayout { size: (4, 2, 1), dim: 2, mip_level_count: 3, array_layer_count: 1 };
    let blocks = FormatBlocks::of(&TextureFormat::Rgba8Unorm);
    assert!(upload_fits(&img, &blocks));
    let uploads = plan_mip_uploads(&img, &blocks).unwrap();
    assert_eq!(
        uploads,
        vec![
            MipUpload { mip_level: 0, width: 4, height: 2, start: 0, end: 32 },
            MipUpload { mip_level: 1, width: 2, height: 1, start: 32, end: 40 },
            MipUpload { mip_level: 2, width: 1, height: 1, start: 40, end: 44 },
        ]
    );
}

#[test]
fn mip_uploads_of_compressed_array_image() {
    let img = ImageLayout { size: (8, 8, 2), dim: 2, mip_level_count: 2, array_layer_count: 2 };
    let blocks = FormatBlocks::of(&TextureFormat::Bc1RgbaUnorm);
    let uploads = plan_mip_uploads(&img, &blocks).unwrap();
    assert_eq!(
        uploads,
        vec![
            MipUpload { mip_level: 0, width: 8, height: 8, start: 0, end: 32 },
            MipUpload { mip_level: 1, width: 4, height: 4, start: 64, end: 72 },
        ]
    );
}

#[test]
fn mip_uploads_refused_without_block_size() {
    let img = ImageLayout { size: (4, 4, 1), dim: 2, mip_level_count: 1, array_layer_count: 1 };
    let blocks = FormatBlocks::of(&TextureFormat::Depth24Plus);
    assert_eq!(plan_mip_uploads(&img, &blocks), None);
    let none = ImageLayout { size: (4, 4, 1), dim: 2, mip_level_count: 1, array_layer_count: 0 };
    assert_eq!(plan_mip_uploads(&none, &blocks), Some(vec![]));
}

#[test]
fn upload_that_does_not_fit() {
    let blocks = FormatBlocks { block_width: 1, block_height: 1, block_size: Some(16), block_size_all: Some(16) };
    let huge = ImageLayout { size: (u32::MAX - 1, 1, 1), dim: 2, mip_level_count: 1, array_layer_count: 1 };
    assert!(!upload_fits(&huge, &blocks));
    let many = ImageLayout { size: (4, 4, 1), dim: 2, mip_level_count: 33, array_layer_count: 1 };
    assert!(!upload_fits(&many, &blocks));
}

#[test]
fn sampler_filters() {
    assert_eq!(min_filter(FilterMode::Linear, 4), glow::LINEAR_MIPMAP_LINEAR);
    assert_eq!(min_filter(FilterMode::Linear, 1), glow::LINEAR);
    assert_eq!(min_filter(FilterMode::Nearest, 2), glow::NEAREST_MIPMAP_NEAREST);
    assert_eq!(min_filter(FilterMode::Nearest, 1), glow::NEAREST);
    assert_eq!(mag_filter(FilterMode::Nearest), glow::NEAREST);
    assert_eq!(mag_filter(FilterMode::Linear), glow::LINEAR);
}

#[test]
fn gpu_images_resolve_textures() {
    let mut images = GpuImages::new();
    images.set_placeholder(99);
    assert_eq!(images.resolve(&Tex::Image(Some(5))), (99, None));
    assert_eq!(images.insert_image(5, 11, glow::TEXTURE_2D), None);
    assert_eq!(images.resolve(&Tex::Image(Some(5))), (11, Some(glow::TEXTURE_2D)));
    assert_eq!(images.insert_image(5, 12, glow::TEXTURE_CUBE_MAP), Some((11, glow::TEXTURE_2D)));
    assert_eq!(images.image(5), Some((12, glow::TEXTURE_CUBE_MAP)));
    assert_eq!(images.resolve(&Tex::Image(None)), (99, None));
    assert_eq!(images.resolve(&Tex::Gl(42)), (42, None));
    assert_eq!(images.resolve(&Tex::Ref(3)), (99, None));
    images.add_texture_set_ref(21, glow::TEXTURE_2D, 3);
    assert_eq!(images.texture_from_ref(3), Some((21, glow::TEXTURE_2D)));
    assert_eq!(images.resolve(&Tex::Ref(3)), (21, Some(glow::TEXTURE_2D)));
    assert_eq!(images.remove_image(5), Some((12, glow::TEXTURE_CUBE_MAP)));
    assert_eq!(images.resolve(&Tex::Image(Some(5))), (99, None));
    assert_eq!(images.remove_image(5), None);
}

#[test]
fn image_events_plan() {
    let events = vec![
        ImageEvent::Added(1),
        ImageEvent::Modified(2),
        ImageEvent::Removed(3),
        ImageEvent::Modified(1),
        ImageEvent::Other,
        ImageEvent::Removed(4),
    ];
    assert_eq!(plan_image_events(&events), (vec![3, 4], vec![1, 2]));
}
