//! CPU-side logic of an OpenGL 2.1 / WebGL 1 renderer backend for Bevy: render
//! phases, blend and cull state, vertex attribute types, texture upload layout,
//! mesh index and buffer bookkeeping, uniform caching, shader caching, shader source
//! text (with the GLSL 3.30 rewrite for macOS), uniform declarations of uniform
//! structs, and the choices made when the GL context is created.
//! The GPU calls themselves are made by the application layer.

pub mod gl;
pub mod render_phase;
pub mod cull;
pub mod attrib;
pub mod mesh_indices;
pub mod mesh_buffers;
pub mod mesh_layout;
pub mod packing;
pub mod image;
pub mod gpu_images;
pub mod uniforms;
pub mod shader_cache;
pub mod frame;
pub mod material;
pub mod shader_source;
pub mod macos_compat;
pub mod uniform_derive;
pub mod context;
