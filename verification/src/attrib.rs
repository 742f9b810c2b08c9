//! Vertex attribute component types as OpenGL names them, and the vertex
//! formats that meshes store their attributes in.

use vstd::prelude::*;
use crate::gl;

verus! {

/// The formats a mesh vertex attribute can be stored in (one value per WebGPU vertex format).
#[derive(PartialEq, Eq, Structural, Clone, Copy, Debug)]
pub enum VertexFormat {
    Uint8,
    Uint8x2,
    Uint8x4,
    Sint8,
    Sint8x2,
    Sint8x4,
    Unorm8,
    Unorm8x2,
    Unorm8x4,
    Snorm8,
    Snorm8x2,
    Snorm8x4,
    Uint16,
    Uint16x2,
    Uint16x4,
    Sint16,
    Sint16x2,
    Sint16x4,
    Unorm16,
    Unorm16x2,
    Unorm16x4,
    Snorm16,
    Snorm16x2,
    Snorm16x4,
    Float16,
    Float16x2,
    Float16x4,
    Float32,
    Float32x2,
    Float32x3,
    Float32x4,
    Uint32,
    Uint32x2,
    Uint32x3,
    Uint32x4,
    Sint32,
    Sint32x2,
    Sint32x3,
    Sint32x4,
    Float64,
    Float64x2,
    Float64x3,
    Float64x4,
    Unorm10_10_10_2,
    Unorm8x4Bgra,
}

/// The component type of a vertex attribute as handed to `glVertexAttribPointer`.
#[derive(PartialEq, Eq, Structural, Clone, Copy, Debug)]
pub enum AttribType {
    /// i8
    Byte,
    /// u8
    UnsignedByte,
    /// i16
    Short,
    /// u16
    UnsignedShort,
    /// f32
    Float,
}

/// Formats for which the renderer has no attribute type of the same size (64-bit floats
/// and the packed 10-bit format).
pub open spec fn spec_unsupported_format(format: VertexFormat) -> bool {
    format is Float64 || format is Float64x2 || format is Float64x3 || format is Float64x4
        || format is Unorm10_10_10_2
}

/// Whether attributes of this format can be uploaded (`from_bevy_vertex_format`
/// accepts it).
pub fn is_supported_vertex_format(format: VertexFormat) -> (r: bool)
    ensures
        r == !spec_unsupported_format(format),
{
    match format {
        VertexFormat::Float64
        | VertexFormat::Float64x2
        | VertexFormat::Float64x3
        | VertexFormat::Float64x4
        | VertexFormat::Unorm10_10_10_2 => false,
        _ => true,
    }
}

/// The attribute type used for a supported format: the closest type of the same size in bytes.
pub open spec fn spec_attrib_type_of(format: VertexFormat) -> AttribType
    recommends
        !spec_unsupported_format(format),
{
    match format {
        VertexFormat::Uint8 => AttribType::UnsignedByte,
        VertexFormat::Uint8x2 => AttribType::UnsignedByte,
        VertexFormat::Uint8x4 => AttribType::UnsignedByte,
        VertexFormat::Sint8 => AttribType::Byte,
        VertexFormat::Sint8x2 => AttribType::Byte,
        VertexFormat::Sint8x4 => AttribType::Byte,
        VertexFormat::Unorm8 => AttribType::UnsignedByte,
        VertexFormat::Unorm8x2 => AttribType::UnsignedByte,
        VertexFormat::Unorm8x4 => AttribType::UnsignedByte,
        VertexFormat::Snorm8 => AttribType::Byte,
        VertexFormat::Snorm8x2 => AttribType::Byte,
        VertexFormat::Snorm8x4 => AttribType::Byte,
        VertexFormat::Uint16 => AttribType::UnsignedShort,
        VertexFormat::Uint16x2 => AttribType::UnsignedShort,
        VertexFormat::Uint16x4 => AttribType::UnsignedShort,
        VertexFormat::Sint16 => AttribType::Short,
        VertexFormat::Sint16x2 => AttribType::Short,
        VertexFormat::Sint16x4 => AttribType::Short,
        VertexFormat::Unorm16 => AttribType::UnsignedShort,
        VertexFormat::Unorm16x2 => AttribType::UnsignedShort,
        VertexFormat::Unorm16x4 => AttribType::UnsignedShort,
        VertexFormat::Snorm16 => AttribType::Short,
        VertexFormat::Snorm16x2 => AttribType::Short,
        VertexFormat::Snorm16x4 => AttribType::Short,
        VertexFormat::Float16 => AttribType::UnsignedShort,
        VertexFormat::Float16x2 => AttribType::UnsignedShort,
        VertexFormat::Float16x4 => AttribType::UnsignedShort,
        VertexFormat::Float32 => AttribType::Float,
        VertexFormat::Float32x2 => AttribType::Float,
        VertexFormat::Float32x3 => AttribType::Float,
        VertexFormat::Float32x4 => AttribType::Float,
        VertexFormat::Uint32 => AttribType::Float,
        VertexFormat::Uint32x2 => AttribType::Float,
        VertexFormat::Uint32x3 => AttribType::Float,
        VertexFormat::Uint32x4 => AttribType::Float,
        VertexFormat::Sint32 => AttribType::Float,
        VertexFormat::Sint32x2 => AttribType::Float,
        VertexFormat::Sint32x3 => AttribType::Float,
        VertexFormat::Sint32x4 => AttribType::Float,
        VertexFormat::Unorm8x4Bgra => AttribType::UnsignedByte,
        _ => AttribType::Float,
    }
}

/// The bytes of one attribute value of a format.
pub open spec fn spec_vertex_format_size(format: VertexFormat) -> u32 {
    match format {
        VertexFormat::Uint8 | VertexFormat::Sint8 | VertexFormat::Unorm8 | VertexFormat::Snorm8 => 1,
        VertexFormat::Uint8x2 | VertexFormat::Sint8x2 | VertexFormat::Unorm8x2
        | VertexFormat::Snorm8x2 | VertexFormat::Uint16 | VertexFormat::Sint16
        | VertexFormat::Unorm16 | VertexFormat::Snorm16 | VertexFormat::Float16 => 2,
        VertexFormat::Uint8x4 | VertexFormat::Sint8x4 | VertexFormat::Unorm8x4
        | VertexFormat::Snorm8x4 | VertexFormat::Uint16x2 | VertexFormat::Sint16x2
        | VertexFormat::Unorm16x2 | VertexFormat::Snorm16x2 | VertexFormat::Float16x2
        | VertexFormat::Float32 | VertexFormat::Uint32 | VertexFormat::Sint32
        | VertexFormat::Unorm10_10_10_2 | VertexFormat::Unorm8x4Bgra => 4,
        VertexFormat::Uint16x4 | VertexFormat::Sint16x4 | VertexFormat::Unorm16x4
        | VertexFormat::Snorm16x4 | VertexFormat::Float16x4 | VertexFormat::Float32x2
        | VertexFormat::Uint32x2 | VertexFormat::Sint32x2 | VertexFormat::Float64 => 8,
        VertexFormat::Float32x3 | VertexFormat::Uint32x3 | VertexFormat::Sint32x3 => 12,
        VertexFormat::Float32x4 | VertexFormat::Uint32x4 | VertexFormat::Sint32x4
        | VertexFormat::Float64x2 => 16,
        VertexFormat::Float64x3 => 24,
        VertexFormat::Float64x4 => 32,
    }
}

/// The number of components of one attribute value of a format.
pub open spec fn spec_component_count(format: VertexFormat) -> u32 {
    match format {
        VertexFormat::Uint8 | VertexFormat::Sint8 | VertexFormat::Unorm8 | VertexFormat::Snorm8
        | VertexFormat::Uint16 | VertexFormat::Sint16 | VertexFormat::Unorm16
        | VertexFormat::Snorm16 | VertexFormat::Float16 | VertexFormat::Float32
        | VertexFormat::Uint32 | VertexFormat::Sint32 | VertexFormat::Float64 => 1,
        VertexFormat::Uint8x2 | VertexFormat::Sint8x2 | VertexFormat::Unorm8x2
        | VertexFormat::Snorm8x2 | VertexFormat::Uint16x2 | VertexFormat::Sint16x2
        | VertexFormat::Unorm16x2 | VertexFormat::Snorm16x2 | VertexFormat::Float16x2
        | VertexFormat::Float32x2 | VertexFormat::Uint32x2 | VertexFormat::Sint32x2
        | VertexFormat::Float64x2 => 2,
        VertexFormat::Float32x3 | VertexFormat::Uint32x3 | VertexFormat::Sint32x3
        | VertexFormat::Float64x3 => 3,
        _ => 4,
    }
}

/// The replacement type keeps the size: for every supported format, its components in
/// the chosen attribute type take exactly the bytes of one value of the format, and 8-
/// and 16-bit signed formats get a signed type.
pub proof fn lemma_attrib_type_same_size(format: VertexFormat)
    requires
        !spec_unsupported_format(format),
    ensures
        spec_vertex_format_size(format) == spec_component_count(format)
            * spec_attrib_type_of(format).spec_gl_type_bytes(),
        (format is Sint8 || format is Sint8x2 || format is Sint8x4 || format is Snorm8
            || format is Snorm8x2 || format is Snorm8x4) <==> spec_attrib_type_of(format) is Byte,
        (format is Sint16 || format is Sint16x2 || format is Sint16x4 || format is Snorm16
            || format is Snorm16x2 || format is Snorm16x4) <==> spec_attrib_type_of(format) is Short,
{
    match format {
        VertexFormat::Uint8 => assert(spec_component_count(format) == 1),
        VertexFormat::Uint8x2 => assert(spec_component_count(format) == 2),
        VertexFormat::Uint8x4 => assert(spec_component_count(format) == 4),
        VertexFormat::Sint8 => assert(spec_component_count(format) == 1),
        VertexFormat::Sint8x2 => assert(spec_component_count(format) == 2),
        VertexFormat::Sint8x4 => assert(spec_component_count(format) == 4),
        VertexFormat::Unorm8 => assert(spec_component_count(format) == 1),
        VertexFormat::Unorm8x2 => assert(spec_component_count(format) == 2),
        VertexFormat::Unorm8x4 => assert(spec_component_count(format) == 4),
        VertexFormat::Snorm8 => assert(spec_component_count(format) == 1),
        VertexFormat::Snorm8x2 => assert(spec_component_count(format) == 2),
        VertexFormat::Snorm8x4 => assert(spec_component_count(format) == 4),
        VertexFormat::Uint16 => assert(spec_component_count(format) == 1),
        VertexFormat::Uint16x2 => assert(spec_component_count(format) == 2),
        VertexFormat::Uint16x4 => assert(spec_component_count(format) == 4),
        VertexFormat::Sint16 => assert(spec_component_count(format) == 1),
        VertexFormat::Sint16x2 => assert(spec_component_count(format) == 2),
        VertexFormat::Sint16x4 => assert(spec_component_count(format) == 4),
        VertexFormat::Unorm16 => assert(spec_component_count(format) == 1),
        VertexFormat::Unorm16x2 => assert(spec_component_count(format) == 2),
        VertexFormat::Unorm16x4 => assert(spec_component_count(format) == 4),
        VertexFormat::Snorm16 => assert(spec_component_count(format) == 1),
        VertexFormat::Snorm16x2 => assert(spec_component_count(format) == 2),
        VertexFormat::Snorm16x4 => assert(spec_component_count(format) == 4),
        VertexFormat::Float16 => assert(spec_component_count(format) == 1),
        VertexFormat::Float16x2 => assert(spec_component_count(format) == 2),
        VertexFormat::Float16x4 => assert(spec_component_count(format) == 4),
        VertexFormat::Float32 => assert(spec_component_count(format) == 1),
        VertexFormat::Float32x2 => assert(spec_component_count(format) == 2),
        VertexFormat::Float32x3 => assert(spec_component_count(format) == 3),
        VertexFormat::Float32x4 => assert(spec_component_count(format) == 4),
        VertexFormat::Uint32 => assert(spec_component_count(format) == 1),
        VertexFormat::Uint32x2 => assert(spec_component_count(format) == 2),
        VertexFormat::Uint32x3 => assert(spec_component_count(format) == 3),
        VertexFormat::Uint32x4 => assert(spec_component_count(format) == 4),
        VertexFormat::Sint32 => assert(spec_component_count(format) == 1),
        VertexFormat::Sint32x2 => assert(spec_component_count(format) == 2),
        VertexFormat::Sint32x3 => assert(spec_component_count(format) == 3),
        VertexFormat::Sint32x4 => assert(spec_component_count(format) == 4),
        VertexFormat::Float64 => {},
        VertexFormat::Float64x2 => {},
        VertexFormat::Float64x3 => {},
        VertexFormat::Float64x4 => {},
        VertexFormat::Unorm10_10_10_2 => {},
        VertexFormat::Unorm8x4Bgra => assert(spec_component_count(format) == 4),
    }
}

impl AttribType {
    pub open spec fn spec_gl_type(self) -> u32 {
        match self {
            AttribType::Byte => gl::BYTE,
            AttribType::UnsignedByte => gl::UNSIGNED_BYTE,
            AttribType::Short => gl::SHORT,
            AttribType::UnsignedShort => gl::UNSIGNED_SHORT,
            AttribType::Float => gl::FLOAT,
        }
    }

    pub open spec fn spec_gl_type_bytes(self) -> u32 {
        match self {
            AttribType::Byte => 1,
            AttribType::UnsignedByte => 1,
            AttribType::Short => 2,
            AttribType::UnsignedShort => 2,
            AttribType::Float => 4,
        }
    }

    /// The OpenGL enumerant of this component type.
    pub fn gl_type(&self) -> (r: u32)
        ensures
            r == self.spec_gl_type(),
    {
        match &self {
            AttribType::Byte => gl::BYTE,
            AttribType::UnsignedByte => gl::UNSIGNED_BYTE,
            AttribType::Short => gl::SHORT,
            AttribType::UnsignedShort => gl::UNSIGNED_SHORT,
            AttribType::Float => gl::FLOAT,
        }
    }

    /// The size in bytes of one component.
    pub fn gl_type_bytes(&self) -> (r: u32)
        ensures
            r == self.spec_gl_type_bytes(),
    {
        match &self {
            AttribType::Byte => 1,
            AttribType::UnsignedByte => 1,
            AttribType::Short => 2,
            AttribType::UnsignedShort => 2,
            AttribType::Float => 4,
        }
    }

    /// Unsupported types are replaced with the closest thing that is the same size in bytes.
    /// Ex: `VertexFormat::Unorm8 => AttribType::UnsignedByte`.
    pub fn from_bevy_vertex_format(format: VertexFormat) -> (r: AttribType)
        requires
            !spec_unsupported_format(format),
        ensures
            r == spec_attrib_type_of(format),
    {
        match format {
        VertexFormat::Uint8 => AttribType::UnsignedByte,
        VertexFormat::Uint8x2 => AttribType::UnsignedByte,
        VertexFormat::Uint8x4 => AttribType::UnsignedByte,
        VertexFormat::Sint8 => AttribType::Byte,
        VertexFormat::Sint8x2 => AttribType::Byte,
        VertexFormat::Sint8x4 => AttribType::Byte,
        VertexFormat::Unorm8 => AttribType::UnsignedByte,
        VertexFormat::Unorm8x2 => AttribType::UnsignedByte,
        VertexFormat::Unorm8x4 => AttribType::UnsignedByte,
        VertexFormat::Snorm8 => AttribType::Byte,
        VertexFormat::Snorm8x2 => AttribType::Byte,
        VertexFormat::Snorm8x4 => AttribType::Byte,
        VertexFormat::Uint16 => AttribType::UnsignedShort,
        VertexFormat::Uint16x2 => AttribType::UnsignedShort,
        VertexFormat::Uint16x4 => AttribType::UnsignedShort,
        VertexFormat::Sint16 => AttribType::Short,
        VertexFormat::Sint16x2 => AttribType::Short,
        VertexFormat::Sint16x4 => AttribType::Short,
        VertexFormat::Unorm16 => AttribType::UnsignedShort,
        VertexFormat::Unorm16x2 => AttribType::UnsignedShort,
        VertexFormat::Unorm16x4 => AttribType::UnsignedShort,
        VertexFormat::Snorm16 => AttribType::Short,
        VertexFormat::Snorm16x2 => AttribType::Short,
        VertexFormat::Snorm16x4 => AttribType::Short,
        VertexFormat::Float16 => AttribType::UnsignedShort,
        VertexFormat::Float16x2 => AttribType::UnsignedShort,
        VertexFormat::Float16x4 => AttribType::UnsignedShort,
        VertexFormat::Float32 => AttribType::Float,
        VertexFormat::Float32x2 => AttribType::Float,
        VertexFormat::Float32x3 => AttribType::Float,
        VertexFormat::Float32x4 => AttribType::Float,
        VertexFormat::Uint32 => AttribType::Float,
        VertexFormat::Uint32x2 => AttribType::Float,
        VertexFormat::Uint32x3 => AttribType::Float,
        VertexFormat::Uint32x4 => AttribType::Float,
        VertexFormat::Sint32 => AttribType::Float,
        VertexFormat::Sint32x2 => AttribType::Float,
        VertexFormat::Sint32x3 => AttribType::Float,
        VertexFormat::Sint32x4 => AttribType::Float,
        VertexFormat::Unorm8x4Bgra => AttribType::UnsignedByte,
        VertexFormat::Float64
        | VertexFormat::Float64x2
        | VertexFormat::Float64x3
        | VertexFormat::Float64x4
        | VertexFormat::Unorm10_10_10_2 => vstd::pervasive::unreached(),
        }
    }
}

} // verus!
