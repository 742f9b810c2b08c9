//! The render phases of a frame, what each phase draws, and the blend state
//! that a material's alpha mode asks for.

use vstd::prelude::*;
use crate::gl;

verus! {

/// The phase that the renderer is currently drawing.
#[derive(PartialEq, Eq, Structural, Clone, Copy, Debug)]
pub enum RenderPhase {
    Shadow,
    ReflectDepthPrepass,
    ReflectOpaque,
    ReflectTransparent,
    DepthPrepass,
    Opaque,
    Transparent,
}

impl RenderPhase {
    /// Phases that draw from the camera's point of view may cull by the camera frustum.
    pub open spec fn spec_can_use_camera_frustum_cull(self) -> bool {
        !(self is Shadow || self is ReflectOpaque || self is ReflectTransparent)
    }

    pub open spec fn spec_reflection(self) -> bool {
        self is ReflectDepthPrepass || self is ReflectOpaque || self is ReflectTransparent
    }

    pub open spec fn spec_opaque(self) -> bool {
        self is ReflectDepthPrepass || self is DepthPrepass || self is ReflectOpaque
            || self is Opaque
    }

    pub open spec fn spec_depth_only(self) -> bool {
        self is ReflectDepthPrepass || self is DepthPrepass || self is Shadow
    }

    pub open spec fn spec_defer_transparent(self) -> bool {
        self is ReflectOpaque || self is Opaque
    }

    pub open spec fn spec_transparent(self) -> bool {
        self is ReflectTransparent || self is Transparent
    }

    pub open spec fn spec_read_reflect(self) -> bool {
        self is Opaque || self is Transparent
    }

    /// The phase in which the renderer starts, as a resource's default value.
    pub fn default_phase() -> (r: RenderPhase)
        ensures
            r == RenderPhase::Opaque,
    {
        RenderPhase::Opaque
    }

    pub fn can_use_camera_frustum_cull(&self) -> (r: bool)
        ensures
            r == self.spec_can_use_camera_frustum_cull(),
    {
        match self {
            RenderPhase::Shadow | RenderPhase::ReflectOpaque | RenderPhase::ReflectTransparent => {
                false
            },
            RenderPhase::ReflectDepthPrepass
            | RenderPhase::DepthPrepass
            | RenderPhase::Opaque
            | RenderPhase::Transparent => true,
        }
    }

    pub fn reflection(&self) -> (r: bool)
        ensures
            r == self.spec_reflection(),
    {
        match self {
            RenderPhase::ReflectDepthPrepass
            | RenderPhase::ReflectOpaque
            | RenderPhase::ReflectTransparent => true,
            RenderPhase::DepthPrepass
            | RenderPhase::Shadow
            | RenderPhase::Opaque
            | RenderPhase::Transparent => false,
        }
    }

    pub fn opaque(&self) -> (r: bool)
        ensures
            r == self.spec_opaque(),
    {
        match self {
            RenderPhase::ReflectDepthPrepass
            | RenderPhase::DepthPrepass
            | RenderPhase::ReflectOpaque
            | RenderPhase::Opaque => true,
            _ => false,
        }
    }

    pub fn depth_only(&self) -> (r: bool)
        ensures
            r == self.spec_depth_only(),
    {
        match self {
            RenderPhase::ReflectDepthPrepass | RenderPhase::DepthPrepass | RenderPhase::Shadow => {
                true
            },
            _ => false,
        }
    }

    pub fn defer_transparent(&self) -> (r: bool)
        ensures
            r == self.spec_defer_transparent(),
    {
        match self {
            RenderPhase::ReflectOpaque | RenderPhase::Opaque => true,
            _ => false,
        }
    }

    pub fn transparent(&self) -> (r: bool)
        ensures
            r == self.spec_transparent(),
    {
        match self {
            RenderPhase::ReflectTransparent | RenderPhase::Transparent => true,
            _ => false,
        }
    }

    pub fn read_reflect(&self) -> (r: bool)
        ensures
            r == self.spec_read_reflect(),
    {
        match self {
            RenderPhase::ReflectDepthPrepass
            | RenderPhase::DepthPrepass
            | RenderPhase::Shadow
            | RenderPhase::ReflectOpaque
            | RenderPhase::ReflectTransparent => false,
            RenderPhase::Opaque | RenderPhase::Transparent => true,
        }
    }
}

/// Every phase is exactly one of: a depth-only phase, a phase that draws opaque
/// color, or a transparent phase; and a phase reads the reflection texture only
/// when it is not itself drawing the reflection.
pub proof fn lemma_phase_kinds(p: RenderPhase)
    ensures
        p.spec_transparent() <==> !p.spec_opaque() && !p.spec_depth_only(),
        p.spec_transparent() ==> !p.spec_opaque(),
        p.spec_defer_transparent() ==> p.spec_opaque() && !p.spec_depth_only(),
        p.spec_read_reflect() ==> !p.spec_reflection() && !p.spec_depth_only(),
        !p.spec_can_use_camera_frustum_cull() ==> p is Shadow || p.spec_reflection(),
{
}

/// How a material blends with what is behind it.
/// The mask threshold is not read by the renderer's decisions and is not held here.
#[derive(PartialEq, Eq, Structural, Clone, Copy, Debug)]
pub enum AlphaMode {
    Opaque,
    Mask,
    Blend,
    Premultiplied,
    AlphaToCoverage,
    Add,
    Multiply,
}

pub open spec fn spec_transparent_draw(alpha_mode: AlphaMode) -> bool {
    !(alpha_mode is Opaque || alpha_mode is Mask)
}

/// The source and destination blend factors, as OpenGL enumerants, for an alpha mode.
pub open spec fn spec_blend_func(alpha_mode: AlphaMode) -> (u32, u32) {
    match alpha_mode {
        AlphaMode::Opaque | AlphaMode::Mask => (gl::ZERO, gl::ONE),
        AlphaMode::Blend | AlphaMode::Premultiplied | AlphaMode::AlphaToCoverage => (
            gl::SRC_ALPHA,
            gl::ONE_MINUS_SRC_ALPHA,
        ),
        AlphaMode::Add => (gl::SRC_ALPHA, gl::ONE),
        AlphaMode::Multiply => (gl::DST_COLOR, gl::ZERO),
    }
}

/// Whether a draw with this alpha mode must be deferred to the sorted transparent phase.
pub fn transparent_draw_from_alpha_mode(alpha_mode: &AlphaMode) -> (r: bool)
    ensures
        r == spec_transparent_draw(*alpha_mode),
{
    match alpha_mode {
        AlphaMode::Opaque => false,
        AlphaMode::Mask => false,
        AlphaMode::Blend => true,
        AlphaMode::Premultiplied => true,
        AlphaMode::AlphaToCoverage => true,
        AlphaMode::Add => true,
        AlphaMode::Multiply => true,
    }
}

/// The blend factors `(source, destination)` that the renderer sets for an alpha mode.
pub fn blend_func_from_alpha_mode(alpha_mode: &AlphaMode) -> (r: (u32, u32))
    ensures
        r == spec_blend_func(*alpha_mode),
{
    match alpha_mode {
        AlphaMode::Opaque => (gl::ZERO, gl::ONE),
        AlphaMode::Mask => (gl::ZERO, gl::ONE),
        AlphaMode::Blend => (gl::SRC_ALPHA, gl::ONE_MINUS_SRC_ALPHA),
        AlphaMode::Premultiplied => (gl::SRC_ALPHA, gl::ONE_MINUS_SRC_ALPHA),
        AlphaMode::AlphaToCoverage => (gl::SRC_ALPHA, gl::ONE_MINUS_SRC_ALPHA),
        AlphaMode::Add => (gl::SRC_ALPHA, gl::ONE),
        AlphaMode::Multiply => (gl::DST_COLOR, gl::ZERO),
    }
}

/// The factors `(ZERO, ONE)`, which the opaque passes use, are set exactly for the modes
/// that are not drawn in the transparent phase.
pub proof fn lemma_blend_matches_transparency(alpha_mode: AlphaMode)
    ensures
        (spec_blend_func(alpha_mode) == (gl::ZERO, gl::ONE)) <==> !spec_transparent_draw(
            alpha_mode,
        ),
{
}

} // verus!
