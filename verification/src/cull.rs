//! Face culling: which faces a draw culls, and the OpenGL calls needed to
//! switch the cull state given the state that was last set.

use vstd::prelude::*;
use crate::gl;

verus! {

/// The face of a triangle that culling removes.
#[derive(PartialEq, Eq, Structural, Clone, Copy, Debug)]
pub enum Face {
    Front,
    Back,
}

pub open spec fn spec_flip_cull_mode(cull_mode: Option<Face>, flip: bool) -> Option<Face> {
    if flip && cull_mode is Some {
        match cull_mode->0 {
            Face::Front => Some(Face::Back),
            Face::Back => Some(Face::Front),
        }
    } else {
        None
    }
}

/// The cull mode used while drawing mirrored geometry: with `flip` the culled face
/// is swapped; without it (or without a cull mode) culling is off.
pub fn flip_cull_mode(cull_mode: Option<Face>, flip: bool) -> (r: Option<Face>)
    ensures
        r == spec_flip_cull_mode(cull_mode, flip),
{
    if flip && cull_mode.is_some() {
        match cull_mode {
            Some(Face::Front) => Some(Face::Back),
            Some(Face::Back) => Some(Face::Front),
            None => None,
        }
    } else {
        None
    }
}

/// Flipping twice restores a cull mode that was flipped.
pub proof fn lemma_flip_twice(cull_mode: Option<Face>)
    ensures
        spec_flip_cull_mode(spec_flip_cull_mode(cull_mode, true), true) == cull_mode,
{
}

/// The OpenGL calls that put the cull state into effect.
#[derive(PartialEq, Eq, Structural, Clone, Copy, Debug)]
pub enum CullCommand {
    /// Enable `CULL_FACE` and cull the face with this enumerant (`FRONT` or `BACK`).
    Enable(u32),
    /// Disable `CULL_FACE`.
    Disable,
}

pub open spec fn spec_cull_command(cull_mode: Option<Face>) -> CullCommand {
    match cull_mode {
        Some(Face::Front) => CullCommand::Enable(gl::FRONT),
        Some(Face::Back) => CullCommand::Enable(gl::BACK),
        None => CullCommand::Disable,
    }
}

/// The cull mode that was last sent to OpenGL.
pub struct CullState {
    pub last_cull_mode: Option<Face>,
}

impl CullState {
    /// A fresh context, where no cull mode has been set yet.
    pub fn new() -> (r: CullState)
        ensures
            r.last_cull_mode is None,
    {
        CullState { last_cull_mode: None }
    }

    /// Records `cull_mode` and returns the calls to make, or `None` when the mode
    /// is already in effect and nothing needs to be sent.
    pub fn set_cull_mode(&mut self, cull_mode: Option<Face>) -> (r: Option<CullCommand>)
        ensures
            final(self).last_cull_mode == cull_mode,
            old(self).last_cull_mode == cull_mode ==> r is None,
            old(self).last_cull_mode != cull_mode ==> r == Some(spec_cull_command(cull_mode)),
    {
        if self.last_cull_mode != cull_mode {
            self.last_cull_mode = cull_mode;
            match cull_mode {
                Some(face) => match face {
                    Face::Front => Some(CullCommand::Enable(gl::FRONT)),
                    Face::Back => Some(CullCommand::Enable(gl::BACK)),
                },
                None => Some(CullCommand::Disable),
            }
        } else {
            None
        }
    }
}

} // verus!
