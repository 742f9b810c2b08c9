//! OpenGL enumerant values that the decisions of this library return.
//! They are the numbers that the OpenGL specification assigns.

use vstd::prelude::*;

verus! {

pub const ZERO: u32 = 0;
pub const ONE: u32 = 1;
pub const SRC_ALPHA: u32 = 0x0302;
pub const ONE_MINUS_SRC_ALPHA: u32 = 0x0303;
pub const DST_COLOR: u32 = 0x0306;
pub const FRONT: u32 = 0x0404;
pub const BACK: u32 = 0x0405;
pub const BYTE: u32 = 0x1400;
pub const UNSIGNED_BYTE: u32 = 0x1401;
pub const SHORT: u32 = 0x1402;
pub const UNSIGNED_SHORT: u32 = 0x1403;
pub const UNSIGNED_INT: u32 = 0x1405;
pub const FLOAT: u32 = 0x1406;
pub const NEAREST: u32 = 0x2600;
pub const LINEAR: u32 = 0x2601;
pub const NEAREST_MIPMAP_NEAREST: u32 = 0x2700;
pub const LINEAR_MIPMAP_LINEAR: u32 = 0x2703;
pub const TEXTURE_2D: u32 = 0x0DE1;

} // verus!
