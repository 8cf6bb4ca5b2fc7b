//! The argument slots of the shader functions.

use vstd::prelude::*;

verus! {

/// Slots of the functions that draw shadows, quads and underlines.
pub const SHAPE_VERTICES: u64 = 0;
pub const SHAPE_INSTANCES: u64 = 1;
pub const SHAPE_VIEWPORT_SIZE: u64 = 2;

/// Slots of the functions that composite backdrop blurs.
pub const BACKDROP_BLUR_VERTICES: u64 = 0;
pub const BACKDROP_BLUR_INSTANCES: u64 = 1;
pub const BACKDROP_BLUR_VIEWPORT_SIZE: u64 = 2;
pub const BACKDROP_BLUR_TEXTURE: u64 = 3;

/// Slots of the vertex function of the shader passes.
pub const SHADER_PASS_VERTICES: u64 = 0;
pub const SHADER_PASS_BOUNDS: u64 = 1;
pub const SHADER_PASS_VIEWPORT_SIZE: u64 = 2;

/// Slots of the fragment function of a shader pass: its uniform block, and the scene with its
/// sampler.
pub const SHADER_PASS_UNIFORM_BUFFER_INDEX: u64 = 0;
pub const SHADER_PASS_SCENE_TEXTURE: u64 = 0;
pub const SHADER_PASS_SCENE_SAMPLER: u64 = 0;

/// Slots of the functions that flip the target into the backdrop texture.
pub const SCENE_FLIP_VERTICES: u64 = 0;
pub const SCENE_FLIP_TEXTURE: u64 = 0;

/// Slots of the functions that draw sprites.
pub const SPRITE_VERTICES: u64 = 0;
pub const SPRITE_INSTANCES: u64 = 1;
pub const SPRITE_VIEWPORT_SIZE: u64 = 2;
pub const SPRITE_ATLAS_TEXTURE_SIZE: u64 = 3;
pub const SPRITE_ATLAS_TEXTURE: u64 = 4;

/// Slots of the functions that draw surfaces.
pub const SURFACE_VERTICES: u64 = 0;
pub const SURFACE_INSTANCES: u64 = 1;
pub const SURFACE_VIEWPORT_SIZE: u64 = 2;
pub const SURFACE_TEXTURE_SIZE: u64 = 3;
pub const SURFACE_Y_TEXTURE: u64 = 4;
pub const SURFACE_CB_CR_TEXTURE: u64 = 5;

/// Slots of the functions that rasterize paths.
pub const PATH_RASTERIZATION_VERTICES: u64 = 0;
pub const PATH_RASTERIZATION_VIEWPORT_SIZE: u64 = 1;

/// The vertices of the unit square.
pub const UNIT_VERTEX_COUNT: u64 = 6;

} // verus!
