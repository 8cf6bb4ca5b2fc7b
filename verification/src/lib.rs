//! A renderer for scenes of two-dimensional primitives on a GPU.
//!
//! What a frame asks of the GPU is computed as a value: a list of commands, with the bytes that
//! they put into the instance buffer. The library decides everything about it; only allocating,
//! compiling and running is left to whoever holds the device. See [`renderer`] for how a rendering
//! begins, [`rendering`] for how it goes on, and [`outcome`] for how it ends. [`picture`] says what
//! the draws of a frame show of its scene. [`assets`] holds the images that scenes are made of.

pub mod animation;
pub mod assets;
pub mod commands;
pub mod descriptors;
pub mod device;
pub mod encoder;
pub mod error;
pub mod frame;
pub mod frame_laws;
pub mod frame_pictures;
pub mod geometry;
pub mod headless;
pub mod outcome;
pub mod packing;
pub mod picture;
pub mod picture_laws;
pub mod pool;
pub mod readback;
pub mod renderer;
pub mod rendering;
pub mod replay;
pub mod scene;
pub mod shader_cache;
pub mod slots;
pub mod space;
pub mod text;
