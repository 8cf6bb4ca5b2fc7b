//! What can go wrong when a scene is rendered, in words.

use crate::geometry::{DevicePixels, Size};
use crate::scene::SceneTooLarge;
use crate::text::{append_decimal, append_signed, decimal, signed};
use vstd::prelude::*;
use vstd::string::StringExecFns;

verus! {

/// The ways to render a scene.
#[derive(Clone, Copy, Debug, PartialEq, Eq, Structural)]
pub enum Operation {
    /// To the screen.
    Draw,
    /// Into the next drawable of the layer, read back and not shown.
    RenderToImage,
    /// Into a pixel buffer of the size of the layer.
    RenderToSurface,
    /// Into a pixel buffer of a given size.
    RenderSceneToSurface,
    /// Into a texture of a given size, read back.
    RenderSceneToImage,
    /// Into a texture of a given size that nobody looks at.
    RenderScene,
}

impl Operation {
    /// The name of the operation.
    pub open spec fn spec_name(self) -> Seq<char> {
        match self {
            Operation::Draw => "draw"@,
            Operation::RenderToImage => "render_to_image"@,
            Operation::RenderToSurface => "render_to_surface"@,
            Operation::RenderSceneToSurface => "render_scene_to_surface"@,
            Operation::RenderSceneToImage => "render_scene_to_image"@,
            Operation::RenderScene => "render_scene"@,
        }
    }

    /// The name of the operation.
    pub fn name(&self) -> (name: &'static str)
        ensures
            name@ == self.spec_name(),
    {
        match self {
            Operation::Draw => "draw",
            Operation::RenderToImage => "render_to_image",
            Operation::RenderToSurface => "render_to_surface",
            Operation::RenderSceneToSurface => "render_scene_to_surface",
            Operation::RenderSceneToImage => "render_scene_to_image",
            Operation::RenderScene => "render_scene",
        }
    }
}

/// Why a scene was not rendered.
#[derive(Clone, Copy, Debug, PartialEq, Eq)]
pub enum RenderError {
    /// The operation needs a layer, and the renderer has none.
    NoLayer(Operation),
    /// The layer had no drawable of the given size to offer.
    NoDrawable { operation: Operation, size: Size<DevicePixels> },
    /// A side of the target is not at least one pixel.
    InvalidSize { operation: Operation, size: Size<DevicePixels> },
    /// The scene does not fit into the largest instance buffer, which has this many bytes.
    InstanceBufferTooLarge(usize),
    /// No pixel buffer could be made. The number is the reply of the system.
    PixelBuffer(i32),
    /// The pixel buffer could not be wrapped as a texture. The number is the reply of the system.
    SurfaceTexture(i32),
    /// The texture of the pixel buffer is null.
    NullTexture,
    /// The pixels that were read back do not make an image.
    ImageCreation,
}

impl RenderError {
    /// The error in words. `size` is the size that the error speaks of, as text.
    pub open spec fn text(self, size: Seq<char>) -> Seq<char> {
        match self {
            RenderError::NoLayer(Operation::Draw) =>
                "draw() called on headless renderer - use render_scene_to_image() instead"@,
            RenderError::NoLayer(operation) => operation.spec_name()
                + " requires a layer-backed renderer"@,
            RenderError::NoDrawable { operation: Operation::Draw, .. } =>
                "failed to retrieve next drawable, drawable size: "@ + size,
            RenderError::NoDrawable { operation, .. } => "Failed to get drawable for "@
                + operation.spec_name(),
            RenderError::InvalidSize { operation, .. } => "Invalid size for "@
                + operation.spec_name() + ": "@ + size,
            RenderError::InstanceBufferTooLarge(bytes) => "instance buffer size grew too large: "@
                + decimal(bytes as int),
            RenderError::PixelBuffer(code) => "CVPixelBufferCreate failed: CVReturn("@ + signed(
                code as int,
            ) + ")"@,
            RenderError::SurfaceTexture(code) => "CVMetalTextureCache create failed: CVReturn("@
                + signed(code as int) + ")"@,
            RenderError::NullTexture => "CVMetalTextureGetTexture returned null"@,
            RenderError::ImageCreation => "Failed to create RgbaImage from pixel data"@,
        }
    }

    /// The error in words. `size` is the size that the error speaks of, as text; errors that speak
    /// of none do not use it.
    pub fn message(&self, size: &str) -> (message: String)
        ensures
            message@ == self.text(size@),
    {
        let mut out = String::new();
        match *self {
            RenderError::NoLayer(operation) => match operation {
                Operation::Draw => {
                    out.append(
                        "draw() called on headless renderer - use render_scene_to_image() instead",
                    );
                },
                _ => {
                    out.append(operation.name());
                    out.append(" requires a layer-backed renderer");
                },
            },
            RenderError::NoDrawable { operation, .. } => match operation {
                Operation::Draw => {
                    out.append("failed to retrieve next drawable, drawable size: ");
                    out.append(size);
                },
                _ => {
                    out.append("Failed to get drawable for ");
                    out.append(operation.name());
                },
            },
            RenderError::InvalidSize { operation, .. } => {
                out.append("Invalid size for ");
                out.append(operation.name());
                out.append(": ");
                out.append(size);
            },
            RenderError::InstanceBufferTooLarge(bytes) => {
                out.append("instance buffer size grew too large: ");
                append_decimal(&mut out, bytes as u64);
            },
            RenderError::PixelBuffer(code) => {
                out.append("CVPixelBufferCreate failed: CVReturn(");
                append_signed(&mut out, code);
                out.append(")");
            },
            RenderError::SurfaceTexture(code) => {
                out.append("CVMetalTextureCache create failed: CVReturn(");
                append_signed(&mut out, code);
                out.append(")");
            },
            RenderError::NullTexture => {
                out.append("CVMetalTextureGetTexture returned null");
            },
            RenderError::ImageCreation => {
                out.append("Failed to create RgbaImage from pixel data");
            },
        }
        assert(out@ =~= self.text(size@));
        out
    }
}

impl SceneTooLarge {
    /// The counts in words.
    pub open spec fn text(self) -> Seq<char> {
        "scene too large: "@ + decimal(self.paths as int) + " paths, "@ + decimal(
            self.shadows as int,
        ) + " shadows, "@ + decimal(self.quads as int) + " quads, "@ + decimal(
            self.underlines as int,
        ) + " underlines, "@ + decimal(self.monochrome_sprites as int) + " mono, "@ + decimal(
            self.polychrome_sprites as int,
        ) + " poly, "@ + decimal(self.surfaces as int) + " surfaces"@
    }

    /// The counts in words.
    pub fn message(&self) -> (message: String)
        ensures
            message@ == self.text(),
    {
        let mut out = String::new();
        out.append("scene too large: ");
        append_decimal(&mut out, self.paths as u64);
        out.append(" paths, ");
        append_decimal(&mut out, self.shadows as u64);
        out.append(" shadows, ");
        append_decimal(&mut out, self.quads as u64);
        out.append(" quads, ");
        append_decimal(&mut out, self.underlines as u64);
        out.append(" underlines, ");
        append_decimal(&mut out, self.monochrome_sprites as u64);
        out.append(" mono, ");
        append_decimal(&mut out, self.polychrome_sprites as u64);
        out.append(" poly, ");
        append_decimal(&mut out, self.surfaces as u64);
        out.append(" surfaces");
        assert(out@ =~= self.text());
        out
    }
}

} // verus!
