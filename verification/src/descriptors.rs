//! What the renderer asks the device to build: textures, buffers and pipelines.

use crate::commands::Pipeline;
use crate::geometry::{is_drawable, DevicePixels, Point, Size};
use crate::scene::ShaderPass;
use vstd::prelude::*;

verus! {

/// The samples of each pixel of the multisampled path texture. All devices support four.
pub const PATH_SAMPLE_COUNT: u32 = 4;

/// The pixel formats of the textures.
#[derive(Clone, Copy, Debug, PartialEq, Eq, Structural)]
pub enum PixelFormat {
    Bgra8Unorm,
    R8Unorm,
    Rg8Unorm,
}

/// Where the memory of a texture lives.
#[derive(Clone, Copy, Debug, PartialEq, Eq, Structural)]
pub enum StorageMode {
    Managed,
    Private,
    /// In the tile memory of the GPU, for the length of a render pass.
    Memoryless,
}

/// The storage options of a buffer.
#[derive(Clone, Copy, Debug, PartialEq, Eq, Structural)]
pub enum ResourceOptions {
    /// Shared storage. The CPU only writes, through a write-combined cache.
    SharedWriteCombined,
    /// Managed storage: the CPU announces what it wrote.
    Managed,
}

/// The bit of the usage of a texture that lets shaders sample it.
pub const SHADER_READ_USAGE: u64 = 1;

/// The bit of the usage of a texture that lets render passes render to it.
pub const RENDER_TARGET_USAGE: u64 = 4;

/// The usage of a texture that is rendered to and sampled.
pub open spec fn render_and_sample() -> u64 {
    (RENDER_TARGET_USAGE + SHADER_READ_USAGE) as u64
}

/// The usage of a texture that is rendered to and sampled: the bits of both.
pub fn render_texture_usage() -> (bits: u64)
    ensures
        bits == render_and_sample(),
        bits == RENDER_TARGET_USAGE | SHADER_READ_USAGE,
        bits == 5,
{
    assert(4u64 | 1u64 == 5u64) by (bit_vector);
    RENDER_TARGET_USAGE | SHADER_READ_USAGE
}

/// A texture of the renderer.
#[derive(Clone, Copy, Debug, PartialEq, Eq)]
pub struct TextureDescriptor {
    pub width: u64,
    pub height: u64,
    pub pixel_format: PixelFormat,
    pub storage_mode: StorageMode,
    /// What the texture is used for, bit by bit.
    pub usage: u64,
    /// The samples of each pixel, if the texture is multisampled.
    pub sample_count: Option<u64>,
}

/// A BGRA texture of the given size and storage that is rendered to and sampled, with one sample
/// for each pixel.
pub open spec fn render_texture(
    size: Size<DevicePixels>,
    storage_mode: StorageMode,
) -> TextureDescriptor {
    TextureDescriptor {
        width: size.width.0 as u64,
        height: size.height.0 as u64,
        pixel_format: PixelFormat::Bgra8Unorm,
        storage_mode,
        usage: render_and_sample(),
        sample_count: None,
    }
}

impl TextureDescriptor {
    /// A BGRA texture of the given size and storage that is rendered to and sampled, with one
    /// sample for each pixel.
    pub fn new(size: Size<DevicePixels>, storage_mode: StorageMode) -> (descriptor: Self)
        requires
            is_drawable(size),
        ensures
            descriptor == render_texture(size, storage_mode),
    {
        TextureDescriptor {
            width: size.width.0 as u64,
            height: size.height.0 as u64,
            pixel_format: PixelFormat::Bgra8Unorm,
            storage_mode,
            usage: render_texture_usage(),
            sample_count: None,
        }
    }
}

/// The factors that a color is multiplied with before it is added to another.
#[derive(Clone, Copy, Debug, PartialEq, Eq, Structural)]
pub enum BlendFactor {
    One,
    SourceAlpha,
    OneMinusSourceAlpha,
}

/// How a pipeline adds its output to what is there.
#[derive(Clone, Copy, Debug, PartialEq, Eq, Structural)]
pub struct Blending {
    pub source_rgb: BlendFactor,
    pub source_alpha: BlendFactor,
    pub destination_rgb: BlendFactor,
    pub destination_alpha: BlendFactor,
}

/// A render pipeline. `S` is the type of a name.
#[derive(Clone, Copy, Debug, PartialEq, Eq)]
pub struct PipelineDescriptor<S> {
    pub label: S,
    pub vertex_function: S,
    pub fragment_function: S,
    pub pixel_format: PixelFormat,
    /// The samples of each pixel, without alpha to coverage, if the pipeline is multisampled.
    pub raster_sample_count: Option<u64>,
    /// `None` if the output overwrites what is there.
    pub blending: Option<Blending>,
}

impl<'a> View for PipelineDescriptor<&'a str> {
    type V = PipelineDescriptor<Seq<char>>;

    open spec fn view(&self) -> PipelineDescriptor<Seq<char>> {
        PipelineDescriptor {
            label: self.label@,
            vertex_function: self.vertex_function@,
            fragment_function: self.fragment_function@,
            pixel_format: self.pixel_format,
            raster_sample_count: self.raster_sample_count,
            blending: self.blending,
        }
    }
}

/// A pipeline with the given names and blending, and one sample for each pixel.
pub open spec fn pipeline(
    label: Seq<char>,
    vertex_function: Seq<char>,
    fragment_function: Seq<char>,
    pixel_format: PixelFormat,
    blending: Option<Blending>,
) -> PipelineDescriptor<Seq<char>> {
    PipelineDescriptor {
        label,
        vertex_function,
        fragment_function,
        pixel_format,
        raster_sample_count: None,
        blending,
    }
}

/// Blending of colors that are not multiplied with their alpha.
pub open spec fn straight_alpha() -> Blending {
    Blending {
        source_rgb: BlendFactor::SourceAlpha,
        source_alpha: BlendFactor::One,
        destination_rgb: BlendFactor::OneMinusSourceAlpha,
        destination_alpha: BlendFactor::One,
    }
}

/// Blending of colors that are multiplied with their alpha. The alphas add up.
pub open spec fn premultiplied_alpha() -> Blending {
    Blending {
        source_rgb: BlendFactor::One,
        source_alpha: BlendFactor::One,
        destination_rgb: BlendFactor::OneMinusSourceAlpha,
        destination_alpha: BlendFactor::One,
    }
}

/// Blending of colors that are multiplied with their alpha, with the alpha treated as a color.
pub open spec fn premultiplied_over() -> Blending {
    Blending {
        source_rgb: BlendFactor::One,
        source_alpha: BlendFactor::One,
        destination_rgb: BlendFactor::OneMinusSourceAlpha,
        destination_alpha: BlendFactor::OneMinusSourceAlpha,
    }
}

/// A pipeline that blends colors by their alpha.
pub fn build_pipeline_state<'a>(
    label: &'a str,
    vertex_fn_name: &'a str,
    fragment_fn_name: &'a str,
    pixel_format: PixelFormat,
) -> (descriptor: PipelineDescriptor<&'a str>)
    ensures
        descriptor@ == pipeline(
            label@,
            vertex_fn_name@,
            fragment_fn_name@,
            pixel_format,
            Some(straight_alpha()),
        ),
{
    PipelineDescriptor {
        label,
        vertex_function: vertex_fn_name,
        fragment_function: fragment_fn_name,
        pixel_format,
        raster_sample_count: None,
        blending: Some(
            Blending {
                source_rgb: BlendFactor::SourceAlpha,
                source_alpha: BlendFactor::One,
                destination_rgb: BlendFactor::OneMinusSourceAlpha,
                destination_alpha: BlendFactor::One,
            },
        ),
    }
}

/// A pipeline whose output overwrites what is there, for copies of the whole target.
pub fn build_copy_pipeline_state<'a>(
    label: &'a str,
    vertex_fn_name: &'a str,
    fragment_fn_name: &'a str,
    pixel_format: PixelFormat,
) -> (descriptor: PipelineDescriptor<&'a str>)
    ensures
        descriptor@ == pipeline(
            label@,
            vertex_fn_name@,
            fragment_fn_name@,
            pixel_format,
            None,
        ),
{
    PipelineDescriptor {
        label,
        vertex_function: vertex_fn_name,
        fragment_function: fragment_fn_name,
        pixel_format,
        raster_sample_count: None,
        blending: None,
    }
}

/// A pipeline that blends colors that are multiplied with their alpha.
pub fn build_path_sprite_pipeline_state<'a>(
    label: &'a str,
    vertex_fn_name: &'a str,
    fragment_fn_name: &'a str,
    pixel_format: PixelFormat,
) -> (descriptor: PipelineDescriptor<&'a str>)
    ensures
        descriptor@ == pipeline(
            label@,
            vertex_fn_name@,
            fragment_fn_name@,
            pixel_format,
            Some(premultiplied_alpha()),
        ),
{
    PipelineDescriptor {
        label,
        vertex_function: vertex_fn_name,
        fragment_function: fragment_fn_name,
        pixel_format,
        raster_sample_count: None,
        blending: Some(
            Blending {
                source_rgb: BlendFactor::One,
                source_alpha: BlendFactor::One,
                destination_rgb: BlendFactor::OneMinusSourceAlpha,
                destination_alpha: BlendFactor::One,
            },
        ),
    }
}

/// A pipeline that rasterizes paths, with several samples for each pixel if there is more than
/// one.
pub fn build_path_rasterization_pipeline_state<'a>(
    label: &'a str,
    vertex_fn_name: &'a str,
    fragment_fn_name: &'a str,
    pixel_format: PixelFormat,
    path_sample_count: u32,
) -> (descriptor: PipelineDescriptor<&'a str>)
    ensures
        descriptor@ == (PipelineDescriptor {
            raster_sample_count: samples(path_sample_count),
            ..pipeline(
                label@,
                vertex_fn_name@,
                fragment_fn_name@,
                pixel_format,
                Some(premultiplied_over()),
            )
        }),
{
    PipelineDescriptor {
        label,
        vertex_function: vertex_fn_name,
        fragment_function: fragment_fn_name,
        pixel_format,
        raster_sample_count: if path_sample_count > 1 {
            Some(path_sample_count as u64)
        } else {
            None
        },
        blending: Some(
            Blending {
                source_rgb: BlendFactor::One,
                source_alpha: BlendFactor::One,
                destination_rgb: BlendFactor::OneMinusSourceAlpha,
                destination_alpha: BlendFactor::OneMinusSourceAlpha,
            },
        ),
    }
}

/// The sample count of a multisampled texture or pipeline, if there is more than one sample.
pub open spec fn samples(count: u32) -> Option<u64> {
    if count > 1 {
        Some(count as u64)
    } else {
        None
    }
}

/// The fixed pipelines, by what they draw. A shader pass has a pipeline of its own.
pub open spec fn fixed_pipeline(drawn: Pipeline) -> Option<PipelineDescriptor<Seq<char>>> {
    let format = PixelFormat::Bgra8Unorm;
    let blended = Some(straight_alpha());
    match drawn {
        Pipeline::PathsRasterization => Some(
            PipelineDescriptor {
                raster_sample_count: samples(PATH_SAMPLE_COUNT),
                ..pipeline(
                    "paths_rasterization"@,
                    "path_rasterization_vertex"@,
                    "path_rasterization_fragment"@,
                    format,
                    Some(premultiplied_over()),
                )
            },
        ),
        Pipeline::PathSprites => Some(
            pipeline(
                "path_sprites"@,
                "path_sprite_vertex"@,
                "path_sprite_fragment"@,
                format,
                Some(premultiplied_alpha()),
            ),
        ),
        Pipeline::Shadows => Some(
            pipeline("shadows"@, "shadow_vertex"@, "shadow_fragment"@, format, blended),
        ),
        Pipeline::Quads => Some(
            pipeline("quads"@, "quad_vertex"@, "quad_fragment"@, format, blended),
        ),
        Pipeline::Underlines => Some(
            pipeline("underlines"@, "underline_vertex"@, "underline_fragment"@, format, blended),
        ),
        Pipeline::MonochromeSprites => Some(
            pipeline(
                "monochrome_sprites"@,
                "monochrome_sprite_vertex"@,
                "monochrome_sprite_fragment"@,
                format,
                blended,
            ),
        ),
        Pipeline::PolychromeSprites => Some(
            pipeline(
                "polychrome_sprites"@,
                "polychrome_sprite_vertex"@,
                "polychrome_sprite_fragment"@,
                format,
                blended,
            ),
        ),
        Pipeline::Surfaces => Some(
            pipeline("surfaces"@, "surface_vertex"@, "surface_fragment"@, format, blended),
        ),
        Pipeline::SurfacesBgra => Some(
            pipeline(
                "surfaces_bgra"@,
                "surface_vertex"@,
                "surface_fragment_bgra"@,
                format,
                blended,
            ),
        ),
        Pipeline::BackdropBlur => Some(
            pipeline(
                "backdrop_blur"@,
                "backdrop_blur_vertex"@,
                "backdrop_blur_fragment"@,
                format,
                Some(premultiplied_alpha()),
            ),
        ),
        Pipeline::SceneFlip => Some(
            pipeline("scene_flip"@, "scene_flip_vertex"@, "scene_flip_fragment"@, format, None),
        ),
        Pipeline::ShaderPass(_) => None,
    }
}

/// The fixed pipelines, by what they draw. A shader pass has a pipeline of its own.
pub fn fixed_pipeline_state(drawn: Pipeline) -> (descriptor: Option<
    PipelineDescriptor<&'static str>,
>)
    ensures
        match descriptor {
            Some(descriptor) => fixed_pipeline(drawn) == Some(descriptor@),
            None => fixed_pipeline(drawn) is None,
        },
{
    let format: PixelFormat = PixelFormat::Bgra8Unorm;
    match drawn {
        Pipeline::PathsRasterization => Some(
            build_path_rasterization_pipeline_state(
                "paths_rasterization",
                "path_rasterization_vertex",
                "path_rasterization_fragment",
                format,
                PATH_SAMPLE_COUNT,
            ),
        ),
        Pipeline::PathSprites => Some(
            build_path_sprite_pipeline_state(
                "path_sprites",
                "path_sprite_vertex",
                "path_sprite_fragment",
                format,
            ),
        ),
        Pipeline::Shadows => Some(
            build_pipeline_state("shadows", "shadow_vertex", "shadow_fragment", format),
        ),
        Pipeline::Quads => Some(
            build_pipeline_state("quads", "quad_vertex", "quad_fragment", format),
        ),
        Pipeline::Underlines => Some(
            build_pipeline_state("underlines", "underline_vertex", "underline_fragment", format),
        ),
        Pipeline::MonochromeSprites => Some(
            build_pipeline_state(
                "monochrome_sprites",
                "monochrome_sprite_vertex",
                "monochrome_sprite_fragment",
                format,
            ),
        ),
        Pipeline::PolychromeSprites => Some(
            build_pipeline_state(
                "polychrome_sprites",
                "polychrome_sprite_vertex",
                "polychrome_sprite_fragment",
                format,
            ),
        ),
        Pipeline::Surfaces => Some(
            build_pipeline_state("surfaces", "surface_vertex", "surface_fragment", format),
        ),
        Pipeline::SurfacesBgra => Some(
            build_pipeline_state(
                "surfaces_bgra",
                "surface_vertex",
                "surface_fragment_bgra",
                format,
            ),
        ),
        Pipeline::BackdropBlur => Some(
            build_path_sprite_pipeline_state(
                "backdrop_blur",
                "backdrop_blur_vertex",
                "backdrop_blur_fragment",
                format,
            ),
        ),
        Pipeline::SceneFlip => Some(
            build_copy_pipeline_state(
                "scene_flip",
                "scene_flip_vertex",
                "scene_flip_fragment",
                format,
            ),
        ),
        Pipeline::ShaderPass(_) => None,
    }
}

/// What the fixed pipelines draw: each once, in the order in which they are built.
pub fn fixed_pipelines() -> (drawn: Vec<Pipeline>)
    ensures
        drawn@ == seq![
            Pipeline::PathsRasterization,
            Pipeline::PathSprites,
            Pipeline::Shadows,
            Pipeline::Quads,
            Pipeline::Underlines,
            Pipeline::MonochromeSprites,
            Pipeline::PolychromeSprites,
            Pipeline::Surfaces,
            Pipeline::SurfacesBgra,
            Pipeline::BackdropBlur,
            Pipeline::SceneFlip,
        ],
        drawn@.no_duplicates(),
        forall|p: Pipeline| #[trigger] drawn@.contains(p) <==> fixed_pipeline(p) is Some,
{
    let mut drawn: Vec<Pipeline> = Vec::new();
    drawn.push(Pipeline::PathsRasterization);
    drawn.push(Pipeline::PathSprites);
    drawn.push(Pipeline::Shadows);
    drawn.push(Pipeline::Quads);
    drawn.push(Pipeline::Underlines);
    drawn.push(Pipeline::MonochromeSprites);
    drawn.push(Pipeline::PolychromeSprites);
    drawn.push(Pipeline::Surfaces);
    drawn.push(Pipeline::SurfacesBgra);
    drawn.push(Pipeline::BackdropBlur);
    drawn.push(Pipeline::SceneFlip);
    proof {
        assert forall|p: Pipeline| fixed_pipeline(p) is Some implies #[trigger] drawn@.contains(
            p,
        ) by {
            let i = match p {
                Pipeline::PathsRasterization => 0int,
                Pipeline::PathSprites => 1,
                Pipeline::Shadows => 2,
                Pipeline::Quads => 3,
                Pipeline::Underlines => 4,
                Pipeline::MonochromeSprites => 5,
                Pipeline::PolychromeSprites => 6,
                Pipeline::Surfaces => 7,
                Pipeline::SurfacesBgra => 8,
                Pipeline::BackdropBlur => 9,
                Pipeline::SceneFlip => 10,
                Pipeline::ShaderPass(_) => 11,
            };
            assert(drawn@[i] == p);
        }
    }
    drawn
}

/// The pipeline of a shader pass. Its fragment function comes from the source that the pass brings
/// along, and its output overwrites what is there.
pub fn shader_pass_pipeline_state<'a>(pass: &'a ShaderPass) -> (descriptor: PipelineDescriptor<
    &'a str,
>)
    ensures
        descriptor@ == pipeline(
            "shader_pass"@,
            "shader_pass_vertex"@,
            pass.fragment_entry@,
            PixelFormat::Bgra8Unorm,
            None,
        ),
{
    build_copy_pipeline_state(
        "shader_pass",
        "shader_pass_vertex",
        pass.fragment_entry.as_str(),
        PixelFormat::Bgra8Unorm,
    )
}

/// How a texture is read between its pixels.
#[derive(Clone, Copy, Debug, PartialEq, Eq, Structural)]
pub enum Filter {
    Nearest,
    Linear,
}

/// How a texture is read beyond its edges.
#[derive(Clone, Copy, Debug, PartialEq, Eq, Structural)]
pub enum AddressMode {
    ClampToEdge,
    Repeat,
}

/// A sampler.
#[derive(Clone, Copy, Debug, PartialEq, Eq, Structural)]
pub struct SamplerDescriptor {
    pub min_filter: Filter,
    pub mag_filter: Filter,
    pub address_mode_s: AddressMode,
    pub address_mode_t: AddressMode,
}

/// The sampler that shader passes read the scene with: linear, and clamped to the edge.
pub fn shader_pass_sampler() -> (descriptor: SamplerDescriptor)
    ensures
        descriptor == (SamplerDescriptor {
            min_filter: Filter::Linear,
            mag_filter: Filter::Linear,
            address_mode_s: AddressMode::ClampToEdge,
            address_mode_t: AddressMode::ClampToEdge,
        }),
{
    SamplerDescriptor {
        min_filter: Filter::Linear,
        mag_filter: Filter::Linear,
        address_mode_s: AddressMode::ClampToEdge,
        address_mode_t: AddressMode::ClampToEdge,
    }
}

/// The bit patterns of the floating-point numbers zero and one.
pub const ZERO_BITS: u32 = 0;

pub const ONE_BITS: u32 = 0x3f80_0000;

/// A pair of single-precision numbers as one word, the first in the lower half. The numbers are
/// given by their bit patterns.
pub fn to_float2_bits(point: Point<u32>) -> (bits: u64)
    ensures
        bits == point.y * 0x1_0000_0000 + point.x,
{
    let x: u32 = point.x;
    let y: u32 = point.y;
    let output: u64 = (y as u64) << 32u64;
    assert((y as u64) << 32u64 == y * 0x1_0000_0000) by (bit_vector);
    assert(((y as u64) << 32u64) | (x as u64) == y * 0x1_0000_0000 + x) by (bit_vector);
    output | (x as u64)
}

/// The word of a corner of the unit square.
pub open spec fn corner(right: bool, bottom: bool) -> u64 {
    ((if bottom {
        ONE_BITS
    } else {
        ZERO_BITS
    }) * 0x1_0000_0000 + (if right {
        ONE_BITS
    } else {
        ZERO_BITS
    })) as u64
}

/// The two triangles of the unit square: upper left, upper right, lower left, and lower left,
/// upper right, lower right.
pub fn unit_vertices() -> (vertices: Vec<u64>)
    ensures
        vertices@ == seq![
            corner(false, false),
            corner(true, false),
            corner(false, true),
            corner(false, true),
            corner(true, false),
            corner(true, true),
        ],
{
    let mut vertices: Vec<u64> = Vec::new();
    vertices.push(to_float2_bits(Point { x: ZERO_BITS, y: ZERO_BITS }));
    vertices.push(to_float2_bits(Point { x: ONE_BITS, y: ZERO_BITS }));
    vertices.push(to_float2_bits(Point { x: ZERO_BITS, y: ONE_BITS }));
    vertices.push(to_float2_bits(Point { x: ZERO_BITS, y: ONE_BITS }));
    vertices.push(to_float2_bits(Point { x: ONE_BITS, y: ZERO_BITS }));
    vertices.push(to_float2_bits(Point { x: ONE_BITS, y: ONE_BITS }));
    vertices
}

} // verus!
