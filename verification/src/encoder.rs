//! Encoding the batches of a scene: the commands of each, and the bytes that they put into the
//! instance buffer.

use crate::commands::{
    BufferSlot, Command, CommandList, CommandModel, LoadAction, Pipeline, RenderPass, StoreAction,
    SurfacePlane, TextureSlot, VertexConstant,
};
use crate::descriptors::PixelFormat;
use crate::geometry::{words_bytes, Bounds, DevicePixels, ScaledPixels, Size};
use crate::packing::{aligned, aligned_is_idempotent, place, placement, try_align};
use crate::scene::{
    lemma_path_vertex_count_bounded, path_vertex_bytes, path_vertex_count, AtlasTexture,
    ImageBuffer, Instances, PaintSurface, Path, PathSprite, PrimitiveBatch, Scene, ShaderPass, Span,
    SurfaceBounds, PIXEL_FORMAT_32BGRA,
};
use crate::slots::{
    BACKDROP_BLUR_INSTANCES, BACKDROP_BLUR_TEXTURE, BACKDROP_BLUR_VERTICES,
    BACKDROP_BLUR_VIEWPORT_SIZE, PATH_RASTERIZATION_VERTICES, PATH_RASTERIZATION_VIEWPORT_SIZE,
    SCENE_FLIP_TEXTURE, SCENE_FLIP_VERTICES, SHADER_PASS_BOUNDS, SHADER_PASS_SCENE_SAMPLER,
    SHADER_PASS_SCENE_TEXTURE, SHADER_PASS_UNIFORM_BUFFER_INDEX, SHADER_PASS_VERTICES,
    SHADER_PASS_VIEWPORT_SIZE, SHAPE_INSTANCES, SHAPE_VERTICES, SHAPE_VIEWPORT_SIZE,
    SPRITE_ATLAS_TEXTURE, SPRITE_ATLAS_TEXTURE_SIZE, SPRITE_INSTANCES, SPRITE_VERTICES,
    SPRITE_VIEWPORT_SIZE, SURFACE_CB_CR_TEXTURE, SURFACE_INSTANCES, SURFACE_TEXTURE_SIZE,
    SURFACE_VERTICES, SURFACE_VIEWPORT_SIZE, SURFACE_Y_TEXTURE, UNIT_VERTEX_COUNT,
};
use vstd::prelude::*;

verus! {

/// What the encoding of a frame reads of its surroundings.
#[derive(Clone, Copy, Debug, PartialEq, Eq)]
pub struct FrameContext {
    /// Whether the target is cleared to opaque black.
    pub opaque: bool,
    /// Whether the CPU and the GPU share their memory.
    pub unified_memory: bool,
    /// Whether there is a texture to draw paths into.
    pub path_texture: bool,
    /// Whether paths are multisampled.
    pub multisample: bool,
    /// Whether there is a texture to copy the target into.
    pub backdrop_texture: bool,
    pub viewport_size: Size<DevicePixels>,
    /// The bytes of the instance buffer.
    pub buffer_size: usize,
}

/// The state of an encoding: the commands so far, and how far the instance buffer is filled.
pub struct Encoding {
    pub commands: Seq<CommandModel>,
    pub offset: int,
}

impl Encoding {
    /// The encoding with more commands.
    pub open spec fn with(self, commands: Seq<CommandModel>) -> Encoding {
        Encoding { commands: self.commands + commands, offset: self.offset }
    }

    /// The encoding after a draw whose bytes do not fit, with the commands that come before that
    /// is known. The offset is moved up to the alignment all the same, as far as it can be.
    pub open spec fn refused(self, commands: Seq<CommandModel>) -> Encoding {
        if aligned(self.offset) <= usize::MAX {
            Encoding { commands: self.commands + commands, offset: aligned(self.offset) }
        } else {
            self
        }
    }

    /// The encoding with a draw that takes up `len` bytes from `start` on.
    pub open spec fn drawn(self, start: int, len: int, commands: Seq<CommandModel>) -> Encoding {
        Encoding { commands: self.commands + commands, offset: start + len }
    }
}

/// A render pass into the target.
pub open spec fn target_pass(ctx: FrameContext, load: LoadAction) -> RenderPass {
    RenderPass {
        color: TextureSlot::Target,
        resolve: None,
        load,
        store: StoreAction::Store,
        viewport: Some(ctx.viewport_size),
    }
}

/// The commands that write instances from `start` on and draw them.
pub open spec fn instanced_draw(start: int, bytes: Seq<u8>, count: int) -> Seq<CommandModel> {
    seq![
        Command::WriteInstances { offset: start as usize, bytes },
        Command::DrawInstanced {
            vertex_count: UNIT_VERTEX_COUNT,
            instance_count: count as u64,
        },
    ]
}

/// The commands that set up a draw of shadows, quads or underlines.
pub open spec fn shape_setup(
    ctx: FrameContext,
    pipeline: Pipeline,
    start: int,
) -> Seq<CommandModel> {
    seq![
        Command::SetPipeline(pipeline),
        Command::SetVertexBuffer {
            index: SHAPE_VERTICES,
            buffer: BufferSlot::UnitVertices,
            offset: 0,
        },
        Command::SetVertexBuffer {
            index: SHAPE_INSTANCES,
            buffer: BufferSlot::Instances,
            offset: start as u64,
        },
        Command::SetFragmentBuffer {
            index: SHAPE_INSTANCES,
            buffer: BufferSlot::Instances,
            offset: start as u64,
        },
        Command::SetVertexBytes {
            index: SHAPE_VIEWPORT_SIZE,
            value: VertexConstant::Size(ctx.viewport_size),
        },
    ]
}

/// The commands that draw shadows, quads or underlines.
pub open spec fn shape_commands(
    ctx: FrameContext,
    pipeline: Pipeline,
    start: int,
    bytes: Seq<u8>,
    count: int,
) -> Seq<CommandModel> {
    shape_setup(ctx, pipeline, start) + instanced_draw(start, bytes, count)
}

/// Drawing a run of shadows, quads or underlines: whether it fits, and the encoding afterwards.
pub open spec fn draw_shapes_spec(
    ctx: FrameContext,
    pipeline: Pipeline,
    instances: Instances,
    range: Span,
    e: Encoding,
) -> (bool, Encoding) {
    let bytes = instances.run(range);
    if range.count() == 0 {
        (true, e)
    } else {
        match placement(e.offset, ctx.buffer_size as int, bytes.len() as int) {
            None => (false, e.refused(shape_setup(ctx, pipeline, aligned(e.offset)))),
            Some(start) => (
                true,
                e.drawn(
                    start,
                    bytes.len() as int,
                    shape_commands(ctx, pipeline, start, bytes, range.count()),
                ),
            ),
        }
    }
}

/// The commands that set up the compositing of backdrop blurs.
pub open spec fn backdrop_blur_setup(ctx: FrameContext, start: int) -> Seq<CommandModel> {
    seq![
        Command::SetPipeline(Pipeline::BackdropBlur),
        Command::SetVertexBuffer {
            index: BACKDROP_BLUR_VERTICES,
            buffer: BufferSlot::UnitVertices,
            offset: 0,
        },
        Command::SetVertexBuffer {
            index: BACKDROP_BLUR_INSTANCES,
            buffer: BufferSlot::Instances,
            offset: start as u64,
        },
        Command::SetFragmentBuffer {
            index: BACKDROP_BLUR_INSTANCES,
            buffer: BufferSlot::Instances,
            offset: start as u64,
        },
        Command::SetVertexBytes {
            index: BACKDROP_BLUR_VIEWPORT_SIZE,
            value: VertexConstant::Size(ctx.viewport_size),
        },
        Command::SetFragmentTexture {
            index: BACKDROP_BLUR_TEXTURE,
            texture: TextureSlot::Backdrop,
        },
    ]
}

/// The commands that composite backdrop blurs.
pub open spec fn backdrop_blur_commands(
    ctx: FrameContext,
    start: int,
    bytes: Seq<u8>,
    count: int,
) -> Seq<CommandModel> {
    backdrop_blur_setup(ctx, start) + instanced_draw(start, bytes, count)
}

/// Compositing a run of backdrop blurs from the backdrop texture.
pub open spec fn draw_backdrop_blurs_spec(
    ctx: FrameContext,
    blurs: Instances,
    range: Span,
    e: Encoding,
) -> (bool, Encoding) {
    let bytes = blurs.run(range);
    if range.count() == 0 {
        (true, e)
    } else if !ctx.backdrop_texture {
        (false, e)
    } else {
        match placement(e.offset, ctx.buffer_size as int, bytes.len() as int) {
            None => (false, e.refused(backdrop_blur_setup(ctx, aligned(e.offset)))),
            Some(start) => (
                true,
                e.drawn(
                    start,
                    bytes.len() as int,
                    backdrop_blur_commands(ctx, start, bytes, range.count()),
                ),
            ),
        }
    }
}

/// The commands between two render passes that copy the target into the backdrop texture and
/// resume drawing into the target.
pub open spec fn backdrop_capture_commands(ctx: FrameContext) -> Seq<CommandModel> {
    if ctx.backdrop_texture {
        seq![
            Command::EndEncoding,
            Command::CopyTargetToBackdrop {
                width: ctx.viewport_size.width.0 as u64,
                height: ctx.viewport_size.height.0 as u64,
            },
            Command::BeginPass(target_pass(ctx, LoadAction::Load)),
        ]
    } else {
        seq![Command::EndEncoding, Command::BeginPass(target_pass(ctx, LoadAction::Load))]
    }
}

/// Capturing the target and compositing a run of backdrop blurs over it.
pub open spec fn backdrop_blur_batch_spec(
    ctx: FrameContext,
    blurs: Instances,
    range: Span,
    e: Encoding,
) -> (bool, Encoding) {
    let captured = e.with(backdrop_capture_commands(ctx));
    if ctx.backdrop_texture {
        draw_backdrop_blurs_spec(ctx, blurs, range, captured)
    } else {
        (false, captured)
    }
}

/// The extent of an atlas texture in device pixels.
pub open spec fn texture_size(texture: AtlasTexture) -> Size<DevicePixels> {
    Size { width: DevicePixels(texture.width as i32), height: DevicePixels(texture.height as i32) }
}

/// The commands that set up a draw of sprites of one atlas texture.
pub open spec fn sprite_setup(
    ctx: FrameContext,
    pipeline: Pipeline,
    texture: AtlasTexture,
    start: int,
) -> Seq<CommandModel> {
    seq![
        Command::SetPipeline(pipeline),
        Command::SetVertexBuffer {
            index: SPRITE_VERTICES,
            buffer: BufferSlot::UnitVertices,
            offset: 0,
        },
        Command::SetVertexBuffer {
            index: SPRITE_INSTANCES,
            buffer: BufferSlot::Instances,
            offset: start as u64,
        },
        Command::SetVertexBytes {
            index: SPRITE_VIEWPORT_SIZE,
            value: VertexConstant::Size(ctx.viewport_size),
        },
        Command::SetVertexBytes {
            index: SPRITE_ATLAS_TEXTURE_SIZE,
            value: VertexConstant::Size(texture_size(texture)),
        },
        Command::SetFragmentBuffer {
            index: SPRITE_INSTANCES,
            buffer: BufferSlot::Instances,
            offset: start as u64,
        },
        Command::SetFragmentTexture {
            index: SPRITE_ATLAS_TEXTURE,
            texture: TextureSlot::Atlas(texture.id),
        },
    ]
}

/// The commands that draw sprites of one atlas texture.
pub open spec fn sprite_commands(
    ctx: FrameContext,
    pipeline: Pipeline,
    texture: AtlasTexture,
    start: int,
    bytes: Seq<u8>,
    count: int,
) -> Seq<CommandModel> {
    sprite_setup(ctx, pipeline, texture, start) + instanced_draw(start, bytes, count)
}

/// Drawing a run of sprites. `set_up_first` tells whether the draw is set up before it is known
/// whether the sprites fit.
pub open spec fn draw_sprites_spec(
    ctx: FrameContext,
    pipeline: Pipeline,
    set_up_first: bool,
    texture: AtlasTexture,
    sprites: Instances,
    range: Span,
    e: Encoding,
) -> (bool, Encoding) {
    let bytes = sprites.run(range);
    if range.count() == 0 {
        (true, e)
    } else {
        match placement(e.offset, ctx.buffer_size as int, bytes.len() as int) {
            None => (
                false,
                e.refused(
                    if set_up_first {
                        sprite_setup(ctx, pipeline, texture, aligned(e.offset))
                    } else {
                        Seq::empty()
                    },
                ),
            ),
            Some(start) => (
                true,
                e.drawn(
                    start,
                    bytes.len() as int,
                    sprite_commands(ctx, pipeline, texture, start, bytes, range.count()),
                ),
            ),
        }
    }
}

/// Drawing a run of monochrome sprites.
pub open spec fn draw_monochrome_sprites_spec(
    ctx: FrameContext,
    texture: AtlasTexture,
    sprites: Instances,
    range: Span,
    e: Encoding,
) -> (bool, Encoding) {
    draw_sprites_spec(ctx, Pipeline::MonochromeSprites, false, texture, sprites, range, e)
}

/// Drawing a run of polychrome sprites.
pub open spec fn draw_polychrome_sprites_spec(
    ctx: FrameContext,
    texture: AtlasTexture,
    sprites: Instances,
    range: Span,
    e: Encoding,
) -> (bool, Encoding) {
    draw_sprites_spec(ctx, Pipeline::PolychromeSprites, true, texture, sprites, range, e)
}

/// The render pass that paths are rasterized in: with a multisampled texture, into that one,
/// resolved into the intermediate texture; without, into the intermediate texture itself.
pub open spec fn path_pass(ctx: FrameContext) -> RenderPass {
    if ctx.multisample {
        RenderPass {
            color: TextureSlot::PathMultisample,
            resolve: Some(TextureSlot::PathIntermediate),
            load: LoadAction::Clear { opaque: false },
            store: StoreAction::MultisampleResolve,
            viewport: None,
        }
    } else {
        RenderPass {
            color: TextureSlot::PathIntermediate,
            resolve: None,
            load: LoadAction::Clear { opaque: false },
            store: StoreAction::Store,
            viewport: None,
        }
    }
}

/// The commands that rasterize paths into the intermediate texture.
pub open spec fn path_rasterization_commands(
    ctx: FrameContext,
    start: int,
    bytes: Seq<u8>,
    vertex_count: int,
) -> Seq<CommandModel> {
    seq![
        Command::BeginPass(path_pass(ctx)),
        Command::SetPipeline(Pipeline::PathsRasterization),
        Command::SetVertexBuffer {
            index: PATH_RASTERIZATION_VERTICES,
            buffer: BufferSlot::Instances,
            offset: start as u64,
        },
        Command::SetVertexBytes {
            index: PATH_RASTERIZATION_VIEWPORT_SIZE,
            value: VertexConstant::Size(ctx.viewport_size),
        },
        Command::SetFragmentBuffer {
            index: PATH_RASTERIZATION_VERTICES,
            buffer: BufferSlot::Instances,
            offset: start as u64,
        },
        Command::WriteInstances { offset: start as usize, bytes },
        Command::Draw { vertex_count: vertex_count as u64 },
        Command::EndEncoding,
    ]
}

/// The commands of a rasterization whose vertices do not fit: the render pass is opened and ended.
pub open spec fn path_refusal_commands(ctx: FrameContext) -> Seq<CommandModel> {
    seq![
        Command::BeginPass(path_pass(ctx)),
        Command::SetPipeline(Pipeline::PathsRasterization),
        Command::EndEncoding,
    ]
}

/// Rasterizing a run of paths into the intermediate texture, in a render pass of its own.
pub open spec fn draw_paths_to_intermediate_spec(
    ctx: FrameContext,
    paths: Seq<Path>,
    range: Span,
    e: Encoding,
) -> (bool, Encoding) {
    let bytes = path_vertex_bytes(paths, range.start as int, range.end as int);
    let vertex_count = path_vertex_count(paths, range.start as int, range.end as int);
    if range.count() == 0 {
        (true, e)
    } else if !ctx.path_texture {
        (false, e)
    } else {
        match placement(e.offset, ctx.buffer_size as int, bytes.len() as int) {
            None => (false, e.refused(path_refusal_commands(ctx))),
            Some(start) => (
                true,
                e.drawn(
                    start,
                    bytes.len() as int,
                    path_rasterization_commands(ctx, start, bytes, vertex_count),
                ),
            ),
        }
    }
}

/// The bytes of one sprite for each of the paths `start..end`.
pub open spec fn path_sprite_bytes(paths: Seq<Path>, start: int, end: int) -> Seq<u8>
    decreases end - start,
{
    if end <= start {
        Seq::empty()
    } else {
        path_sprite_bytes(paths, start, end - 1) + words_bytes(
            (PathSprite { bounds: paths[end - 1].clipped_bounds }).words(),
        )
    }
}

/// Whether the first and the last path of a run have one draw order. The bounds of the paths are
/// then disjoint.
pub open spec fn same_order(paths: Seq<Path>, range: Span) -> bool {
    paths[range.start as int].order == paths[range.end - 1].order
}

/// Where the paths of a run come in the order in which they are drawn, its ends tell whether all
/// of them have one draw order.
pub proof fn one_order_is_told_by_the_ends(paths: Seq<Path>, range: Span)
    requires
        range.within(paths.len()),
        range.start < range.end,
        forall|i: int, j: int|
            range.start <= i <= j < range.end ==> (#[trigger] paths[i]).order <= (
            #[trigger] paths[j]).order,
    ensures
        same_order(paths, range) <==> (forall|i: int, j: int|
            range.start <= i < range.end && range.start <= j < range.end ==> (
            #[trigger] paths[i]).order == (#[trigger] paths[j]).order),
{
    let first = range.start as int;
    let last = range.end - 1;
    assert(paths[first].order <= paths[last].order);
    if same_order(paths, range) {
        assert forall|i: int, j: int|
            range.start <= i < range.end && range.start <= j < range.end implies (
        #[trigger] paths[i]).order == (#[trigger] paths[j]).order by {
            assert(paths[first].order <= paths[i].order <= paths[last].order);
            assert(paths[first].order <= paths[j].order <= paths[last].order);
        }
    }
}

/// The sprites that copy a run of paths to the target, so that each pixel is copied once: one for
/// each path if all have one draw order, else a single one around all of them.
pub open spec fn path_sprites(
    paths: Seq<Path>,
    range: Span,
    spanning_bounds: Bounds<ScaledPixels>,
) -> (Seq<u8>, int) {
    if same_order(paths, range) {
        (path_sprite_bytes(paths, range.start as int, range.end as int), range.count())
    } else {
        (words_bytes((PathSprite { bounds: spanning_bounds }).words()), 1)
    }
}

/// The commands that set up the copying of path sprites.
pub open spec fn path_sprite_setup(ctx: FrameContext) -> Seq<CommandModel> {
    seq![
        Command::SetPipeline(Pipeline::PathSprites),
        Command::SetVertexBuffer {
            index: SPRITE_VERTICES,
            buffer: BufferSlot::UnitVertices,
            offset: 0,
        },
        Command::SetVertexBytes {
            index: SPRITE_VIEWPORT_SIZE,
            value: VertexConstant::Size(ctx.viewport_size),
        },
        Command::SetFragmentTexture {
            index: SPRITE_ATLAS_TEXTURE,
            texture: TextureSlot::PathIntermediate,
        },
    ]
}

/// The commands that copy path sprites from the intermediate texture to the target.
pub open spec fn path_sprite_commands(
    ctx: FrameContext,
    start: int,
    bytes: Seq<u8>,
    count: int,
) -> Seq<CommandModel> {
    path_sprite_setup(ctx) + seq![
        Command::SetVertexBuffer {
            index: SPRITE_INSTANCES,
            buffer: BufferSlot::Instances,
            offset: start as u64,
        },
    ] + instanced_draw(start, bytes, count)
}

/// Copying a run of paths from the intermediate texture to the target.
pub open spec fn draw_paths_from_intermediate_spec(
    ctx: FrameContext,
    paths: Seq<Path>,
    range: Span,
    spanning_bounds: Bounds<ScaledPixels>,
    e: Encoding,
) -> (bool, Encoding) {
    let (bytes, count) = path_sprites(paths, range, spanning_bounds);
    if range.count() == 0 {
        (true, e)
    } else if !ctx.path_texture {
        (false, e)
    } else {
        match placement(e.offset, ctx.buffer_size as int, bytes.len() as int) {
            None => (false, e.refused(path_sprite_setup(ctx))),
            Some(start) => (
                true,
                e.drawn(
                    start,
                    bytes.len() as int,
                    path_sprite_commands(ctx, start, bytes, count),
                ),
            ),
        }
    }
}

/// Rasterizing a run of paths between two render passes, and copying them to the target.
pub open spec fn path_batch_spec(
    ctx: FrameContext,
    paths: Seq<Path>,
    range: Span,
    spanning_bounds: Bounds<ScaledPixels>,
    e: Encoding,
) -> (bool, Encoding) {
    let (rasterized, after) = draw_paths_to_intermediate_spec(
        ctx,
        paths,
        range,
        e.with(seq![Command::EndEncoding]),
    );
    let resumed = after.with(seq![Command::BeginPass(target_pass(ctx, LoadAction::Load))]);
    if rasterized {
        draw_paths_from_intermediate_spec(ctx, paths, range, spanning_bounds, resumed)
    } else {
        (false, resumed)
    }
}

/// The commands that both surface pipelines share.
pub open spec fn surface_prologue(ctx: FrameContext) -> Seq<CommandModel> {
    seq![
        Command::SetVertexBuffer {
            index: SURFACE_VERTICES,
            buffer: BufferSlot::UnitVertices,
            offset: 0,
        },
        Command::SetVertexBytes {
            index: SURFACE_VIEWPORT_SIZE,
            value: VertexConstant::Size(ctx.viewport_size),
        },
    ]
}

/// The extent of the image buffer of a surface in device pixels.
pub open spec fn surface_texture_size(surface: PaintSurface) -> Size<DevicePixels> {
    Size {
        width: DevicePixels(surface.image_buffer.width as i32),
        height: DevicePixels(surface.image_buffer.height as i32),
    }
}

/// The only plane of a BGRA surface.
pub open spec fn bgra_plane(i: int, surface: PaintSurface) -> SurfacePlane {
    SurfacePlane {
        surface: i as usize,
        plane: 0,
        pixel_format: PixelFormat::Bgra8Unorm,
        width: surface.image_buffer.width,
        height: surface.image_buffer.height,
    }
}

/// The luma plane of a YUV surface.
pub open spec fn luma_plane(i: int, surface: PaintSurface) -> SurfacePlane {
    SurfacePlane {
        surface: i as usize,
        plane: 0,
        pixel_format: PixelFormat::R8Unorm,
        width: surface.image_buffer.luma.width,
        height: surface.image_buffer.luma.height,
    }
}

/// The chroma plane of a YUV surface.
pub open spec fn chroma_plane(i: int, surface: PaintSurface) -> SurfacePlane {
    SurfacePlane {
        surface: i as usize,
        plane: 1,
        pixel_format: PixelFormat::Rg8Unorm,
        width: surface.image_buffer.chroma.width,
        height: surface.image_buffer.chroma.height,
    }
}

/// The placement of a surface, as bytes.
pub open spec fn surface_bytes(surface: PaintSurface) -> Seq<u8> {
    words_bytes(
        (SurfaceBounds { bounds: surface.bounds, content_mask: surface.content_mask }).words(),
    )
}

/// The commands that bind the placement of a surface.
pub open spec fn surface_bind_commands(surface: PaintSurface, start: int) -> Seq<CommandModel> {
    seq![
        Command::SetVertexBuffer {
            index: SURFACE_INSTANCES,
            buffer: BufferSlot::Instances,
            offset: start as u64,
        },
        Command::SetVertexBytes {
            index: SURFACE_TEXTURE_SIZE,
            value: VertexConstant::Size(surface_texture_size(surface)),
        },
    ]
}

/// The commands that pick the pipeline of a surface by its pixel format, with its planes.
pub open spec fn surface_texture_commands(i: int, surface: PaintSurface) -> Seq<CommandModel> {
    if surface.image_buffer.pixel_format == PIXEL_FORMAT_32BGRA {
        seq![
            Command::SetPipeline(Pipeline::SurfacesBgra),
            Command::SetFragmentTexture {
                index: SURFACE_Y_TEXTURE,
                texture: TextureSlot::Surface(bgra_plane(i, surface)),
            },
        ]
    } else {
        seq![
            Command::SetPipeline(Pipeline::Surfaces),
            Command::SetFragmentTexture {
                index: SURFACE_Y_TEXTURE,
                texture: TextureSlot::Surface(luma_plane(i, surface)),
            },
            Command::SetFragmentTexture {
                index: SURFACE_CB_CR_TEXTURE,
                texture: TextureSlot::Surface(chroma_plane(i, surface)),
            },
        ]
    }
}

/// The commands that draw one surface.
pub open spec fn surface_commands(i: int, surface: PaintSurface, start: int) -> Seq<CommandModel> {
    surface_bind_commands(surface, start) + surface_texture_commands(i, surface) + seq![
        Command::WriteInstances { offset: start as usize, bytes: surface_bytes(surface) },
        Command::Draw { vertex_count: UNIT_VERTEX_COUNT },
    ]
}

/// Drawing the surfaces `i..end`, up to the first that does not fit.
pub open spec fn draw_surfaces_from(
    ctx: FrameContext,
    scene: Scene,
    i: int,
    end: int,
    e: Encoding,
) -> (bool, Encoding)
    decreases end - i,
{
    if i >= end {
        (true, e)
    } else {
        match placement(e.offset, ctx.buffer_size as int, scene.surface_stride as int) {
            None => (false, e.refused(Seq::empty())),
            Some(start) => draw_surfaces_from(
                ctx,
                scene,
                i + 1,
                end,
                e.drawn(
                    start,
                    scene.surface_stride as int,
                    surface_commands(i, scene.surfaces@[i], start),
                ),
            ),
        }
    }
}

/// Drawing a run of surfaces.
pub open spec fn draw_surfaces_spec(
    ctx: FrameContext,
    scene: Scene,
    range: Span,
    e: Encoding,
) -> (bool, Encoding) {
    draw_surfaces_from(
        ctx,
        scene,
        range.start as int,
        range.end as int,
        e.with(surface_prologue(ctx)),
    )
}

/// Whether a pass of the run reads what was drawn before it.
pub open spec fn samples_scene(passes: Seq<ShaderPass>, range: Span) -> bool {
    exists|i: int| range.start <= i < range.end && (#[trigger] passes[i]).samples_scene
}

/// The render pass that turns the target upside down into the backdrop texture.
pub open spec fn flip_pass(ctx: FrameContext) -> RenderPass {
    RenderPass {
        color: TextureSlot::Backdrop,
        resolve: None,
        load: LoadAction::DontCare,
        store: StoreAction::Store,
        viewport: Some(ctx.viewport_size),
    }
}

/// The commands between two render passes that capture the target, upside down, for shader
/// passes, and resume drawing into the target.
pub open spec fn scene_capture_commands(ctx: FrameContext) -> Seq<CommandModel> {
    if ctx.backdrop_texture {
        seq![
            Command::EndEncoding,
            Command::BeginPass(flip_pass(ctx)),
            Command::SetPipeline(Pipeline::SceneFlip),
            Command::SetVertexBuffer {
                index: SCENE_FLIP_VERTICES,
                buffer: BufferSlot::UnitVertices,
                offset: 0,
            },
            Command::SetFragmentTexture {
                index: SCENE_FLIP_TEXTURE,
                texture: TextureSlot::Target,
            },
            Command::Draw { vertex_count: UNIT_VERTEX_COUNT },
            Command::EndEncoding,
            Command::BeginPass(target_pass(ctx, LoadAction::Load)),
        ]
    } else {
        seq![Command::EndEncoding, Command::BeginPass(target_pass(ctx, LoadAction::Load))]
    }
}

/// The encoding after the capture that a run of shader passes asks for, if it asks for one.
pub open spec fn begin_shader_passes_spec(
    ctx: FrameContext,
    passes: Seq<ShaderPass>,
    range: Span,
    e: Encoding,
) -> Encoding {
    if samples_scene(passes, range) {
        e.with(scene_capture_commands(ctx))
    } else {
        e
    }
}

/// The commands that hand the captured scene to a shader pass.
pub open spec fn scene_binding_commands(
    ctx: FrameContext,
    pass: ShaderPass,
) -> Seq<CommandModel> {
    if pass.samples_scene && ctx.backdrop_texture {
        seq![
            Command::SetFragmentTexture {
                index: SHADER_PASS_SCENE_TEXTURE,
                texture: TextureSlot::Backdrop,
            },
            Command::SetFragmentSampler { index: SHADER_PASS_SCENE_SAMPLER },
        ]
    } else {
        Seq::empty()
    }
}

/// The commands that draw one shader pass with a compiled pipeline.
pub open spec fn shader_pass_commands(
    ctx: FrameContext,
    pass: ShaderPass,
    pipeline: u64,
) -> Seq<CommandModel> {
    seq![
        Command::SetPipeline(Pipeline::ShaderPass(pipeline)),
        Command::SetVertexBuffer {
            index: SHADER_PASS_VERTICES,
            buffer: BufferSlot::UnitVertices,
            offset: 0,
        },
        Command::SetVertexBytes {
            index: SHADER_PASS_BOUNDS,
            value: VertexConstant::Bounds(pass.bounds),
        },
        Command::SetVertexBytes {
            index: SHADER_PASS_VIEWPORT_SIZE,
            value: VertexConstant::Size(ctx.viewport_size),
        },
        Command::SetFragmentBytes {
            index: SHADER_PASS_UNIFORM_BUFFER_INDEX,
            bytes: pass.uniforms@,
        },
    ] + scene_binding_commands(ctx, pass) + seq![
        Command::Draw { vertex_count: UNIT_VERTEX_COUNT },
    ]
}

/// Drawing a batch of any kind but shader passes.
pub open spec fn draw_batch_spec(
    ctx: FrameContext,
    scene: Scene,
    batch: PrimitiveBatch,
    e: Encoding,
) -> (bool, Encoding) {
    match batch {
        PrimitiveBatch::Shadows(range) => draw_shapes_spec(
            ctx,
            Pipeline::Shadows,
            scene.shadows,
            range,
            e,
        ),
        PrimitiveBatch::BackdropBlurs(range) => backdrop_blur_batch_spec(
            ctx,
            scene.backdrop_blurs,
            range,
            e,
        ),
        PrimitiveBatch::Quads(range) => draw_shapes_spec(
            ctx,
            Pipeline::Quads,
            scene.quads,
            range,
            e,
        ),
        PrimitiveBatch::Paths { range, spanning_bounds } => path_batch_spec(
            ctx,
            scene.paths@,
            range,
            spanning_bounds,
            e,
        ),
        PrimitiveBatch::Underlines(range) => draw_shapes_spec(
            ctx,
            Pipeline::Underlines,
            scene.underlines,
            range,
            e,
        ),
        PrimitiveBatch::MonochromeSprites { texture, range } => draw_monochrome_sprites_spec(
            ctx,
            texture,
            scene.monochrome_sprites,
            range,
            e,
        ),
        PrimitiveBatch::PolychromeSprites { texture, range } => draw_polychrome_sprites_spec(
            ctx,
            texture,
            scene.polychrome_sprites,
            range,
            e,
        ),
        PrimitiveBatch::Surfaces(range) => draw_surfaces_spec(ctx, scene, range, e),
        PrimitiveBatch::SubpixelSprites { .. } => (false, e),
        PrimitiveBatch::ShaderPasses(_) => (false, e),
    }
}

/// The encoding of an empty frame: the target is cleared.
pub open spec fn begin_spec(ctx: FrameContext) -> Encoding {
    Encoding {
        commands: seq![
            Command::BeginPass(target_pass(ctx, LoadAction::Clear { opaque: ctx.opaque })),
        ],
        offset: 0,
    }
}

/// The encoding of a complete frame. Without unified memory the GPU is told how much of the
/// instance buffer was written.
pub open spec fn finish_spec(ctx: FrameContext, e: Encoding) -> Encoding {
    if ctx.unified_memory {
        e.with(seq![Command::EndEncoding])
    } else {
        e.with(seq![Command::EndEncoding, Command::SyncInstances { length: e.offset as u64 }])
    }
}

/// The encoding of a frame that is given up: its render pass is ended.
pub open spec fn abandon_spec(e: Encoding) -> Encoding {
    e.with(seq![Command::EndEncoding])
}

/// A frame being encoded: its commands, and how far its instance buffer is filled.
#[derive(Debug, PartialEq, Eq)]
pub struct FrameEncoder {
    pub list: CommandList,
    pub instance_offset: usize,
}

impl View for FrameEncoder {
    type V = Encoding;

    open spec fn view(&self) -> Encoding {
        Encoding { commands: self.list@, offset: self.instance_offset as int }
    }
}

impl FrameEncoder {
    /// Starts a frame by clearing the target.
    pub fn begin(ctx: &FrameContext) -> (frame: Self)
        ensures
            frame@ == begin_spec(*ctx),
    {
        let mut list = CommandList::new();
        list.push(
            Command::BeginPass(
                RenderPass {
                    color: TextureSlot::Target,
                    resolve: None,
                    load: LoadAction::Clear { opaque: ctx.opaque },
                    store: StoreAction::Store,
                    viewport: Some(ctx.viewport_size),
                },
            ),
        );
        assert(list@ =~= begin_spec(*ctx).commands);
        FrameEncoder { list, instance_offset: 0 }
    }

    fn resume_target(&mut self, ctx: &FrameContext)
        ensures
            final(self)@ == old(self)@.with(
                seq![Command::BeginPass(target_pass(*ctx, LoadAction::Load))],
            ),
    {
        self.list.push(
            Command::BeginPass(
                RenderPass {
                    color: TextureSlot::Target,
                    resolve: None,
                    load: LoadAction::Load,
                    store: StoreAction::Store,
                    viewport: Some(ctx.viewport_size),
                },
            ),
        );
        assert(self@.commands =~= old(self)@.commands + seq![
            Command::BeginPass(target_pass(*ctx, LoadAction::Load)),
        ]);
    }

    /// Ends the render pass of a frame that is given up.
    pub fn abandon(&mut self)
        ensures
            final(self)@ == abandon_spec(old(self)@),
    {
        self.list.push(Command::EndEncoding);
        assert(self@.commands =~= abandon_spec(old(self)@).commands);
    }

    fn push_instanced_draw(&mut self, start: usize, bytes: Vec<u8>, count: usize)
        requires
            start + bytes@.len() <= usize::MAX,
        ensures
            final(self)@ == old(self)@.drawn(
                start as int,
                bytes@.len() as int,
                instanced_draw(start as int, bytes@, count as int),
            ),
    {
        let len: usize = bytes.len();
        let ghost contents = bytes@;
        self.list.push(Command::WriteInstances { offset: start, bytes });
        self.list.push(
            Command::DrawInstanced {
                vertex_count: UNIT_VERTEX_COUNT,
                instance_count: count as u64,
            },
        );
        self.instance_offset = start + len;
        assert(self@.commands =~= old(self)@.commands + instanced_draw(
            start as int,
            contents,
            count as int,
        ));
    }

    /// Ends a frame.
    pub fn finish(&mut self, ctx: &FrameContext)
        ensures
            final(self)@ == finish_spec(*ctx, old(self)@),
    {
        self.list.push(Command::EndEncoding);
        if !ctx.unified_memory {
            self.list.push(Command::SyncInstances { length: self.instance_offset as u64 });
        }
        assert(self@.commands =~= finish_spec(*ctx, old(self)@).commands);
    }

    fn draw_shapes(
        &mut self,
        ctx: &FrameContext,
        pipeline: Pipeline,
        instances: &Instances,
        range: Span,
    ) -> (ok: bool)
        requires
            instances.wf(),
            range.within(instances.count as nat),
        ensures
            (ok, final(self)@) == draw_shapes_spec(
                *ctx,
                pipeline,
                *instances,
                range,
                old(self)@,
            ),
    {
        if range.start == range.end {
            return true;
        }
        let bytes: Vec<u8> = instances.copy_run(range);
        let len: usize = bytes.len();
        let ghost contents = bytes@;
        if !try_align(&mut self.instance_offset) {
            return false;
        }
        let start: usize = self.instance_offset;
        self.list.push(Command::SetPipeline(pipeline));
        self.list.push(
            Command::SetVertexBuffer {
                index: SHAPE_VERTICES,
                buffer: BufferSlot::UnitVertices,
                offset: 0,
            },
        );
        self.list.push(
            Command::SetVertexBuffer {
                index: SHAPE_INSTANCES,
                buffer: BufferSlot::Instances,
                offset: start as u64,
            },
        );
        self.list.push(
            Command::SetFragmentBuffer {
                index: SHAPE_INSTANCES,
                buffer: BufferSlot::Instances,
                offset: start as u64,
            },
        );
        self.list.push(
            Command::SetVertexBytes {
                index: SHAPE_VIEWPORT_SIZE,
                value: VertexConstant::Size(ctx.viewport_size),
            },
        );
        assert(self@.commands =~= old(self)@.commands + shape_setup(*ctx, pipeline, start as int));
        proof {
            aligned_is_idempotent(old(self)@.offset);
        }
        match place(start, ctx.buffer_size, len) {
            None => false,
            Some(_) => {
                self.push_instanced_draw(start, bytes, range.end - range.start);
                assert(self@.commands =~= old(self)@.commands + shape_commands(
                    *ctx,
                    pipeline,
                    start as int,
                    contents,
                    range.count(),
                ));
                true
            },
        }
    }

    /// Draws a run of shadows. Returns whether they fit into the instance buffer.
    pub fn draw_shadows(&mut self, ctx: &FrameContext, shadows: &Instances, range: Span) -> (ok:
        bool)
        requires
            shadows.wf(),
            range.within(shadows.count as nat),
        ensures
            (ok, final(self)@) == draw_shapes_spec(
                *ctx,
                Pipeline::Shadows,
                *shadows,
                range,
                old(self)@,
            ),
    {
        self.draw_shapes(ctx, Pipeline::Shadows, shadows, range)
    }

    /// Draws a run of quads. Returns whether they fit into the instance buffer.
    pub fn draw_quads(&mut self, ctx: &FrameContext, quads: &Instances, range: Span) -> (ok: bool)
        requires
            quads.wf(),
            range.within(quads.count as nat),
        ensures
            (ok, final(self)@) == draw_shapes_spec(
                *ctx,
                Pipeline::Quads,
                *quads,
                range,
                old(self)@,
            ),
    {
        self.draw_shapes(ctx, Pipeline::Quads, quads, range)
    }

    /// Draws a run of underlines. Returns whether they fit into the instance buffer.
    pub fn draw_underlines(
        &mut self,
        ctx: &FrameContext,
        underlines: &Instances,
        range: Span,
    ) -> (ok: bool)
        requires
            underlines.wf(),
            range.within(underlines.count as nat),
        ensures
            (ok, final(self)@) == draw_shapes_spec(
                *ctx,
                Pipeline::Underlines,
                *underlines,
                range,
                old(self)@,
            ),
    {
        self.draw_shapes(ctx, Pipeline::Underlines, underlines, range)
    }

    /// Composites the captured backdrop within a run of blurs. Returns whether there is a
    /// backdrop texture and the blurs fit into the instance buffer.
    pub fn draw_backdrop_blurs(
        &mut self,
        ctx: &FrameContext,
        blurs: &Instances,
        range: Span,
    ) -> (ok: bool)
        requires
            blurs.wf(),
            range.within(blurs.count as nat),
        ensures
            (ok, final(self)@) == draw_backdrop_blurs_spec(*ctx, *blurs, range, old(self)@),
    {
        if range.start == range.end {
            return true;
        }
        if !ctx.backdrop_texture {
            return false;
        }
        let bytes: Vec<u8> = blurs.copy_run(range);
        let len: usize = bytes.len();
        let ghost contents = bytes@;
        if !try_align(&mut self.instance_offset) {
            return false;
        }
        let start: usize = self.instance_offset;
        self.list.push(Command::SetPipeline(Pipeline::BackdropBlur));
        self.list.push(
            Command::SetVertexBuffer {
                index: BACKDROP_BLUR_VERTICES,
                buffer: BufferSlot::UnitVertices,
                offset: 0,
            },
        );
        self.list.push(
            Command::SetVertexBuffer {
                index: BACKDROP_BLUR_INSTANCES,
                buffer: BufferSlot::Instances,
                offset: start as u64,
            },
        );
        self.list.push(
            Command::SetFragmentBuffer {
                index: BACKDROP_BLUR_INSTANCES,
                buffer: BufferSlot::Instances,
                offset: start as u64,
            },
        );
        self.list.push(
            Command::SetVertexBytes {
                index: BACKDROP_BLUR_VIEWPORT_SIZE,
                value: VertexConstant::Size(ctx.viewport_size),
            },
        );
        self.list.push(
            Command::SetFragmentTexture {
                index: BACKDROP_BLUR_TEXTURE,
                texture: TextureSlot::Backdrop,
            },
        );
        assert(self@.commands =~= old(self)@.commands + backdrop_blur_setup(*ctx, start as int));
        proof {
            aligned_is_idempotent(old(self)@.offset);
        }
        match place(start, ctx.buffer_size, len) {
            None => false,
            Some(_) => {
                self.push_instanced_draw(start, bytes, range.end - range.start);
                assert(self@.commands =~= old(self)@.commands + backdrop_blur_commands(
                    *ctx,
                    start as int,
                    contents,
                    range.count(),
                ));
                true
            },
        }
    }

    /// Copies the target into the backdrop texture between two render passes, and composites a
    /// run of blurs over it. Returns whether there is a backdrop texture and the blurs fit into
    /// the instance buffer.
    pub fn draw_backdrop_blur_batch(
        &mut self,
        ctx: &FrameContext,
        blurs: &Instances,
        range: Span,
    ) -> (ok: bool)
        requires
            blurs.wf(),
            range.within(blurs.count as nat),
        ensures
            (ok, final(self)@) == backdrop_blur_batch_spec(*ctx, *blurs, range, old(self)@),
    {
        self.list.push(Command::EndEncoding);
        if ctx.backdrop_texture {
            self.list.push(
                Command::CopyTargetToBackdrop {
                    width: ctx.viewport_size.width.0 as u64,
                    height: ctx.viewport_size.height.0 as u64,
                },
            );
        }
        self.resume_target(ctx);
        assert(self@.commands =~= old(self)@.commands + backdrop_capture_commands(*ctx));
        if ctx.backdrop_texture {
            self.draw_backdrop_blurs(ctx, blurs, range)
        } else {
            false
        }
    }

    fn set_up_sprites(
        &mut self,
        ctx: &FrameContext,
        pipeline: Pipeline,
        texture: AtlasTexture,
        start: usize,
    )
        ensures
            final(self)@ == old(self)@.with(
                sprite_setup(*ctx, pipeline, texture, start as int),
            ),
    {
        let atlas_size: Size<DevicePixels> = Size {
            width: DevicePixels(texture.width as i32),
            height: DevicePixels(texture.height as i32),
        };
        self.list.push(Command::SetPipeline(pipeline));
        self.list.push(
            Command::SetVertexBuffer {
                index: SPRITE_VERTICES,
                buffer: BufferSlot::UnitVertices,
                offset: 0,
            },
        );
        self.list.push(
            Command::SetVertexBuffer {
                index: SPRITE_INSTANCES,
                buffer: BufferSlot::Instances,
                offset: start as u64,
            },
        );
        self.list.push(
            Command::SetVertexBytes {
                index: SPRITE_VIEWPORT_SIZE,
                value: VertexConstant::Size(ctx.viewport_size),
            },
        );
        self.list.push(
            Command::SetVertexBytes {
                index: SPRITE_ATLAS_TEXTURE_SIZE,
                value: VertexConstant::Size(atlas_size),
            },
        );
        self.list.push(
            Command::SetFragmentBuffer {
                index: SPRITE_INSTANCES,
                buffer: BufferSlot::Instances,
                offset: start as u64,
            },
        );
        self.list.push(
            Command::SetFragmentTexture {
                index: SPRITE_ATLAS_TEXTURE,
                texture: TextureSlot::Atlas(texture.id),
            },
        );
        assert(self@.commands =~= old(self)@.commands + sprite_setup(
            *ctx,
            pipeline,
            texture,
            start as int,
        ));
    }

    /// Draws a run of monochrome sprites. Returns whether they fit into the instance buffer.
    pub fn draw_monochrome_sprites(
        &mut self,
        ctx: &FrameContext,
        texture: AtlasTexture,
        sprites: &Instances,
        range: Span,
    ) -> (ok: bool)
        requires
            sprites.wf(),
            range.within(sprites.count as nat),
        ensures
            (ok, final(self)@) == draw_monochrome_sprites_spec(
                *ctx,
                texture,
                *sprites,
                range,
                old(self)@,
            ),
    {
        if range.start == range.end {
            return true;
        }
        let bytes: Vec<u8> = sprites.copy_run(range);
        let len: usize = bytes.len();
        let ghost contents = bytes@;
        if !try_align(&mut self.instance_offset) {
            return false;
        }
        let start: usize = self.instance_offset;
        proof {
            aligned_is_idempotent(old(self)@.offset);
            assert(self@.commands =~= old(self)@.commands + Seq::empty());
        }
        match place(start, ctx.buffer_size, len) {
            None => false,
            Some(_) => {
                self.set_up_sprites(ctx, Pipeline::MonochromeSprites, texture, start);
                self.push_instanced_draw(start, bytes, range.end - range.start);
                assert(self@.commands =~= old(self)@.commands + sprite_commands(
                    *ctx,
                    Pipeline::MonochromeSprites,
                    texture,
                    start as int,
                    contents,
                    range.count(),
                ));
                true
            },
        }
    }

    /// Draws a run of polychrome sprites. Returns whether they fit into the instance buffer.
    pub fn draw_polychrome_sprites(
        &mut self,
        ctx: &FrameContext,
        texture: AtlasTexture,
        sprites: &Instances,
        range: Span,
    ) -> (ok: bool)
        requires
            sprites.wf(),
            range.within(sprites.count as nat),
        ensures
            (ok, final(self)@) == draw_polychrome_sprites_spec(
                *ctx,
                texture,
                *sprites,
                range,
                old(self)@,
            ),
    {
        if range.start == range.end {
            return true;
        }
        let bytes: Vec<u8> = sprites.copy_run(range);
        let len: usize = bytes.len();
        let ghost contents = bytes@;
        if !try_align(&mut self.instance_offset) {
            return false;
        }
        let start: usize = self.instance_offset;
        self.set_up_sprites(ctx, Pipeline::PolychromeSprites, texture, start);
        proof {
            aligned_is_idempotent(old(self)@.offset);
        }
        match place(start, ctx.buffer_size, len) {
            None => false,
            Some(_) => {
                self.push_instanced_draw(start, bytes, range.end - range.start);
                assert(self@.commands =~= old(self)@.commands + sprite_commands(
                    *ctx,
                    Pipeline::PolychromeSprites,
                    texture,
                    start as int,
                    contents,
                    range.count(),
                ));
                true
            },
        }
    }

    /// Rasterizes a run of paths into the intermediate texture, in a render pass of its own.
    /// Returns whether there is such a texture and the vertices fit into the instance buffer.
    pub fn draw_paths_to_intermediate(
        &mut self,
        ctx: &FrameContext,
        paths: &Vec<Path>,
        range: Span,
    ) -> (ok: bool)
        requires
            range.within(paths@.len()),
        ensures
            (ok, final(self)@) == draw_paths_to_intermediate_spec(
                *ctx,
                paths@,
                range,
                old(self)@,
            ),
    {
        if range.start == range.end {
            return true;
        }
        if !ctx.path_texture {
            return false;
        }
        let mut bytes: Vec<u8> = Vec::new();
        let mut vertex_count: usize = 0;
        let mut i: usize = range.start;
        while i < range.end
            invariant
                range.start <= i <= range.end <= paths@.len(),
                bytes@ == path_vertex_bytes(paths@, range.start as int, i as int),
                vertex_count == path_vertex_count(paths@, range.start as int, i as int),
            decreases range.end - i,
        {
            let path: &Path = &paths[i];
            path.push_vertices(&mut bytes);
            let byte_count: usize = bytes.len();
            proof {
                lemma_path_vertex_count_bounded(paths@, range.start as int, i + 1);
                assert(bytes@ =~= path_vertex_bytes(paths@, range.start as int, i + 1));
                assert(byte_count == bytes@.len());
            }
            vertex_count = vertex_count + path.vertices.len();
            i += 1;
        }
        let len: usize = bytes.len();
        let ghost contents = bytes@;
        if !try_align(&mut self.instance_offset) {
            return false;
        }
        let start: usize = self.instance_offset;
        let pass: RenderPass = if ctx.multisample {
            RenderPass {
                color: TextureSlot::PathMultisample,
                resolve: Some(TextureSlot::PathIntermediate),
                load: LoadAction::Clear { opaque: false },
                store: StoreAction::MultisampleResolve,
                viewport: None,
            }
        } else {
            RenderPass {
                color: TextureSlot::PathIntermediate,
                resolve: None,
                load: LoadAction::Clear { opaque: false },
                store: StoreAction::Store,
                viewport: None,
            }
        };
        self.list.push(Command::BeginPass(pass));
        self.list.push(Command::SetPipeline(Pipeline::PathsRasterization));
        proof {
            aligned_is_idempotent(old(self)@.offset);
        }
        match place(start, ctx.buffer_size, len) {
            None => {
                self.list.push(Command::EndEncoding);
                assert(self@.commands =~= old(self)@.commands + path_refusal_commands(*ctx));
                false
            },
            Some(_) => {
                self.list.push(
                    Command::SetVertexBuffer {
                        index: PATH_RASTERIZATION_VERTICES,
                        buffer: BufferSlot::Instances,
                        offset: start as u64,
                    },
                );
                self.list.push(
                    Command::SetVertexBytes {
                        index: PATH_RASTERIZATION_VIEWPORT_SIZE,
                        value: VertexConstant::Size(ctx.viewport_size),
                    },
                );
                self.list.push(
                    Command::SetFragmentBuffer {
                        index: PATH_RASTERIZATION_VERTICES,
                        buffer: BufferSlot::Instances,
                        offset: start as u64,
                    },
                );
                self.list.push(Command::WriteInstances { offset: start, bytes });
                self.list.push(Command::Draw { vertex_count: vertex_count as u64 });
                self.list.push(Command::EndEncoding);
                self.instance_offset = start + len;
                assert(self@.commands =~= old(self)@.commands + path_rasterization_commands(
                    *ctx,
                    start as int,
                    contents,
                    vertex_count as int,
                ));
                true
            },
        }
    }

    /// Copies a run of paths from the intermediate texture to the target, each pixel once.
    /// `spanning_bounds` is the least rectangle around them. Returns whether there is such a
    /// texture and the sprites fit into the instance buffer.
    pub fn draw_paths_from_intermediate(
        &mut self,
        ctx: &FrameContext,
        paths: &Vec<Path>,
        range: Span,
        spanning_bounds: Bounds<ScaledPixels>,
    ) -> (ok: bool)
        requires
            range.within(paths@.len()),
        ensures
            (ok, final(self)@) == draw_paths_from_intermediate_spec(
                *ctx,
                paths@,
                range,
                spanning_bounds,
                old(self)@,
            ),
    {
        if range.start == range.end {
            return true;
        }
        if !ctx.path_texture {
            return false;
        }
        let mut bytes: Vec<u8> = Vec::new();
        let count: usize;
        if paths[range.end - 1].order == paths[range.start].order {
            let mut i: usize = range.start;
            while i < range.end
                invariant
                    range.start <= i <= range.end <= paths@.len(),
                    bytes@ == path_sprite_bytes(paths@, range.start as int, i as int),
                decreases range.end - i,
            {
                let sprite = PathSprite { bounds: paths[i].clipped_bounds };
                sprite.push_to(&mut bytes);
                i += 1;
                assert(bytes@ =~= path_sprite_bytes(paths@, range.start as int, i as int));
            }
            count = range.end - range.start;
        } else {
            let sprite = PathSprite { bounds: spanning_bounds };
            sprite.push_to(&mut bytes);
            assert(bytes@ =~= words_bytes(sprite.words()));
            count = 1;
        }
        let len: usize = bytes.len();
        let ghost contents = bytes@;
        if !try_align(&mut self.instance_offset) {
            return false;
        }
        let start: usize = self.instance_offset;
        self.list.push(Command::SetPipeline(Pipeline::PathSprites));
        self.list.push(
            Command::SetVertexBuffer {
                index: SPRITE_VERTICES,
                buffer: BufferSlot::UnitVertices,
                offset: 0,
            },
        );
        self.list.push(
            Command::SetVertexBytes {
                index: SPRITE_VIEWPORT_SIZE,
                value: VertexConstant::Size(ctx.viewport_size),
            },
        );
        self.list.push(
            Command::SetFragmentTexture {
                index: SPRITE_ATLAS_TEXTURE,
                texture: TextureSlot::PathIntermediate,
            },
        );
        assert(self@.commands =~= old(self)@.commands + path_sprite_setup(*ctx));
        proof {
            aligned_is_idempotent(old(self)@.offset);
        }
        match place(start, ctx.buffer_size, len) {
            None => false,
            Some(_) => {
                self.list.push(
                    Command::SetVertexBuffer {
                        index: SPRITE_INSTANCES,
                        buffer: BufferSlot::Instances,
                        offset: start as u64,
                    },
                );
                self.push_instanced_draw(start, bytes, count);
                assert(self@.commands =~= old(self)@.commands + path_sprite_commands(
                    *ctx,
                    start as int,
                    contents,
                    count as int,
                ));
                true
            },
        }
    }

    /// Rasterizes a run of paths between two render passes, and copies them to the target.
    pub fn draw_path_batch(
        &mut self,
        ctx: &FrameContext,
        paths: &Vec<Path>,
        range: Span,
        spanning_bounds: Bounds<ScaledPixels>,
    ) -> (ok: bool)
        requires
            range.within(paths@.len()),
        ensures
            (ok, final(self)@) == path_batch_spec(
                *ctx,
                paths@,
                range,
                spanning_bounds,
                old(self)@,
            ),
    {
        self.list.push(Command::EndEncoding);
        assert(self@.commands =~= old(self)@.commands + seq![Command::EndEncoding]);
        assert(self@ == old(self)@.with(seq![Command::EndEncoding]));
        let did_draw: bool = self.draw_paths_to_intermediate(ctx, paths, range);
        self.resume_target(ctx);
        if did_draw {
            self.draw_paths_from_intermediate(ctx, paths, range, spanning_bounds)
        } else {
            false
        }
    }

    fn draw_surface(&mut self, index: usize, surface: &PaintSurface, start: usize, stride: usize)
        requires
            surface.supported(),
            start + stride <= usize::MAX,
        ensures
            final(self)@ == old(self)@.drawn(
                start as int,
                stride as int,
                surface_commands(index as int, *surface, start as int),
            ),
    {
        let buffer: ImageBuffer = surface.image_buffer;
        let buffer_size: Size<DevicePixels> = Size {
            width: DevicePixels(buffer.width as i32),
            height: DevicePixels(buffer.height as i32),
        };
        self.list.push(
            Command::SetVertexBuffer {
                index: SURFACE_INSTANCES,
                buffer: BufferSlot::Instances,
                offset: start as u64,
            },
        );
        self.list.push(
            Command::SetVertexBytes {
                index: SURFACE_TEXTURE_SIZE,
                value: VertexConstant::Size(buffer_size),
            },
        );
        if buffer.pixel_format == PIXEL_FORMAT_32BGRA {
            self.list.push(Command::SetPipeline(Pipeline::SurfacesBgra));
            self.list.push(
                Command::SetFragmentTexture {
                    index: SURFACE_Y_TEXTURE,
                    texture: TextureSlot::Surface(
                        SurfacePlane {
                            surface: index,
                            plane: 0,
                            pixel_format: PixelFormat::Bgra8Unorm,
                            width: buffer.width,
                            height: buffer.height,
                        },
                    ),
                },
            );
        } else {
            self.list.push(Command::SetPipeline(Pipeline::Surfaces));
            self.list.push(
                Command::SetFragmentTexture {
                    index: SURFACE_Y_TEXTURE,
                    texture: TextureSlot::Surface(
                        SurfacePlane {
                            surface: index,
                            plane: 0,
                            pixel_format: PixelFormat::R8Unorm,
                            width: buffer.luma.width,
                            height: buffer.luma.height,
                        },
                    ),
                },
            );
            self.list.push(
                Command::SetFragmentTexture {
                    index: SURFACE_CB_CR_TEXTURE,
                    texture: TextureSlot::Surface(
                        SurfacePlane {
                            surface: index,
                            plane: 1,
                            pixel_format: PixelFormat::Rg8Unorm,
                            width: buffer.chroma.width,
                            height: buffer.chroma.height,
                        },
                    ),
                },
            );
        }
        let placed = SurfaceBounds { bounds: surface.bounds, content_mask: surface.content_mask };
        self.list.push(Command::WriteInstances { offset: start, bytes: placed.to_bytes() });
        self.list.push(Command::Draw { vertex_count: UNIT_VERTEX_COUNT });
        self.instance_offset = start + stride;
        assert(self@.commands =~= old(self)@.commands + surface_commands(
            index as int,
            *surface,
            start as int,
        ));
    }

    /// Draws a run of surfaces, each with the pipeline of its pixel format. Returns whether all
    /// of them fit into the instance buffer.
    pub fn draw_surfaces(&mut self, ctx: &FrameContext, scene: &Scene, range: Span) -> (ok: bool)
        requires
            scene.batch_wf(PrimitiveBatch::Surfaces(range)),
        ensures
            (ok, final(self)@) == draw_surfaces_spec(*ctx, *scene, range, old(self)@),
    {
        self.list.push(
            Command::SetVertexBuffer {
                index: SURFACE_VERTICES,
                buffer: BufferSlot::UnitVertices,
                offset: 0,
            },
        );
        self.list.push(
            Command::SetVertexBytes {
                index: SURFACE_VIEWPORT_SIZE,
                value: VertexConstant::Size(ctx.viewport_size),
            },
        );
        assert(self@.commands =~= old(self)@.commands + surface_prologue(*ctx));
        let mut i: usize = range.start;
        while i < range.end
            invariant
                scene.batch_wf(PrimitiveBatch::Surfaces(range)),
                range.start <= i <= range.end,
                draw_surfaces_spec(*ctx, *scene, range, old(self)@) == draw_surfaces_from(
                    *ctx,
                    *scene,
                    i as int,
                    range.end as int,
                    self@,
                ),
            decreases range.end - i,
        {
            let ghost before = self@;
            if !try_align(&mut self.instance_offset) {
                return false;
            }
            let start: usize = self.instance_offset;
            proof {
                aligned_is_idempotent(before.offset);
                assert(self@.commands =~= before.commands + Seq::empty());
            }
            match place(start, ctx.buffer_size, scene.surface_stride) {
                None => {
                    return false;
                },
                Some(_) => {
                    self.draw_surface(i, &scene.surfaces[i], start, scene.surface_stride);
                },
            }
            i += 1;
        }
        true
    }

    /// Captures the target for a run of shader passes, if one of them reads it.
    pub fn begin_shader_passes(
        &mut self,
        ctx: &FrameContext,
        passes: &Vec<ShaderPass>,
        range: Span,
    )
        requires
            range.within(passes@.len()),
        ensures
            final(self)@ == begin_shader_passes_spec(*ctx, passes@, range, old(self)@),
    {
        let mut sampled: bool = false;
        let mut i: usize = range.start;
        while i < range.end
            invariant
                range.start <= i <= range.end <= passes@.len(),
                sampled == (exists|j: int|
                    range.start <= j < i && (#[trigger] passes@[j]).samples_scene),
            decreases range.end - i,
        {
            if passes[i].samples_scene {
                sampled = true;
            }
            i += 1;
        }
        assert(sampled == samples_scene(passes@, range));
        if sampled {
            self.list.push(Command::EndEncoding);
            if ctx.backdrop_texture {
                self.list.push(
                    Command::BeginPass(
                        RenderPass {
                            color: TextureSlot::Backdrop,
                            resolve: None,
                            load: LoadAction::DontCare,
                            store: StoreAction::Store,
                            viewport: Some(ctx.viewport_size),
                        },
                    ),
                );
                self.list.push(Command::SetPipeline(Pipeline::SceneFlip));
                self.list.push(
                    Command::SetVertexBuffer {
                        index: SCENE_FLIP_VERTICES,
                        buffer: BufferSlot::UnitVertices,
                        offset: 0,
                    },
                );
                self.list.push(
                    Command::SetFragmentTexture {
                        index: SCENE_FLIP_TEXTURE,
                        texture: TextureSlot::Target,
                    },
                );
                self.list.push(Command::Draw { vertex_count: UNIT_VERTEX_COUNT });
                self.list.push(Command::EndEncoding);
            }
            self.resume_target(ctx);
            assert(self@.commands =~= old(self)@.commands + scene_capture_commands(*ctx));
        }
    }

    /// Draws one shader pass with its compiled pipeline.
    pub fn draw_shader_pass(&mut self, ctx: &FrameContext, pass: &ShaderPass, pipeline: u64)
        ensures
            final(self)@ == old(self)@.with(shader_pass_commands(*ctx, *pass, pipeline)),
    {
        self.list.push(Command::SetPipeline(Pipeline::ShaderPass(pipeline)));
        self.list.push(
            Command::SetVertexBuffer {
                index: SHADER_PASS_VERTICES,
                buffer: BufferSlot::UnitVertices,
                offset: 0,
            },
        );
        self.list.push(
            Command::SetVertexBytes {
                index: SHADER_PASS_BOUNDS,
                value: VertexConstant::Bounds(pass.bounds),
            },
        );
        self.list.push(
            Command::SetVertexBytes {
                index: SHADER_PASS_VIEWPORT_SIZE,
                value: VertexConstant::Size(ctx.viewport_size),
            },
        );
        self.list.push(
            Command::SetFragmentBytes {
                index: SHADER_PASS_UNIFORM_BUFFER_INDEX,
                bytes: vstd::slice::slice_to_vec(pass.uniforms.as_slice()),
            },
        );
        if pass.samples_scene && ctx.backdrop_texture {
            self.list.push(
                Command::SetFragmentTexture {
                    index: SHADER_PASS_SCENE_TEXTURE,
                    texture: TextureSlot::Backdrop,
                },
            );
            self.list.push(Command::SetFragmentSampler { index: SHADER_PASS_SCENE_SAMPLER });
        }
        self.list.push(Command::Draw { vertex_count: UNIT_VERTEX_COUNT });
        assert(self@.commands =~= old(self)@.commands + shader_pass_commands(
            *ctx,
            *pass,
            pipeline,
        ));
    }

    /// Draws a batch of any kind but shader passes. Returns whether it could be drawn.
    pub fn draw_batch(&mut self, ctx: &FrameContext, scene: &Scene, batch: PrimitiveBatch) -> (ok:
        bool)
        requires
            scene.wf(),
            scene.batch_wf(batch),
            batch !is ShaderPasses,
        ensures
            (ok, final(self)@) == draw_batch_spec(*ctx, *scene, batch, old(self)@),
    {
        match batch {
            PrimitiveBatch::Shadows(range) => self.draw_shadows(ctx, &scene.shadows, range),
            PrimitiveBatch::BackdropBlurs(range) => self.draw_backdrop_blur_batch(
                ctx,
                &scene.backdrop_blurs,
                range,
            ),
            PrimitiveBatch::Quads(range) => self.draw_quads(ctx, &scene.quads, range),
            PrimitiveBatch::Paths { range, spanning_bounds } => self.draw_path_batch(
                ctx,
                &scene.paths,
                range,
                spanning_bounds,
            ),
            PrimitiveBatch::Underlines(range) => self.draw_underlines(
                ctx,
                &scene.underlines,
                range,
            ),
            PrimitiveBatch::MonochromeSprites { texture, range } => self.draw_monochrome_sprites(
                ctx,
                texture,
                &scene.monochrome_sprites,
                range,
            ),
            PrimitiveBatch::PolychromeSprites { texture, range } => self.draw_polychrome_sprites(
                ctx,
                texture,
                &scene.polychrome_sprites,
                range,
            ),
            PrimitiveBatch::Surfaces(range) => self.draw_surfaces(ctx, scene, range),
            PrimitiveBatch::SubpixelSprites { .. } => false,
            PrimitiveBatch::ShaderPasses(_) => false,
        }
    }
}

} // verus!
