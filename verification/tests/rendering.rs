use scene_renderer::commands::{
    AtlasTextureId, BufferSlot, Command, LoadAction, Pipeline, RenderPass, StoreAction,
    SurfacePlane, TextureSlot, VertexConstant,
};
use scene_renderer::descriptors::{PixelFormat, ResourceOptions};
use scene_renderer::device::DeviceInfo;
use scene_renderer::encoder::{FrameContext, FrameEncoder};
use scene_renderer::error::RenderError;
use scene_renderer::frame::{Cursor, Frame, FrameStatus};
use scene_renderer::geometry::{
    point, push_bounds, push_word, push_words, size, Bounds, ContentMask, DevicePixels, Point,
    ScaledPixels, Size,
};
use scene_renderer::pool::{BufferAllocation, InstanceBuffer, InstanceBufferPool};
use scene_renderer::renderer::{MetalRenderer, RenderPlan};
use scene_renderer::rendering::{Progress, Submission};
use scene_renderer::rendering::SubmitStep::{
    Commit, PresentDrawable, PresentNow, ReadPixels, ReleaseBufferOnCompletion, SynchronizeTarget,
    WaitUntilCompleted, WaitUntilScheduled,
};
use scene_renderer::scene::{
    AtlasTexture, Background, ImageBuffer, Instances, PaintSurface, Path, PathSprite, PathVertex,
    PlaneSize, PrimitiveBatch, Scene, SceneTooLarge, ShaderPass, Span, SurfaceBounds,
    PIXEL_FORMAT_32BGRA, PIXEL_FORMAT_420_BIPLANAR_FULL_RANGE,
};
use scene_renderer::shader_cache::ShaderPassPipelines;

const STRIDE: usize = 36;

fn viewport() -> Size<DevicePixels> {
    size(DevicePixels(100), DevicePixels(50))
}

fn context(buffer_size: usize) -> FrameContext {
    FrameContext {
        opaque: true,
        unified_memory: true,
        path_texture: true,
        multisample: true,
        backdrop_texture: true,
        viewport_size: viewport(),
        buffer_size,
    }
}

fn instances(count: usize, stride: usize) -> Instances {
    Instances { count, stride, bytes: (0..count * stride).map(|i| i as u8).collect() }
}

fn span(start: usize, end: usize) -> Span {
    Span { start, end }
}

fn bounds(seed: u32) -> Bounds<ScaledPixels> {
    Bounds {
        origin: point(ScaledPixels(seed), ScaledPixels(seed + 1)),
        size: size(ScaledPixels(seed + 2), ScaledPixels(seed + 3)),
    }
}

fn bounds_bytes(bounds: Bounds<ScaledPixels>) -> Vec<u8> {
    let mut bytes = Vec::new();
    push_bounds(&mut bytes, bounds);
    bytes
}

fn target_pass(load: LoadAction) -> Command<Vec<u8>> {
    Command::BeginPass(RenderPass {
        color: TextureSlot::Target,
        resolve: None,
        load,
        store: StoreAction::Store,
        viewport: Some(viewport()),
    })
}

fn unit_vertices() -> Command<Vec<u8>> {
    Command::SetVertexBuffer { index: 0, buffer: BufferSlot::UnitVertices, offset: 0 }
}

fn vertex_instances(index: u64, offset: u64) -> Command<Vec<u8>> {
    Command::SetVertexBuffer { index, buffer: BufferSlot::Instances, offset }
}

fn fragment_instances(index: u64, offset: u64) -> Command<Vec<u8>> {
    Command::SetFragmentBuffer { index, buffer: BufferSlot::Instances, offset }
}

fn viewport_bytes(index: u64) -> Command<Vec<u8>> {
    Command::SetVertexBytes { index, value: VertexConstant::Size(viewport()) }
}

fn write(offset: usize, bytes: Vec<u8>) -> Command<Vec<u8>> {
    Command::WriteInstances { offset, bytes }
}

fn instanced(instance_count: u64) -> Command<Vec<u8>> {
    Command::DrawInstanced { vertex_count: 6, instance_count }
}

fn path(order: u32, vertices: u32) -> Path {
    Path {
        order,
        vertices: (0..vertices)
            .map(|i| PathVertex {
                xy_position: point(ScaledPixels(10 + i), ScaledPixels(20 + i)),
                st_position: Point { x: 30 + i, y: 40 + i },
            })
            .collect(),
        color: Background { words: vec![7, 8] },
        clipped_bounds: bounds(100 * order),
    }
}

fn shader_pass(shader_id: u64, samples_scene: bool) -> ShaderPass {
    ShaderPass {
        bounds: bounds(5),
        shader_id,
        msl: String::from("source"),
        fragment_entry: String::from("main_"),
        uniforms: vec![1, 2, 3],
        samples_scene,
    }
}

#[test]
fn words_lie_in_memory_with_the_least_byte_first() {
    let mut bytes = vec![9];
    push_word(&mut bytes, 0x0403_0201);
    push_words(&mut bytes, &[5, 0x0100_0000]);
    assert_eq!(bytes, vec![9, 1, 2, 3, 4, 5, 0, 0, 0, 0, 0, 0, 1]);
    let placed = SurfaceBounds { bounds: bounds(1), content_mask: ContentMask { bounds: bounds(9) } };
    let mut expected = bounds_bytes(bounds(1));
    expected.extend(bounds_bytes(bounds(9)));
    assert_eq!(placed.to_bytes(), expected);
    assert_eq!(placed.to_bytes().len(), 32);
    assert_eq!(PathSprite { bounds: bounds(3) }, PathSprite { bounds: bounds(3) });
}

#[test]
fn a_frame_starts_by_clearing_the_target() {
    let encoder = FrameEncoder::begin(&context(0));
    assert_eq!(
        encoder.list.commands,
        vec![target_pass(LoadAction::Clear { opaque: true })]
    );
    assert_eq!(encoder.instance_offset, 0);
}

#[test]
fn shapes_are_drawn_from_their_bytes() {
    let ctx = context(600);
    let quads = instances(3, 10);
    let mut encoder = FrameEncoder::begin(&ctx);
    assert!(encoder.draw_shadows(&ctx, &quads, span(0, 1)));
    assert!(encoder.draw_quads(&ctx, &quads, span(1, 3)));
    assert_eq!(encoder.instance_offset, 276);
    let shape = |pipeline: Pipeline, start: u64, bytes: Vec<u8>, count: u64| {
        vec![
            Command::SetPipeline(pipeline),
            unit_vertices(),
            vertex_instances(1, start),
            fragment_instances(1, start),
            viewport_bytes(2),
            write(start as usize, bytes),
            instanced(count),
        ]
    };
    let mut expected = vec![target_pass(LoadAction::Clear { opaque: true })];
    expected.extend(shape(Pipeline::Shadows, 0, (0..10).collect(), 1));
    expected.extend(shape(Pipeline::Quads, 256, (10..30).collect(), 2));
    assert_eq!(encoder.list.commands, expected);
    assert!(encoder.draw_underlines(&ctx, &quads, span(2, 2)));
    assert!(encoder.draw_underlines(&ctx, &quads, span(2, 3)));
    assert_eq!(encoder.instance_offset, 522);
    let drawn = encoder.list.len();
    assert!(!encoder.draw_underlines(&ctx, &quads, span(0, 1)));
    assert_eq!(encoder.instance_offset, 768);
    assert_eq!(
        encoder.list.commands[drawn..],
        [
            Command::SetPipeline(Pipeline::Underlines),
            unit_vertices(),
            vertex_instances(1, 768),
            fragment_instances(1, 768),
            viewport_bytes(2),
        ]
    );
}

/// A draw whose bytes do not fit leaves the offset aligned, and what was set up before that was
/// known.
#[test]
fn refused_draws_leave_an_aligned_offset() {
    let ctx = context(300);
    let many = instances(2, 200);
    let one = instances(1, 10);
    let texture = AtlasTexture { id: AtlasTextureId(3), width: 16, height: 32 };
    let paths = vec![path(1, 20)];
    let start = || {
        let mut encoder = FrameEncoder::begin(&ctx);
        assert!(encoder.draw_quads(&ctx, &one, span(0, 1)));
        assert_eq!(encoder.instance_offset, 10);
        (encoder.list.len(), encoder)
    };
    let set_up = |pipeline: Pipeline| {
        vec![
            Command::SetPipeline(pipeline),
            unit_vertices(),
            vertex_instances(1, 256),
            fragment_instances(1, 256),
            viewport_bytes(2),
        ]
    };

    let (drawn, mut encoder) = start();
    assert!(!encoder.draw_shadows(&ctx, &many, span(0, 2)));
    assert_eq!(encoder.instance_offset, 256);
    assert_eq!(encoder.list.commands[drawn..], set_up(Pipeline::Shadows));

    let (drawn, mut encoder) = start();
    assert!(!encoder.draw_backdrop_blurs(&ctx, &many, span(0, 2)));
    assert_eq!(encoder.instance_offset, 256);
    let mut expected = set_up(Pipeline::BackdropBlur);
    expected.push(Command::SetFragmentTexture { index: 3, texture: TextureSlot::Backdrop });
    assert_eq!(encoder.list.commands[drawn..], expected);

    let (drawn, mut encoder) = start();
    assert!(!encoder.draw_monochrome_sprites(&ctx, texture, &many, span(0, 2)));
    assert_eq!(encoder.instance_offset, 256);
    assert_eq!(encoder.list.len(), drawn);

    let (drawn, mut encoder) = start();
    assert!(!encoder.draw_polychrome_sprites(&ctx, texture, &many, span(0, 2)));
    assert_eq!(encoder.instance_offset, 256);
    assert_eq!(
        encoder.list.commands[drawn..],
        [
            Command::SetPipeline(Pipeline::PolychromeSprites),
            unit_vertices(),
            vertex_instances(1, 256),
            viewport_bytes(2),
            Command::SetVertexBytes {
                index: 3,
                value: VertexConstant::Size(size(DevicePixels(16), DevicePixels(32))),
            },
            fragment_instances(1, 256),
            Command::SetFragmentTexture {
                index: 4,
                texture: TextureSlot::Atlas(AtlasTextureId(3)),
            },
        ]
    );

    let (drawn, mut encoder) = start();
    assert!(!encoder.draw_paths_to_intermediate(&ctx, &paths, span(0, 1)));
    assert_eq!(encoder.instance_offset, 256);
    assert_eq!(encoder.list.len(), drawn + 3);
    assert_eq!(
        encoder.list.commands[drawn + 1..],
        [Command::SetPipeline(Pipeline::PathsRasterization), Command::EndEncoding]
    );

    let tight = context(260);
    let (drawn, mut encoder) = start();
    assert!(!encoder.draw_paths_from_intermediate(&tight, &paths, span(0, 1), bounds(0)));
    assert_eq!(encoder.instance_offset, 256);
    assert_eq!(
        encoder.list.commands[drawn..],
        [
            Command::SetPipeline(Pipeline::PathSprites),
            unit_vertices(),
            viewport_bytes(2),
            Command::SetFragmentTexture { index: 4, texture: TextureSlot::PathIntermediate },
        ]
    );
}

#[test]
fn offsets_beyond_all_others_stay() {
    let ctx = context(usize::MAX);
    let mut encoder = FrameEncoder::begin(&ctx);
    encoder.instance_offset = usize::MAX;
    assert!(!encoder.draw_quads(&ctx, &instances(1, 1), span(0, 1)));
    assert_eq!(encoder.instance_offset, usize::MAX);
    assert_eq!(encoder.list.len(), 1);
}

#[test]
fn a_frame_that_does_not_fit_ends_its_render_pass() {
    let ctx = context(5);
    let mut scene = Scene::new(STRIDE);
    scene.quads = instances(1, 10);
    scene.batches.push(PrimitiveBatch::Quads(span(0, 1)));
    let mut frame = Frame::begin(&ctx);
    frame.advance(&ctx, &scene, &ShaderPassPipelines::new());
    assert_eq!(frame.status, FrameStatus::TooLarge);
    assert_eq!(frame.encoder.list.len(), 7);
    assert_eq!(frame.encoder.list.commands[6], Command::EndEncoding);
}

#[test]
fn sprites_are_drawn_with_their_atlas() {
    let ctx = context(1000);
    let sprites = instances(2, 4);
    let texture = AtlasTexture { id: AtlasTextureId(6), width: 512, height: 256 };
    let mut encoder = FrameEncoder::begin(&ctx);
    assert!(encoder.draw_monochrome_sprites(&ctx, texture, &sprites, span(0, 0)));
    assert_eq!(encoder.list.len(), 1);
    assert!(encoder.draw_polychrome_sprites(&ctx, texture, &sprites, span(0, 2)));
    assert_eq!(
        encoder.list.commands[1..],
        [
            Command::SetPipeline(Pipeline::PolychromeSprites),
            unit_vertices(),
            vertex_instances(1, 0),
            viewport_bytes(2),
            Command::SetVertexBytes {
                index: 3,
                value: VertexConstant::Size(size(DevicePixels(512), DevicePixels(256))),
            },
            fragment_instances(1, 0),
            Command::SetFragmentTexture {
                index: 4,
                texture: TextureSlot::Atlas(AtlasTextureId(6)),
            },
            write(0, vec![0, 1, 2, 3, 4, 5, 6, 7]),
            instanced(2),
        ]
    );
    assert!(encoder.draw_monochrome_sprites(&ctx, texture, &sprites, span(1, 2)));
    assert_eq!(
        encoder.list.commands[10],
        Command::SetPipeline(Pipeline::MonochromeSprites)
    );
    assert_eq!(encoder.instance_offset, 260);
}

#[test]
fn backdrops_are_captured_before_they_are_blurred() {
    let ctx = context(1000);
    let blurs = instances(1, 4);
    let mut encoder = FrameEncoder::begin(&ctx);
    assert!(encoder.draw_backdrop_blur_batch(&ctx, &blurs, span(0, 1)));
    assert_eq!(
        encoder.list.commands[1..],
        [
            Command::EndEncoding,
            Command::CopyTargetToBackdrop { width: 100, height: 50 },
            target_pass(LoadAction::Load),
            Command::SetPipeline(Pipeline::BackdropBlur),
            unit_vertices(),
            vertex_instances(1, 0),
            fragment_instances(1, 0),
            viewport_bytes(2),
            Command::SetFragmentTexture { index: 3, texture: TextureSlot::Backdrop },
            write(0, vec![0, 1, 2, 3]),
            instanced(1),
        ]
    );
    let without = FrameContext { backdrop_texture: false, ..ctx };
    let mut encoder = FrameEncoder::begin(&without);
    assert!(!encoder.draw_backdrop_blur_batch(&without, &blurs, span(0, 1)));
    assert!(!encoder.draw_backdrop_blurs(&without, &blurs, span(0, 1)));
    assert!(encoder.draw_backdrop_blurs(&without, &blurs, span(0, 0)));
}

#[test]
fn paths_are_rasterized_and_copied() {
    let ctx = context(10_000);
    let paths = vec![path(1, 2), path(1, 1)];
    let mut encoder = FrameEncoder::begin(&ctx);
    assert!(encoder.draw_path_batch(&ctx, &paths, span(0, 2), bounds(900)));
    let mut vertices = Vec::new();
    for i in [0u32, 1, 0] {
        push_words(&mut vertices, &[10 + i, 20 + i, 30 + i, 40 + i, 7, 8]);
        push_bounds(&mut vertices, bounds(100));
    }
    // Three vertices of four words, a fill of two and bounds of four.
    assert_eq!(vertices.len(), 3 * 4 * (4 + 2 + 4));
    let mut sprites = bounds_bytes(bounds(100));
    sprites.extend(bounds_bytes(bounds(100)));
    assert_eq!(
        encoder.list.commands[1..],
        [
            Command::EndEncoding,
            Command::BeginPass(RenderPass {
                color: TextureSlot::PathMultisample,
                resolve: Some(TextureSlot::PathIntermediate),
                load: LoadAction::Clear { opaque: false },
                store: StoreAction::MultisampleResolve,
                viewport: None,
            }),
            Command::SetPipeline(Pipeline::PathsRasterization),
            vertex_instances(0, 0),
            viewport_bytes(1),
            fragment_instances(0, 0),
            write(0, vertices),
            Command::Draw { vertex_count: 3 },
            Command::EndEncoding,
            target_pass(LoadAction::Load),
            Command::SetPipeline(Pipeline::PathSprites),
            unit_vertices(),
            viewport_bytes(2),
            Command::SetFragmentTexture { index: 4, texture: TextureSlot::PathIntermediate },
            vertex_instances(1, 256),
            write(256, sprites),
            instanced(2),
        ]
    );
    assert_eq!(encoder.instance_offset, 256 + 32);
}

#[test]
fn paths_of_several_orders_are_copied_as_one() {
    let ctx = FrameContext { multisample: false, ..context(10_000) };
    let paths = vec![path(1, 1), path(2, 1)];
    let mut encoder = FrameEncoder::begin(&ctx);
    assert!(encoder.draw_path_batch(&ctx, &paths, span(0, 2), bounds(900)));
    assert_eq!(
        encoder.list.commands[2],
        Command::BeginPass(RenderPass {
            color: TextureSlot::PathIntermediate,
            resolve: None,
            load: LoadAction::Clear { opaque: false },
            store: StoreAction::Store,
            viewport: None,
        })
    );
    let n = encoder.list.len();
    assert_eq!(encoder.list.commands[n - 2], write(256, bounds_bytes(bounds(900))));
    assert_eq!(encoder.list.commands[n - 1], instanced(1));
}

#[test]
fn paths_need_a_texture_and_space() {
    let paths = vec![path(1, 3)];
    let without = FrameContext { path_texture: false, ..context(10_000) };
    let mut encoder = FrameEncoder::begin(&without);
    assert!(!encoder.draw_path_batch(&without, &paths, span(0, 1), bounds(0)));
    assert!(encoder.draw_path_batch(&without, &paths, span(1, 1), bounds(0)));
    let tight = context(119);
    let mut encoder = FrameEncoder::begin(&tight);
    assert!(!encoder.draw_paths_to_intermediate(&tight, &paths, span(0, 1)));
    assert_eq!(encoder.list.len(), 4);
    let vertices_only = context(120);
    let mut encoder = FrameEncoder::begin(&vertices_only);
    assert!(!encoder.draw_path_batch(&vertices_only, &paths, span(0, 1), bounds(0)));
    assert!(!encoder.draw_paths_from_intermediate(
        &vertices_only,
        &paths,
        span(0, 1),
        bounds(0)
    ));
}

fn surface(pixel_format: u32) -> PaintSurface {
    PaintSurface {
        bounds: bounds(1),
        content_mask: ContentMask { bounds: bounds(9) },
        image_buffer: ImageBuffer {
            pixel_format,
            width: 40,
            height: 30,
            luma: PlaneSize { width: 40, height: 30 },
            chroma: PlaneSize { width: 20, height: 15 },
        },
    }
}

#[test]
fn surfaces_are_drawn_by_their_format() {
    let ctx = context(1000);
    let mut scene = Scene::new(STRIDE);
    scene.surfaces.push(surface(PIXEL_FORMAT_420_BIPLANAR_FULL_RANGE));
    scene.surfaces.push(surface(PIXEL_FORMAT_32BGRA));
    let mut placed = bounds_bytes(bounds(1));
    placed.extend(bounds_bytes(bounds(9)));
    let mut encoder = FrameEncoder::begin(&ctx);
    assert!(encoder.draw_surfaces(&ctx, &scene, span(0, 2)));
    let plane = |surface: usize, plane: usize, pixel_format, width: usize, height: usize| {
        TextureSlot::Surface(SurfacePlane { surface, plane, pixel_format, width, height })
    };
    let texture_size = || Command::SetVertexBytes {
        index: 3,
        value: VertexConstant::Size(size(DevicePixels(40), DevicePixels(30))),
    };
    assert_eq!(
        encoder.list.commands[1..],
        [
            unit_vertices(),
            viewport_bytes(2),
            vertex_instances(1, 0),
            texture_size(),
            Command::SetPipeline(Pipeline::Surfaces),
            Command::SetFragmentTexture {
                index: 4,
                texture: plane(0, 0, PixelFormat::R8Unorm, 40, 30),
            },
            Command::SetFragmentTexture {
                index: 5,
                texture: plane(0, 1, PixelFormat::Rg8Unorm, 20, 15),
            },
            write(0, placed.clone()),
            Command::Draw { vertex_count: 6 },
            vertex_instances(1, 256),
            texture_size(),
            Command::SetPipeline(Pipeline::SurfacesBgra),
            Command::SetFragmentTexture {
                index: 4,
                texture: plane(1, 0, PixelFormat::Bgra8Unorm, 40, 30),
            },
            write(256, placed),
            Command::Draw { vertex_count: 6 },
        ]
    );
    assert_eq!(encoder.instance_offset, 256 + STRIDE);
    let tight = context(256 + STRIDE - 1);
    let mut encoder = FrameEncoder::begin(&tight);
    assert!(!encoder.draw_surfaces(&tight, &scene, span(0, 2)));
    assert_eq!(encoder.instance_offset, 256);
}

#[test]
fn unknown_batches_are_not_drawn() {
    let mut scene = Scene::new(STRIDE);
    assert!(scene.is_wf());
    scene.surfaces.push(surface(0));
    scene.batches.push(PrimitiveBatch::Surfaces(span(0, 1)));
    assert!(!scene.is_wf());
    scene.batches[0] = PrimitiveBatch::Surfaces(span(1, 1));
    assert!(scene.is_wf());
    scene.batches[0] = PrimitiveBatch::SubpixelSprites {
        texture: AtlasTexture { id: AtlasTextureId(0), width: 1, height: 1 },
        range: span(0, 0),
    };
    assert!(!scene.is_wf());
    for batch in [
        PrimitiveBatch::Shadows(span(0, 1)),
        PrimitiveBatch::BackdropBlurs(span(0, 1)),
        PrimitiveBatch::Quads(span(0, 1)),
        PrimitiveBatch::Paths { range: span(0, 1), spanning_bounds: bounds(0) },
        PrimitiveBatch::Underlines(span(1, 0)),
        PrimitiveBatch::ShaderPasses(span(0, 1)),
    ] {
        scene.batches[0] = batch;
        assert!(!scene.is_wf());
    }
    scene.batches.clear();
    scene.quads = Instances { count: 2, stride: 3, bytes: vec![0; 5] };
    assert!(!scene.is_wf());
    scene.quads = Instances { count: usize::MAX, stride: 2, bytes: vec![] };
    assert!(!scene.is_wf());
}

fn renderer(has_unified_memory: bool) -> MetalRenderer {
    let device = DeviceInfo {
        is_removable: false,
        is_low_power: false,
        has_unified_memory,
        supports_apple1: false,
    };
    MetalRenderer::new(&device, false)
}

/// Runs a rendering to its end, with shaders of an odd identifier failing to compile.
fn finish(
    renderer: &mut MetalRenderer,
    pool: &mut InstanceBufferPool<u32>,
    plan: RenderPlan,
    scene: &Scene,
) -> Result<(Submission<u32>, Vec<u64>), RenderError> {
    let mut compiled = Vec::new();
    let mut progress = plan.acquire(pool);
    loop {
        progress = match progress {
            Progress::AllocateBuffer(request) => request.provide(1),
            Progress::Encode(ready) => renderer.draw_primitives_to_texture(ready, scene),
            Progress::CompileShader(request) => {
                let id = scene.shader_passes[request.pass].shader_id;
                compiled.push(id);
                let pipeline = if id % 2 == 0 { Some(id + 1000) } else { None };
                renderer.provide_pipeline(request, scene, pipeline)
            }
            Progress::Retry(request) => request.retry(pool),
            Progress::Submit(submission) => return Ok((submission, compiled)),
            Progress::Failed(error) => return Err(error),
        };
    }
}

#[test]
fn an_empty_scene_only_clears() {
    let mut renderer = renderer(false);
    let mut pool = InstanceBufferPool::default();
    let plan = renderer.draw(viewport(), true).unwrap();
    let (submission, compiled) =
        finish(&mut renderer, &mut pool, plan, &Scene::new(STRIDE)).unwrap();
    assert_eq!(
        submission.commands.commands,
        vec![
            target_pass(LoadAction::Clear { opaque: true }),
            Command::EndEncoding,
            Command::SyncInstances { length: 0 },
        ]
    );
    assert_eq!(compiled, vec![]);
    assert_eq!(submission.buffer.metal_buffer, 1);
}

#[test]
fn written_bytes_are_announced_without_unified_memory() {
    let mut scene = Scene::new(STRIDE);
    scene.quads = instances(3, 10);
    scene.batches.push(PrimitiveBatch::Quads(span(0, 3)));
    let mut pool = InstanceBufferPool::default();
    for unified in [false, true] {
        let mut renderer = renderer(unified);
        let plan = renderer.draw(viewport(), true).unwrap();
        let (submission, _) = finish(&mut renderer, &mut pool, plan, &scene).unwrap();
        let last = submission.commands.commands.last().unwrap();
        if unified {
            assert_eq!(*last, Command::EndEncoding);
        } else {
            assert_eq!(*last, Command::SyncInstances { length: 30 });
        }
    }
}

#[test]
fn shaders_are_compiled_once_and_skipped_when_broken() {
    let mut renderer = renderer(true);
    renderer.update_drawable_size(viewport());
    let mut pool = InstanceBufferPool::default();
    let mut scene = Scene::new(STRIDE);
    for (id, samples) in [(2, false), (3, false), (2, true), (3, true)] {
        scene.shader_passes.push(shader_pass(id, samples));
    }
    scene.batches.push(PrimitiveBatch::ShaderPasses(span(0, 2)));
    scene.batches.push(PrimitiveBatch::ShaderPasses(span(2, 4)));
    assert!(scene.is_wf());
    let plan = renderer.draw(viewport(), true).unwrap();
    let (submission, compiled) = finish(&mut renderer, &mut pool, plan, &scene).unwrap();
    assert_eq!(compiled, vec![2, 3, 3]);
    let drawn = |samples: bool| {
        let mut commands = vec![
            Command::SetPipeline(Pipeline::ShaderPass(1002)),
            unit_vertices(),
            Command::SetVertexBytes { index: 1, value: VertexConstant::Bounds(bounds(5)) },
            viewport_bytes(2),
            Command::SetFragmentBytes { index: 0, bytes: vec![1, 2, 3] },
        ];
        if samples {
            commands.push(Command::SetFragmentTexture {
                index: 0,
                texture: TextureSlot::Backdrop,
            });
            commands.push(Command::SetFragmentSampler { index: 0 });
        }
        commands.push(Command::Draw { vertex_count: 6 });
        commands
    };
    let mut expected = vec![target_pass(LoadAction::Clear { opaque: true })];
    expected.extend(drawn(false));
    expected.extend([
        Command::EndEncoding,
        Command::BeginPass(RenderPass {
            color: TextureSlot::Backdrop,
            resolve: None,
            load: LoadAction::DontCare,
            store: StoreAction::Store,
            viewport: Some(viewport()),
        }),
        Command::SetPipeline(Pipeline::SceneFlip),
        unit_vertices(),
        Command::SetFragmentTexture { index: 0, texture: TextureSlot::Target },
        Command::Draw { vertex_count: 6 },
        Command::EndEncoding,
        target_pass(LoadAction::Load),
    ]);
    expected.extend(drawn(true));
    expected.push(Command::EndEncoding);
    assert_eq!(submission.commands.commands, expected);
    let (_, again) = finish(&mut renderer, &mut pool, plan, &scene).unwrap();
    assert_eq!(again, vec![3, 3]);
}

#[test]
fn waiting_frames_say_for_which_pass() {
    let ctx = context(0);
    let mut scene = Scene::new(STRIDE);
    scene.shader_passes.push(shader_pass(8, false));
    scene.shader_passes.push(shader_pass(4, false));
    scene.batches.push(PrimitiveBatch::ShaderPasses(span(0, 2)));
    let mut cache = ShaderPassPipelines::new();
    assert_eq!(cache.shader_pass_pipeline(&scene.shader_passes[0]), None);
    cache.record(&scene.shader_passes[0], None);
    assert_eq!(cache.shader_pass_pipeline(&scene.shader_passes[0]), None);
    cache.record(&scene.shader_passes[0], Some(77));
    assert_eq!(cache.shader_pass_pipeline(&scene.shader_passes[0]), Some(77));
    let mut frame = Frame::begin(&ctx);
    assert_eq!(frame.awaited_pass(), None);
    frame.advance(&ctx, &scene, &cache);
    assert_eq!(frame.status, FrameStatus::NeedsPipeline);
    assert_eq!(frame.awaited_pass(), Some(1));
    assert_eq!(frame.cursor, Cursor::Pass { batch: 0, pass: 1 });
    let before = frame.encoder.list.len();
    frame.supply(&ctx, &scene, None);
    assert_eq!(frame.encoder.list.len(), before);
    frame.advance(&ctx, &scene, &cache);
    assert_eq!(frame.status, FrameStatus::Finished);
    assert_eq!(frame.awaited_pass(), None);
}

#[test]
fn buffers_grow_until_the_scene_fits() {
    let mut renderer = renderer(false);
    let mut pool: InstanceBufferPool<u32> = InstanceBufferPool::default();
    pool.reset(100);
    let mut scene = Scene::new(STRIDE);
    scene.quads = instances(10, 25);
    scene.batches.push(PrimitiveBatch::Quads(span(0, 10)));
    let plan = renderer.draw(viewport(), true).unwrap();
    let Progress::AllocateBuffer(request) = plan.acquire(&mut pool) else {
        panic!("an empty pool has no buffer");
    };
    assert_eq!(
        request.allocation,
        BufferAllocation { size: 100, options: ResourceOptions::Managed }
    );
    let Progress::Encode(ready) = request.provide(5) else {
        panic!("the buffer is there");
    };
    assert_eq!(ready.buffer, InstanceBuffer { metal_buffer: 5, size: 100 });
    let Progress::Retry(retry) = renderer.draw_primitives_to_texture(ready, &scene) else {
        panic!("the scene is too large");
    };
    assert_eq!(
        retry.error,
        SceneTooLarge {
            paths: 0,
            shadows: 0,
            quads: 10,
            underlines: 0,
            monochrome_sprites: 0,
            polychrome_sprites: 0,
            surfaces: 0,
        }
    );
    let Progress::AllocateBuffer(request) = retry.retry(&mut pool) else {
        panic!("the pool was emptied");
    };
    assert_eq!(request.allocation.size, 200);
    let (submission, _) = finish(&mut renderer, &mut pool, plan, &scene).unwrap();
    assert_eq!(submission.buffer.size, 400);
    assert_eq!(pool.buffer_size, 400);
}

#[test]
fn a_scene_that_never_fits_is_given_up() {
    let mut renderer = renderer(true);
    let mut pool: InstanceBufferPool<u32> = InstanceBufferPool::default();
    let mut scene = Scene::new(STRIDE);
    scene.backdrop_blurs = instances(1, 4);
    scene.batches.push(PrimitiveBatch::BackdropBlurs(span(0, 1)));
    let plan = renderer.draw(viewport(), true).unwrap();
    assert_eq!(
        finish(&mut renderer, &mut pool, plan, &scene),
        Err(RenderError::InstanceBufferTooLarge(256 * 1024 * 1024))
    );
    renderer.update_drawable_size(viewport());
    let plan = renderer.draw(viewport(), true).unwrap();
    assert!(finish(&mut renderer, &mut pool, plan, &scene).is_ok());
}

#[test]
fn a_larger_buffer_changes_nothing() {
    let mut scene = Scene::new(STRIDE);
    scene.quads = instances(10, 25);
    scene.paths = vec![path(1, 2)];
    scene.batches.push(PrimitiveBatch::Quads(span(0, 10)));
    scene.batches.push(PrimitiveBatch::Paths { range: span(0, 1), spanning_bounds: bounds(0) });
    let cache = ShaderPassPipelines::new();
    let encode = |buffer_size: usize| {
        let ctx = context(buffer_size);
        let mut frame = Frame::begin(&ctx);
        frame.advance(&ctx, &scene, &cache);
        frame
    };
    assert_eq!(encode(527).status, FrameStatus::TooLarge);
    assert_eq!(encode(528).status, FrameStatus::Finished);
    assert_eq!(encode(528), encode(100_000));
}

#[test]
fn submissions_end_as_their_operation_asks() {
    let mut pool: InstanceBufferPool<u32> = InstanceBufferPool::default();
    let scene = Scene::new(STRIDE);
    let mut steps = |unified: bool, start: &dyn Fn(&mut MetalRenderer) -> RenderPlan| {
        let mut renderer = renderer(unified);
        let plan = start(&mut renderer);
        finish(&mut renderer, &mut pool, plan, &scene).unwrap().0.steps
    };
    assert_eq!(
        steps(true, &|r| r.draw(viewport(), true).unwrap()),
        vec![ReleaseBufferOnCompletion, PresentDrawable, Commit]
    );
    assert_eq!(
        steps(true, &|r| {
            r.set_presents_with_transaction(true);
            r.draw(viewport(), true).unwrap()
        }),
        vec![ReleaseBufferOnCompletion, Commit, WaitUntilScheduled, PresentNow]
    );
    assert_eq!(
        steps(false, &|r| r.render_to_image(viewport(), true).unwrap()),
        vec![ReleaseBufferOnCompletion, Commit, WaitUntilCompleted, ReadPixels]
    );
    assert_eq!(
        steps(false, &|r| r.render_to_surface(viewport()).unwrap()),
        vec![ReleaseBufferOnCompletion, Commit, WaitUntilCompleted]
    );
    assert_eq!(
        steps(true, &|r| r.render_scene_to_image(viewport()).unwrap()),
        vec![ReleaseBufferOnCompletion, Commit, WaitUntilCompleted, ReadPixels]
    );
    assert_eq!(
        steps(false, &|r| r.render_scene_to_image(viewport()).unwrap()),
        vec![
            ReleaseBufferOnCompletion,
            SynchronizeTarget,
            Commit,
            WaitUntilCompleted,
            ReadPixels
        ]
    );
    assert_eq!(
        steps(false, &|r| r.render_scene(viewport()).unwrap()),
        vec![ReleaseBufferOnCompletion, Commit]
    );
}

/// The writes of a frame with everything in it are aligned, in order, apart from one another and
/// within the buffer, and each stands before its draw.
#[test]
fn instances_stay_apart() {
    let mut scene = Scene::new(STRIDE);
    scene.shadows = instances(4, 33);
    scene.quads = instances(7, 25);
    scene.monochrome_sprites = instances(5, 300);
    scene.backdrop_blurs = instances(2, 40);
    scene.paths = vec![path(1, 3), path(2, 4)];
    scene.surfaces = vec![surface(PIXEL_FORMAT_32BGRA); 3];
    let texture = AtlasTexture { id: AtlasTextureId(1), width: 8, height: 8 };
    scene.batches = vec![
        PrimitiveBatch::Shadows(span(0, 4)),
        PrimitiveBatch::Quads(span(0, 2)),
        PrimitiveBatch::Paths { range: span(0, 2), spanning_bounds: bounds(1) },
        PrimitiveBatch::BackdropBlurs(span(0, 2)),
        PrimitiveBatch::MonochromeSprites { texture, range: span(1, 5) },
        PrimitiveBatch::Surfaces(span(0, 3)),
        PrimitiveBatch::Quads(span(2, 7)),
    ];
    assert!(scene.is_wf());
    let ctx = context(8192);
    let mut frame = Frame::begin(&ctx);
    frame.advance(&ctx, &scene, &ShaderPassPipelines::new());
    assert_eq!(frame.status, FrameStatus::Finished);
    let mut end = 0;
    let mut open = false;
    let mut cleared = false;
    let mut writes = 0;
    for command in &frame.encoder.list.commands {
        match command {
            Command::WriteInstances { offset, bytes } => {
                assert_eq!(offset % 256, 0);
                assert!(*offset >= end);
                end = offset + bytes.len();
                writes += 1;
            }
            Command::BeginPass(pass) => {
                assert!(!open);
                open = true;
                if pass.color == TextureSlot::Target {
                    let expected = if cleared {
                        LoadAction::Load
                    } else {
                        LoadAction::Clear { opaque: true }
                    };
                    assert_eq!(pass.load, expected);
                    cleared = true;
                }
            }
            Command::EndEncoding => {
                assert!(open);
                open = false;
            }
            Command::Draw { .. } | Command::DrawInstanced { .. } => {
                assert!(open);
                writes -= 1;
                assert_eq!(writes, 0);
            }
            _ => {}
        }
    }
    assert!(!open && end <= 8192);
}
