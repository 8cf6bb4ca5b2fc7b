//! What the draws of a frame show, read off its commands as the GPU reads them.
//!
//! A draw takes what is bound when it is made, and the bytes that lie in the instance buffer at the
//! places that are bound. Here the commands of a frame are run to the sequence of its draws, and
//! that is compared with the scene, primitive by primitive.

use crate::commands::{
    BufferSlot, Command, CommandModel, LoadAction, Pipeline, RenderPass, StoreAction, SurfacePlane,
    TextureSlot, VertexConstant,
};
use crate::descriptors::PixelFormat;
use crate::encoder::FrameContext;
use crate::geometry::{word_bytes, Bounds, DevicePixels, ScaledPixels, Size};
use crate::scene::{
    AtlasTexture, Instances, PaintSurface, Path, PrimitiveBatch, Scene, ShaderPass, Span,
};
use vstd::prelude::*;

verus! {

/// A draw: the render pass that it stands in, what is bound for it, and the instance buffer.
pub struct DrawCall {
    pub pass: RenderPass,
    pub pipeline: Option<Pipeline>,
    pub vertex_buffers: Map<u64, (BufferSlot, int)>,
    pub fragment_buffers: Map<u64, (BufferSlot, int)>,
    pub constants: Map<u64, VertexConstant>,
    /// The bytes handed to the fragment function since the previous draw.
    pub uniforms: Map<u64, Seq<u8>>,
    /// The textures bound since the previous draw.
    pub textures: Map<u64, TextureSlot>,
    /// The samplers bound since the previous draw.
    pub samplers: Set<u64>,
    pub vertex_count: int,
    pub instance_count: int,
    /// The bytes of the instance buffer.
    pub memory: Map<int, u8>,
}

/// What a command does that can be seen.
pub enum Event {
    Drawn(DrawCall),
    /// The upper left corner of the target was copied into the backdrop texture.
    Copied { width: u64, height: u64 },
}

/// The GPU between two commands.
pub struct Gpu {
    /// What the next draw takes, but for its numbers of vertices and instances.
    pub next: DrawCall,
    pub open: bool,
    pub events: Seq<Event>,
}

/// No bindings, in a render pass.
pub open spec fn nothing_bound(pass: RenderPass, memory: Map<int, u8>) -> DrawCall {
    DrawCall {
        pass,
        pipeline: None,
        vertex_buffers: Map::empty(),
        fragment_buffers: Map::empty(),
        constants: Map::empty(),
        uniforms: Map::empty(),
        textures: Map::empty(),
        samplers: Set::empty(),
        vertex_count: 0,
        instance_count: 0,
        memory,
    }
}

/// The bytes of the instance buffer after one more write.
pub open spec fn with_write(memory: Map<int, u8>, offset: int, bytes: Seq<u8>) -> Map<int, u8> {
    memory.union_prefer_right(
        Map::new(|at: int| offset <= at < offset + bytes.len(), |at: int| bytes[at - offset]),
    )
}

/// The GPU after a draw.
pub open spec fn gpu_draw(g: Gpu, vertex_count: int, instance_count: int) -> Gpu {
    Gpu {
        next: DrawCall {
            uniforms: Map::empty(),
            textures: Map::empty(),
            samplers: Set::empty(),
            ..g.next
        },
        events: g.events.push(
            Event::Drawn(DrawCall { vertex_count, instance_count, ..g.next }),
        ),
        ..g
    }
}

/// The GPU after one more command.
pub open spec fn gpu_step(g: Gpu, command: CommandModel) -> Gpu {
    match command {
        Command::BeginPass(pass) => Gpu {
            next: nothing_bound(pass, g.next.memory),
            open: true,
            ..g
        },
        Command::EndEncoding => Gpu { open: false, ..g },
        Command::CopyTargetToBackdrop { width, height } => Gpu {
            events: g.events.push(Event::Copied { width, height }),
            ..g
        },
        Command::SetPipeline(pipeline) => Gpu {
            next: DrawCall { pipeline: Some(pipeline), ..g.next },
            ..g
        },
        Command::SetVertexBuffer { index, buffer, offset } => Gpu {
            next: DrawCall {
                vertex_buffers: g.next.vertex_buffers.insert(index, (buffer, offset as int)),
                ..g.next
            },
            ..g
        },
        Command::SetFragmentBuffer { index, buffer, offset } => Gpu {
            next: DrawCall {
                fragment_buffers: g.next.fragment_buffers.insert(index, (buffer, offset as int)),
                ..g.next
            },
            ..g
        },
        Command::SetVertexBytes { index, value } => Gpu {
            next: DrawCall { constants: g.next.constants.insert(index, value), ..g.next },
            ..g
        },
        Command::SetFragmentBytes { index, bytes } => Gpu {
            next: DrawCall { uniforms: g.next.uniforms.insert(index, bytes), ..g.next },
            ..g
        },
        Command::SetFragmentTexture { index, texture } => Gpu {
            next: DrawCall { textures: g.next.textures.insert(index, texture), ..g.next },
            ..g
        },
        Command::SetFragmentSampler { index } => Gpu {
            next: DrawCall { samplers: g.next.samplers.insert(index), ..g.next },
            ..g
        },
        Command::WriteInstances { offset, bytes } => Gpu {
            next: DrawCall {
                memory: with_write(g.next.memory, offset as int, bytes),
                ..g.next
            },
            ..g
        },
        Command::Draw { vertex_count } => gpu_draw(g, vertex_count as int, 1),
        Command::DrawInstanced { vertex_count, instance_count } => gpu_draw(
            g,
            vertex_count as int,
            instance_count as int,
        ),
        Command::SyncInstances { .. } => g,
    }
}

/// The GPU after the first `n` of `commands`.
pub open spec fn gpu_from(g: Gpu, commands: Seq<CommandModel>, n: int) -> Gpu
    decreases n,
{
    if n <= 0 {
        g
    } else {
        gpu_step(gpu_from(g, commands, n - 1), commands[n - 1])
    }
}

/// The GPU before the first command.
pub open spec fn gpu_start() -> Gpu {
    Gpu {
        next: nothing_bound(arbitrary(), Map::empty()),
        open: false,
        events: Seq::empty(),
    }
}

/// The GPU after all of `commands`.
pub open spec fn gpu(commands: Seq<CommandModel>) -> Gpu {
    gpu_from(gpu_start(), commands, commands.len() as int)
}

proof fn lemma_gpu_prefix(g: Gpu, a: Seq<CommandModel>, b: Seq<CommandModel>, n: int)
    requires
        n <= a.len(),
    ensures
        gpu_from(g, a + b, n) == gpu_from(g, a, n),
    decreases n,
{
    if n > 0 {
        lemma_gpu_prefix(g, a, b, n - 1);
        assert((a + b)[n - 1] == a[n - 1]);
    }
}

proof fn lemma_gpu_concat(a: Seq<CommandModel>, b: Seq<CommandModel>, n: int)
    requires
        0 <= n <= b.len(),
    ensures
        gpu_from(gpu_start(), a + b, a.len() + n) == gpu_from(gpu(a), b, n),
    decreases n,
{
    if n > 0 {
        lemma_gpu_concat(a, b, n - 1);
        assert((a + b)[a.len() + n - 1] == b[n - 1]);
    } else {
        lemma_gpu_prefix(gpu_start(), a, b, a.len() as int);
    }
}

/// More commands are run from where the first ones led to.
pub proof fn lemma_gpu_more(a: Seq<CommandModel>, b: Seq<CommandModel>)
    ensures
        gpu(a + b) == gpu_from(gpu(a), b, b.len() as int),
{
    lemma_gpu_concat(a, b, b.len() as int);
}

/// The four bytes of a word lie at `at`.
pub open spec fn holds_word(memory: Map<int, u8>, at: int, word: u32) -> bool {
    &&& memory.contains_key(at) && memory[at] == word_bytes(word)[0]
    &&& memory.contains_key(at + 1) && memory[at + 1] == word_bytes(word)[1]
    &&& memory.contains_key(at + 2) && memory[at + 2] == word_bytes(word)[2]
    &&& memory.contains_key(at + 3) && memory[at + 3] == word_bytes(word)[3]
}

/// A rectangle lies at `at`: its origin, then its size.
pub open spec fn holds_rectangle(
    memory: Map<int, u8>,
    at: int,
    bounds: Bounds<ScaledPixels>,
) -> bool {
    &&& holds_word(memory, at, bounds.origin.x.0)
    &&& holds_word(memory, at + 4, bounds.origin.y.0)
    &&& holds_word(memory, at + 8, bounds.size.width.0)
    &&& holds_word(memory, at + 12, bounds.size.height.0)
}

/// The primitives of a run lie at `at`, one behind the other, as they lie in the scene.
pub open spec fn holds_primitives(
    memory: Map<int, u8>,
    at: int,
    instances: Instances,
    range: Span,
) -> bool {
    let stride = instances.stride as int;
    forall|a: int|
        at <= a < at + (range.end - range.start) * stride ==> {
            &&& #[trigger] memory.contains_key(a)
            &&& memory[a] == instances.bytes@[range.start * stride + (a - at)]
        }
}

/// The bytes that a vertex of a path takes up.
pub open spec fn vertex_size(path: Path) -> int {
    4 * (8 + path.color.words@.len() as int)
}

/// The bytes that the vertices of the paths from `start` up to `p` take up.
pub open spec fn path_place(paths: Seq<Path>, start: int, p: int) -> int
    decreases p - start,
{
    if p <= start {
        0
    } else {
        path_place(paths, start, p - 1) + paths[p - 1].vertices@.len() * vertex_size(paths[p - 1])
    }
}

/// Vertex `v` of a path lies at `at`: its positions, the fill of its path, and the clipped bounds
/// of its path.
pub open spec fn holds_vertex(memory: Map<int, u8>, at: int, path: Path, v: int) -> bool {
    let fill = path.color.words@;
    &&& holds_word(memory, at, path.vertices@[v].xy_position.x.0)
    &&& holds_word(memory, at + 4, path.vertices@[v].xy_position.y.0)
    &&& holds_word(memory, at + 8, path.vertices@[v].st_position.x)
    &&& holds_word(memory, at + 12, path.vertices@[v].st_position.y)
    &&& forall|i: int|
        0 <= i < fill.len() ==> holds_word(memory, at + 16 + 4 * i, #[trigger] fill[i])
    &&& holds_rectangle(memory, at + 16 + 4 * fill.len(), path.clipped_bounds)
}

/// Every vertex of every path of a run lies behind `at`, each path behind the previous one.
pub open spec fn holds_vertices(
    memory: Map<int, u8>,
    at: int,
    paths: Seq<Path>,
    range: Span,
) -> bool {
    forall|p: int, v: int|
        range.start <= p < range.end && 0 <= v < paths[p].vertices@.len() ==> {
            let vertex = #[trigger] paths[p].vertices@[v];
            holds_vertex(
                memory,
                at + path_place(paths, range.start as int, p) + v * vertex_size(paths[p]),
                paths[p],
                v,
            )
        }
}

/// The number of vertices of the paths from `start` up to `p`.
pub open spec fn vertices_before(paths: Seq<Path>, start: int, p: int) -> int
    decreases p - start,
{
    if p <= start {
        0
    } else {
        vertices_before(paths, start, p - 1) + paths[p - 1].vertices@.len()
    }
}

/// The draw reads the unit square from slot 0, and the size of the viewport from a slot.
pub open spec fn draws_squares(ctx: FrameContext, call: DrawCall, viewport_slot: u64) -> bool {
    &&& call.vertex_count == 6
    &&& call.vertex_buffers.contains_key(0)
    &&& call.vertex_buffers[0] == (BufferSlot::UnitVertices, 0int)
    &&& call.constants.contains_key(viewport_slot)
    &&& call.constants[viewport_slot] == VertexConstant::Size(ctx.viewport_size)
}

/// The vertex function reads instances from the buffer slot.
pub open spec fn reads_instances(call: DrawCall, slot: u64) -> bool {
    &&& call.vertex_buffers.contains_key(slot)
    &&& call.vertex_buffers[slot].0 == BufferSlot::Instances
}

/// The fragment function reads the same instances.
pub open spec fn shares_instances(call: DrawCall, slot: u64) -> bool {
    &&& call.fragment_buffers.contains_key(slot)
    &&& call.fragment_buffers[slot] == call.vertex_buffers[slot]
}

/// The draw goes to the target, over what is there or over the cleared target.
pub open spec fn goes_to_target(ctx: FrameContext, pass: RenderPass) -> bool {
    &&& pass.color == TextureSlot::Target
    &&& pass.resolve is None
    &&& pass.store == StoreAction::Store
    &&& pass.viewport == Some(ctx.viewport_size)
    &&& pass.load == LoadAction::Load || pass.load == (LoadAction::Clear { opaque: ctx.opaque })
}

/// A draw of a run of primitives: as many instances as the run has, and their bytes.
pub open spec fn draws_run(
    ctx: FrameContext,
    call: DrawCall,
    pipeline: Pipeline,
    instances: Instances,
    range: Span,
) -> bool {
    &&& goes_to_target(ctx, call.pass)
    &&& call.pipeline == Some(pipeline)
    &&& draws_squares(ctx, call, 2)
    &&& reads_instances(call, 1)
    &&& shares_instances(call, 1)
    &&& call.instance_count == range.end - range.start
    &&& holds_primitives(call.memory, call.vertex_buffers[1].1, instances, range)
    &&& call.uniforms == Map::<u64, Seq<u8>>::empty()
    &&& call.samplers == Set::<u64>::empty()
}

/// A draw of a run of sprites of an atlas texture, with the size of the texture.
pub open spec fn draws_sprites(
    ctx: FrameContext,
    call: DrawCall,
    pipeline: Pipeline,
    texture: AtlasTexture,
    instances: Instances,
    range: Span,
) -> bool {
    &&& draws_run(ctx, call, pipeline, instances, range)
    &&& call.textures == map![4u64 => TextureSlot::Atlas(texture.id)]
    &&& call.constants.contains_key(3)
    &&& call.constants[3] == VertexConstant::Size(
        Size {
            width: DevicePixels(texture.width as i32),
            height: DevicePixels(texture.height as i32),
        },
    )
}

/// A draw of the vertices of a run of paths, into the cleared intermediate texture, over several
/// samples if there is a texture for them.
pub open spec fn draws_path_vertices(
    ctx: FrameContext,
    call: DrawCall,
    paths: Seq<Path>,
    range: Span,
) -> bool {
    &&& call.pass.load == (LoadAction::Clear { opaque: false })
    &&& if ctx.multisample {
        &&& call.pass.color == TextureSlot::PathMultisample
        &&& call.pass.resolve == Some(TextureSlot::PathIntermediate)
        &&& call.pass.store == StoreAction::MultisampleResolve
    } else {
        &&& call.pass.color == TextureSlot::PathIntermediate
        &&& call.pass.resolve is None
        &&& call.pass.store == StoreAction::Store
    }
    &&& call.pipeline == Some(Pipeline::PathsRasterization)
    &&& call.vertex_count == vertices_before(paths, range.start as int, range.end as int)
    &&& call.instance_count == 1
    &&& reads_instances(call, 0)
    &&& shares_instances(call, 0)
    &&& call.constants.contains_key(1)
    &&& call.constants[1] == VertexConstant::Size(ctx.viewport_size)
    &&& holds_vertices(call.memory, call.vertex_buffers[0].1, paths, range)
    &&& call.textures == Map::<u64, TextureSlot>::empty()
}

/// A draw that copies a run of paths from the intermediate texture: with a sprite of its own
/// clipped bounds for each if the ends of the run have one draw order, else with one sprite around
/// all of them.
pub open spec fn copies_paths(
    ctx: FrameContext,
    call: DrawCall,
    paths: Seq<Path>,
    range: Span,
    spanning_bounds: Bounds<ScaledPixels>,
) -> bool {
    let at = call.vertex_buffers[1].1;
    &&& goes_to_target(ctx, call.pass)
    &&& call.pipeline == Some(Pipeline::PathSprites)
    &&& draws_squares(ctx, call, 2)
    &&& reads_instances(call, 1)
    &&& call.textures == map![4u64 => TextureSlot::PathIntermediate]
    &&& if paths[range.start as int].order == paths[range.end - 1].order {
        &&& call.instance_count == range.end - range.start
        &&& forall|p: int|
            range.start <= p < range.end ==> holds_rectangle(
                call.memory,
                at + 16 * (p - range.start),
                (#[trigger] paths[p]).clipped_bounds,
            )
    } else {
        &&& call.instance_count == 1
        &&& holds_rectangle(call.memory, at, spanning_bounds)
    }
}

/// A draw of surface `i`: its own placement, its own extent and its own planes, and no other
/// texture.
pub open spec fn draws_surface(
    ctx: FrameContext,
    call: DrawCall,
    surface: PaintSurface,
    i: int,
) -> bool {
    let image = surface.image_buffer;
    let at = call.vertex_buffers[1].1;
    &&& goes_to_target(ctx, call.pass)
    &&& draws_squares(ctx, call, 2)
    &&& call.instance_count == 1
    &&& reads_instances(call, 1)
    &&& holds_rectangle(call.memory, at, surface.bounds)
    &&& holds_rectangle(call.memory, at + 16, surface.content_mask.bounds)
    &&& call.constants.contains_key(3)
    &&& call.constants[3] == VertexConstant::Size(
        Size {
            width: DevicePixels(image.width as i32),
            height: DevicePixels(image.height as i32),
        },
    )
    &&& if image.pixel_format == 0x4247_5241 {
        &&& call.pipeline == Some(Pipeline::SurfacesBgra)
        &&& call.textures == map![
            4u64 => TextureSlot::Surface(
                SurfacePlane {
                    surface: i as usize,
                    plane: 0,
                    pixel_format: PixelFormat::Bgra8Unorm,
                    width: image.width,
                    height: image.height,
                },
            ),
        ]
    } else {
        &&& call.pipeline == Some(Pipeline::Surfaces)
        &&& call.textures == map![
            4u64 => TextureSlot::Surface(
                SurfacePlane {
                    surface: i as usize,
                    plane: 0,
                    pixel_format: PixelFormat::R8Unorm,
                    width: image.luma.width,
                    height: image.luma.height,
                },
            ),
            5u64 => TextureSlot::Surface(
                SurfacePlane {
                    surface: i as usize,
                    plane: 1,
                    pixel_format: PixelFormat::Rg8Unorm,
                    width: image.chroma.width,
                    height: image.chroma.height,
                },
            ),
        ]
    }
}

/// A draw that turns the target upside down into the backdrop texture.
pub open spec fn flips_scene(ctx: FrameContext, call: DrawCall) -> bool {
    &&& call.pass.color == TextureSlot::Backdrop
    &&& call.pass.resolve is None
    &&& call.pass.store == StoreAction::Store
    &&& call.pass.viewport == Some(ctx.viewport_size)
    &&& call.pipeline == Some(Pipeline::SceneFlip)
    &&& call.vertex_count == 6
    &&& call.instance_count == 1
    &&& call.vertex_buffers.contains_key(0)
    &&& call.vertex_buffers[0] == (BufferSlot::UnitVertices, 0int)
    &&& call.textures == map![0u64 => TextureSlot::Target]
}

/// A draw of a shader pass: in its own bounds, with its own uniforms, and with the captured scene
/// exactly if it samples it and there is a texture for it.
pub open spec fn draws_pass(
    ctx: FrameContext,
    call: DrawCall,
    pass: ShaderPass,
    pipeline: u64,
) -> bool {
    &&& goes_to_target(ctx, call.pass)
    &&& call.pipeline == Some(Pipeline::ShaderPass(pipeline))
    &&& draws_squares(ctx, call, 2)
    &&& call.instance_count == 1
    &&& call.constants.contains_key(1)
    &&& call.constants[1] == VertexConstant::Bounds(pass.bounds)
    &&& call.uniforms == map![0u64 => pass.uniforms@]
    &&& if pass.samples_scene && ctx.backdrop_texture {
        &&& call.textures == map![0u64 => TextureSlot::Backdrop]
        &&& call.samplers == set![0u64]
    } else {
        &&& call.textures == Map::<u64, TextureSlot>::empty()
        &&& call.samplers == Set::<u64>::empty()
    }
}

/// What a frame shows at one point.
pub enum Shown {
    Shadows(Span),
    Quads(Span),
    Underlines(Span),
    MonochromeSprites(AtlasTexture, Span),
    PolychromeSprites(AtlasTexture, Span),
    /// The target is copied into the backdrop texture.
    Backdrop,
    BackdropBlurs(Span),
    PathVertices(Span),
    PathCopies(Span, Bounds<ScaledPixels>),
    /// The surface of that index.
    Surface(int),
    /// The target is turned upside down into the backdrop texture.
    SceneFlip,
    /// The shader pass of that index, with its pipeline.
    Pass(int, u64),
}

/// A draw, or a copy, shows something of the scene.
pub open spec fn shows(ctx: FrameContext, scene: Scene, event: Event, shown: Shown) -> bool {
    match event {
        Event::Copied { width, height } => {
            &&& shown is Backdrop
            &&& width == ctx.viewport_size.width.0 as u64
            &&& height == ctx.viewport_size.height.0 as u64
        },
        Event::Drawn(call) => match shown {
            Shown::Shadows(range) => draws_run(
                ctx,
                call,
                Pipeline::Shadows,
                scene.shadows,
                range,
            ) && call.textures == Map::<u64, TextureSlot>::empty(),
            Shown::Quads(range) => draws_run(ctx, call, Pipeline::Quads, scene.quads, range)
                && call.textures == Map::<u64, TextureSlot>::empty(),
            Shown::Underlines(range) => draws_run(
                ctx,
                call,
                Pipeline::Underlines,
                scene.underlines,
                range,
            ) && call.textures == Map::<u64, TextureSlot>::empty(),
            Shown::MonochromeSprites(texture, range) => draws_sprites(
                ctx,
                call,
                Pipeline::MonochromeSprites,
                texture,
                scene.monochrome_sprites,
                range,
            ),
            Shown::PolychromeSprites(texture, range) => draws_sprites(
                ctx,
                call,
                Pipeline::PolychromeSprites,
                texture,
                scene.polychrome_sprites,
                range,
            ),
            Shown::Backdrop => false,
            Shown::BackdropBlurs(range) => draws_run(
                ctx,
                call,
                Pipeline::BackdropBlur,
                scene.backdrop_blurs,
                range,
            ) && call.textures == map![3u64 => TextureSlot::Backdrop],
            Shown::PathVertices(range) => draws_path_vertices(ctx, call, scene.paths@, range),
            Shown::PathCopies(range, spanning_bounds) => copies_paths(
                ctx,
                call,
                scene.paths@,
                range,
                spanning_bounds,
            ),
            Shown::Surface(i) => draws_surface(ctx, call, scene.surfaces@[i], i),
            Shown::SceneFlip => flips_scene(ctx, call),
            Shown::Pass(p, pipeline) => draws_pass(ctx, call, scene.shader_passes@[p], pipeline),
        },
    }
}

/// What a run shows: nothing if it is empty.
pub open spec fn if_any(range: Span, shown: Seq<Shown>) -> Seq<Shown> {
    if range.start < range.end {
        shown
    } else {
        Seq::empty()
    }
}

/// What a batch of any kind but shader passes shows.
pub open spec fn batch_shown(batch: PrimitiveBatch) -> Seq<Shown> {
    match batch {
        PrimitiveBatch::Shadows(range) => if_any(range, seq![Shown::Shadows(range)]),
        PrimitiveBatch::BackdropBlurs(range) => seq![Shown::Backdrop] + if_any(
            range,
            seq![Shown::BackdropBlurs(range)],
        ),
        PrimitiveBatch::Quads(range) => if_any(range, seq![Shown::Quads(range)]),
        PrimitiveBatch::Paths { range, spanning_bounds } => if_any(
            range,
            seq![Shown::PathVertices(range), Shown::PathCopies(range, spanning_bounds)],
        ),
        PrimitiveBatch::Underlines(range) => if_any(range, seq![Shown::Underlines(range)]),
        PrimitiveBatch::MonochromeSprites { texture, range } => if_any(
            range,
            seq![Shown::MonochromeSprites(texture, range)],
        ),
        PrimitiveBatch::PolychromeSprites { texture, range } => if_any(
            range,
            seq![Shown::PolychromeSprites(texture, range)],
        ),
        PrimitiveBatch::Surfaces(range) => Seq::new(
            (range.end - range.start) as nat,
            |k: int| Shown::Surface(range.start + k),
        ),
        _ => Seq::empty(),
    }
}

/// What the capture before a run of shader passes shows: one, if any of them samples the scene and
/// there is a texture for it.
pub open spec fn capture_shown(ctx: FrameContext, scene: Scene, range: Span) -> Seq<Shown> {
    if ctx.backdrop_texture && (exists|p: int|
        range.start <= p < range.end && (#[trigger] scene.shader_passes@[p]).samples_scene) {
        seq![Shown::SceneFlip]
    } else {
        Seq::empty()
    }
}

/// What the shader passes of batch `batch` from `start` up to `p` show: each of them that has a
/// pipeline, in order. `pipelines` tells the pipeline of a pass of a batch.
pub open spec fn passes_shown(
    pipelines: spec_fn(int, int) -> Option<u64>,
    batch: int,
    start: int,
    p: int,
) -> Seq<Shown>
    decreases p - start,
{
    if p <= start {
        Seq::empty()
    } else {
        let before = passes_shown(pipelines, batch, start, p - 1);
        match pipelines(batch, p - 1) {
            Some(pipeline) => before.push(Shown::Pass(p - 1, pipeline)),
            None => before,
        }
    }
}

/// What the first `n` batches of a scene show.
pub open spec fn batches_shown(
    ctx: FrameContext,
    scene: Scene,
    pipelines: spec_fn(int, int) -> Option<u64>,
    n: int,
) -> Seq<Shown>
    decreases n,
{
    if n <= 0 {
        Seq::empty()
    } else {
        batches_shown(ctx, scene, pipelines, n - 1) + match scene.batches@[n - 1] {
            PrimitiveBatch::ShaderPasses(range) => capture_shown(ctx, scene, range)
                + passes_shown(pipelines, n - 1, range.start as int, range.end as int),
            batch => batch_shown(batch),
        }
    }
}

/// The events `after` are those of `before` with more behind them, which show `shown`.
pub open spec fn shows_more(
    ctx: FrameContext,
    scene: Scene,
    before: Seq<Event>,
    after: Seq<Event>,
    shown: Seq<Shown>,
) -> bool {
    &&& after.len() == before.len() + shown.len()
    &&& forall|i: int| 0 <= i < before.len() ==> #[trigger] after[i] == before[i]
    &&& forall|i: int|
        before.len() <= i < after.len() ==> shows(
            ctx,
            scene,
            #[trigger] after[i],
            shown[i - before.len()],
        )
}

/// What is shown behind one another is shown together.
pub proof fn lemma_shows_more_concat(
    ctx: FrameContext,
    scene: Scene,
    a: Seq<Event>,
    b: Seq<Event>,
    c: Seq<Event>,
    first: Seq<Shown>,
    second: Seq<Shown>,
)
    requires
        shows_more(ctx, scene, a, b, first),
        shows_more(ctx, scene, b, c, second),
    ensures
        shows_more(ctx, scene, a, c, first + second),
{
    assert forall|i: int| 0 <= i < a.len() implies #[trigger] c[i] == a[i] by {
        assert(c[i] == b[i]);
        assert(b[i] == a[i]);
    }
    assert forall|i: int| a.len() <= i < c.len() implies shows(
        ctx,
        scene,
        #[trigger] c[i],
        (first + second)[i - a.len()],
    ) by {
        if i < b.len() {
            assert(c[i] == b[i]);
        }
    }
}

} // verus!
