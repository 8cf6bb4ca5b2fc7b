//! What holds of every frame: its commands are valid, it clears the target once, its instances
//! stay apart and fit, and a larger instance buffer changes nothing about a frame that fits.

use crate::commands::{
    BufferSlot, Command, CommandModel, LoadAction, Pipeline, RenderPass, TextureSlot,
};
use crate::encoder::{
    backdrop_blur_batch_spec, backdrop_blur_setup, backdrop_capture_commands,
    begin_shader_passes_spec, draw_backdrop_blurs_spec, draw_batch_spec,
    draw_paths_from_intermediate_spec, draw_paths_to_intermediate_spec, draw_shapes_spec,
    draw_sprites_spec, draw_surfaces_from, draw_surfaces_spec, flip_pass, instanced_draw,
    path_batch_spec, path_pass, path_rasterization_commands, path_refusal_commands,
    path_sprite_setup, path_sprites, samples_scene, scene_capture_commands, shader_pass_commands,
    shape_setup, sprite_setup, surface_bind_commands, surface_bytes, surface_commands,
    surface_prologue, surface_texture_commands, target_pass, Encoding, FrameContext,
};
use crate::frame::{
    awaited, batches_left, frame_run, frame_start, frame_step, frame_step_advances, frame_supplied,
    frame_wf, passes_left, passes_of, steps_left, Cursor, FrameModel, FrameStatus,
};
use crate::geometry::{lemma_words_bytes_len, Bounds, ScaledPixels};
use crate::packing::{aligned, aligned_is_least_multiple, placement};
use crate::replay::{
    keeps_target, lemma_replay_concat, may_fill, renders_to_own, replay, replay_from,
    sampled_textures_stay, targets_are_cleared_first_and_once, EncoderState, Replay,
};
use crate::scene::{
    path_vertex_bytes, path_vertex_count, AtlasTexture, Instances, PaintSurface, Path,
    PrimitiveBatch, Scene, ShaderPass, Span, SurfaceBounds, SURFACE_BOUNDS_BYTES,
};
use crate::slots::{SPRITE_INSTANCES, UNIT_VERTEX_COUNT};
use vstd::prelude::*;

verus! {

/// The render pass that a frame starts with.
pub open spec fn clearing_pass(ctx: FrameContext) -> RenderPass {
    target_pass(ctx, LoadAction::Clear { opaque: ctx.opaque })
}

/// Nothing is bound without its bytes, and what is filled lies within the instance buffer.
pub open spec fn settled(ctx: FrameContext, e: Encoding) -> bool {
    let r = replay(e.commands);
    &&& r.valid
    &&& r.first == Some(clearing_pass(ctx))
    &&& r.pending is None
    &&& 0 <= r.filled <= e.offset <= ctx.buffer_size
}

/// A render pass into the target is open.
pub open spec fn target_open(r: Replay) -> bool {
    match r.encoder {
        EncoderState::Closed => false,
        EncoderState::Open(pass) => pass.color == TextureSlot::Target && pass.resolve is None,
    }
}

/// An encoding between two draws.
pub open spec fn drawing(ctx: FrameContext, e: Encoding) -> bool {
    settled(ctx, e) && target_open(replay(e.commands))
}

/// An encoding between two render passes.
pub open spec fn between_passes(ctx: FrameContext, e: Encoding) -> bool {
    settled(ctx, e) && replay(e.commands).encoder is Closed
}

/// The commands are valid, and what is filled lies within the instance buffer.
pub open spec fn within_buffer(ctx: FrameContext, e: Encoding) -> bool {
    let r = replay(e.commands);
    r.valid && r.first == Some(clearing_pass(ctx)) && 0 <= r.filled <= ctx.buffer_size
}

/// An encoding after a draw: between two draws if it succeeded. If it was refused, a place may be
/// bound that is not written, but nothing was drawn from it.
pub open spec fn drawn_or_refused(ctx: FrameContext, result: (bool, Encoding)) -> bool {
    if result.0 {
        drawing(ctx, result.1)
    } else {
        within_buffer(ctx, result.1) && target_open(replay(result.1.commands))
    }
}

proof fn lemma_replay_more(a: Seq<CommandModel>, b: Seq<CommandModel>)
    ensures
        replay(a + b) == replay_from(replay(a), b, b.len() as int),
{
    lemma_replay_concat(a, b, b.len() as int);
}

/// Writing the bytes of the place that is bound, and drawing from it.
proof fn lemma_written(ready: Seq<CommandModel>, start: int, bytes: Seq<u8>, draw: CommandModel)
    requires
        replay(ready).valid,
        replay(ready).encoder is Open,
        may_fill(replay(ready), start),
        0 <= start <= usize::MAX,
        draw is Draw || draw is DrawInstanced,
    ensures
        replay(
            ready + seq![Command::WriteInstances { offset: start as usize, bytes }, draw],
        ) == (Replay { filled: start + bytes.len(), pending: None, ..replay(ready) }),
{
    let r = replay(ready);
    let commands = seq![Command::WriteInstances { offset: start as usize, bytes }, draw];
    let written = Replay { filled: start + bytes.len(), pending: None, ..r };
    lemma_replay_more(ready, commands);
    assert(replay_from(r, commands, 0) == r);
    assert(replay_from(r, commands, 1) == written);
    assert(replay_from(r, commands, 2) == written);
}

/// An instanced draw behind a set-up that binds the place of its bytes.
proof fn lemma_instanced(
    ctx: FrameContext,
    e: Encoding,
    setup: Seq<CommandModel>,
    bytes: Seq<u8>,
    count: int,
)
    requires
        drawing(ctx, e),
        aligned(e.offset) <= usize::MAX,
        replay(e.commands + setup) == (Replay {
            pending: Some(aligned(e.offset)),
            ..replay(e.commands)
        }),
    ensures
        placement(e.offset, ctx.buffer_size as int, bytes.len() as int) matches Some(start)
            ==> drawing(
            ctx,
            e.drawn(start, bytes.len() as int, setup + instanced_draw(start, bytes, count)),
        ),
{
    let start = aligned(e.offset);
    aligned_is_least_multiple(e.offset);
    let draw = Command::DrawInstanced {
        vertex_count: UNIT_VERTEX_COUNT,
        instance_count: count as u64,
    };
    lemma_written(e.commands + setup, start, bytes, draw);
    assert(instanced_draw(start, bytes, count) == seq![
        Command::WriteInstances { offset: start as usize, bytes },
        draw,
    ]);
    assert(e.commands + (setup + instanced_draw(start, bytes, count)) =~= (e.commands + setup)
        + instanced_draw(start, bytes, count));
}

proof fn lemma_shapes(
    ctx: FrameContext,
    pipeline: Pipeline,
    instances: Instances,
    range: Span,
    e: Encoding,
)
    requires
        drawing(ctx, e),
    ensures
        drawn_or_refused(ctx, draw_shapes_spec(ctx, pipeline, instances, range, e)),
{
    let start = aligned(e.offset);
    aligned_is_least_multiple(e.offset);
    if start <= usize::MAX {
        let r = replay(e.commands);
        let bound = Replay { pending: Some(start), ..r };
        let commands = shape_setup(ctx, pipeline, start);
        lemma_replay_more(e.commands, commands);
        assert(replay_from(r, commands, 0) == r);
        assert(replay_from(r, commands, 1) == r);
        assert(replay_from(r, commands, 2) == r);
        assert(replay_from(r, commands, 3) == bound);
        assert(replay_from(r, commands, 4) == bound);
        assert(replay_from(r, commands, 5) == bound);
        lemma_instanced(ctx, e, commands, instances.run(range), range.count());
    }
}

proof fn lemma_backdrop_blurs(ctx: FrameContext, blurs: Instances, range: Span, e: Encoding)
    requires
        drawing(ctx, e),
        replay(e.commands).captured,
    ensures
        drawn_or_refused(ctx, draw_backdrop_blurs_spec(ctx, blurs, range, e)),
{
    let start = aligned(e.offset);
    aligned_is_least_multiple(e.offset);
    if start <= usize::MAX {
        let r = replay(e.commands);
        let bound = Replay { pending: Some(start), ..r };
        let commands = backdrop_blur_setup(ctx, start);
        lemma_replay_more(e.commands, commands);
        assert(replay_from(r, commands, 0) == r);
        assert(replay_from(r, commands, 1) == r);
        assert(replay_from(r, commands, 2) == r);
        assert(replay_from(r, commands, 3) == bound);
        assert(replay_from(r, commands, 4) == bound);
        assert(replay_from(r, commands, 5) == bound);
        assert(replay_from(r, commands, 6) == bound);
        lemma_instanced(ctx, e, commands, blurs.run(range), range.count());
    }
}

proof fn lemma_backdrop_blur_batch(ctx: FrameContext, blurs: Instances, range: Span, e: Encoding)
    requires
        drawing(ctx, e),
    ensures
        drawn_or_refused(ctx, backdrop_blur_batch_spec(ctx, blurs, range, e)),
{
    let captured = e.with(backdrop_capture_commands(ctx));
    lemma_replay_more(e.commands, backdrop_capture_commands(ctx));
    assert(drawing(ctx, captured) && replay(captured.commands).captured
        == (replay(e.commands).captured || ctx.backdrop_texture)) by {
        reveal_with_fuel(replay_from, 4);
    }
    if ctx.backdrop_texture {
        lemma_backdrop_blurs(ctx, blurs, range, captured);
    }
}

proof fn lemma_sprites(
    ctx: FrameContext,
    pipeline: Pipeline,
    set_up_first: bool,
    texture: AtlasTexture,
    sprites: Instances,
    range: Span,
    e: Encoding,
)
    requires
        drawing(ctx, e),
    ensures
        drawn_or_refused(
            ctx,
            draw_sprites_spec(ctx, pipeline, set_up_first, texture, sprites, range, e),
        ),
{
    let start = aligned(e.offset);
    aligned_is_least_multiple(e.offset);
    assert(e.commands + Seq::<CommandModel>::empty() =~= e.commands);
    if start <= usize::MAX {
        let r = replay(e.commands);
        let bound = Replay { pending: Some(start), ..r };
        let commands = sprite_setup(ctx, pipeline, texture, start);
        lemma_replay_more(e.commands, commands);
        assert(replay_from(r, commands, 0) == r);
        assert(replay_from(r, commands, 1) == r);
        assert(replay_from(r, commands, 2) == r);
        assert(replay_from(r, commands, 3) == bound);
        assert(replay_from(r, commands, 4) == bound);
        assert(replay_from(r, commands, 5) == bound);
        assert(replay_from(r, commands, 6) == bound);
        assert(replay_from(r, commands, 7) == bound);
        lemma_instanced(ctx, e, commands, sprites.run(range), range.count());
    }
}

proof fn lemma_paths_to_intermediate(
    ctx: FrameContext,
    paths: Seq<Path>,
    range: Span,
    e: Encoding,
)
    requires
        between_passes(ctx, e),
    ensures
        ({
            let (ok, after) = draw_paths_to_intermediate_spec(ctx, paths, range, e);
            &&& ok ==> between_passes(ctx, after)
            &&& within_buffer(ctx, after) && replay(after.commands).encoder is Closed
            &&& ok && range.count() != 0 ==> replay(after.commands).rasterized
        }),
{
    let bytes = path_vertex_bytes(paths, range.start as int, range.end as int);
    let vertex_count = path_vertex_count(paths, range.start as int, range.end as int);
    let start = aligned(e.offset);
    aligned_is_least_multiple(e.offset);
    if start <= usize::MAX {
        let r = replay(e.commands);
        let opened = Replay { encoder: EncoderState::Open(path_pass(ctx)), ..r };
        let bound = Replay { pending: Some(start), ..opened };
        let written = Replay { filled: start + bytes.len(), ..opened };
        let closed = Replay { filled: start + bytes.len(), rasterized: true, ..r };
        match placement(e.offset, ctx.buffer_size as int, bytes.len() as int) {
            None => {
                let commands = path_refusal_commands(ctx);
                lemma_replay_more(e.commands, commands);
                assert(replay_from(r, commands, 0) == r);
                assert(replay_from(r, commands, 1) == opened);
                assert(replay_from(r, commands, 2) == opened);
                assert(replay_from(r, commands, 3) == (Replay { rasterized: true, ..r }));
            },
            Some(_) => {
                let commands = path_rasterization_commands(ctx, start, bytes, vertex_count);
                lemma_replay_more(e.commands, commands);
                assert(replay_from(r, commands, 0) == r);
                assert(replay_from(r, commands, 1) == opened);
                assert(replay_from(r, commands, 2) == opened);
                assert(replay_from(r, commands, 3) == bound);
                assert(replay_from(r, commands, 4) == bound);
                assert(replay_from(r, commands, 5) == bound);
                assert(replay_from(r, commands, 6) == written);
                assert(replay_from(r, commands, 7) == written);
                assert(replay_from(r, commands, 8) == closed);
            },
        }
    }
}

proof fn lemma_paths_from_intermediate(
    ctx: FrameContext,
    paths: Seq<Path>,
    range: Span,
    spanning_bounds: Bounds<ScaledPixels>,
    e: Encoding,
)
    requires
        drawing(ctx, e),
        range.count() != 0 ==> replay(e.commands).rasterized,
    ensures
        drawn_or_refused(
            ctx,
            draw_paths_from_intermediate_spec(ctx, paths, range, spanning_bounds, e),
        ),
{
    let (bytes, count) = path_sprites(paths, range, spanning_bounds);
    let start = aligned(e.offset);
    aligned_is_least_multiple(e.offset);
    if start <= usize::MAX && range.count() != 0 {
        let r = replay(e.commands);
        let setup = path_sprite_setup(ctx);
        lemma_replay_more(e.commands, setup);
        assert(replay_from(r, setup, 0) == r);
        assert(replay_from(r, setup, 1) == r);
        assert(replay_from(r, setup, 2) == r);
        assert(replay_from(r, setup, 3) == r);
        assert(replay_from(r, setup, 4) == r);
        let bind = seq![
            Command::SetVertexBuffer {
                index: SPRITE_INSTANCES,
                buffer: BufferSlot::Instances,
                offset: start as u64,
            },
        ];
        lemma_replay_more(e.commands + setup, bind);
        assert(replay_from(r, bind, 0) == r);
        assert(replay_from(r, bind, 1) == (Replay { pending: Some(start), ..r }));
        assert(e.commands + (setup + bind) =~= (e.commands + setup) + bind);
        lemma_instanced(ctx, e, setup + bind, bytes, count);
    }
}

proof fn lemma_path_batch(
    ctx: FrameContext,
    paths: Seq<Path>,
    range: Span,
    spanning_bounds: Bounds<ScaledPixels>,
    e: Encoding,
)
    requires
        drawing(ctx, e),
    ensures
        drawn_or_refused(ctx, path_batch_spec(ctx, paths, range, spanning_bounds, e)),
{
    let end = seq![Command::EndEncoding];
    let resume = seq![Command::BeginPass(target_pass(ctx, LoadAction::Load))];
    let ended = e.with(end);
    lemma_replay_more(e.commands, end);
    assert(between_passes(ctx, ended)) by {
        reveal_with_fuel(replay_from, 2);
    }
    lemma_paths_to_intermediate(ctx, paths, range, ended);
    let (rasterized, after) = draw_paths_to_intermediate_spec(ctx, paths, range, ended);
    let resumed = after.with(resume);
    lemma_replay_more(after.commands, resume);
    assert(replay(resumed.commands) == (Replay {
        encoder: EncoderState::Open(target_pass(ctx, LoadAction::Load)),
        ..replay(after.commands)
    })) by {
        reveal_with_fuel(replay_from, 2);
    }
    if rasterized {
        lemma_paths_from_intermediate(ctx, paths, range, spanning_bounds, resumed);
    }
}

proof fn lemma_surface(
    ctx: FrameContext,
    i: int,
    surface: PaintSurface,
    start: int,
    stride: int,
    e: Encoding,
)
    requires
        drawing(ctx, e),
        placement(e.offset, ctx.buffer_size as int, stride) == Some(start),
        stride >= SURFACE_BOUNDS_BYTES,
    ensures
        drawing(ctx, e.drawn(start, stride, surface_commands(i, surface, start))),
{
    aligned_is_least_multiple(e.offset);
    let bounds = SurfaceBounds { bounds: surface.bounds, content_mask: surface.content_mask };
    lemma_words_bytes_len(bounds.words());
    assert(surface_bytes(surface).len() == SURFACE_BOUNDS_BYTES);
    let bind = surface_bind_commands(surface, start);
    let textures = surface_texture_commands(i, surface);
    let draw = Command::Draw { vertex_count: UNIT_VERTEX_COUNT };
    let bound = e.commands + bind;
    let textured = bound + textures;
    let after = e.drawn(start, stride, surface_commands(i, surface, start));
    assert(after.commands =~= textured + seq![
        Command::WriteInstances { offset: start as usize, bytes: surface_bytes(surface) },
        draw,
    ]);
    lemma_replay_more(e.commands, bind);
    assert(replay(bound) == (Replay { pending: Some(start), ..replay(e.commands) })) by {
        reveal_with_fuel(replay_from, 3);
    }
    lemma_replay_more(bound, textures);
    assert(replay(textured) == replay(bound)) by {
        reveal_with_fuel(replay_from, 4);
    }
    lemma_written(textured, start, surface_bytes(surface), draw);
}

proof fn lemma_surfaces_from(ctx: FrameContext, scene: Scene, i: int, end: int, e: Encoding)
    requires
        drawing(ctx, e),
        scene.surface_stride >= SURFACE_BOUNDS_BYTES,
    ensures
        drawn_or_refused(ctx, draw_surfaces_from(ctx, scene, i, end, e)),
    decreases end - i,
{
    if i < end {
        let stride = scene.surface_stride as int;
        match placement(e.offset, ctx.buffer_size as int, stride) {
            None => {
                assert(e.commands + Seq::<CommandModel>::empty() =~= e.commands);
            },
            Some(start) => {
                let surface = scene.surfaces@[i];
                lemma_surface(ctx, i, surface, start, stride, e);
                lemma_surfaces_from(
                    ctx,
                    scene,
                    i + 1,
                    end,
                    e.drawn(start, stride, surface_commands(i, surface, start)),
                );
            },
        }
    }
}

proof fn lemma_surfaces(ctx: FrameContext, scene: Scene, range: Span, e: Encoding)
    requires
        drawing(ctx, e),
        scene.surface_stride >= SURFACE_BOUNDS_BYTES,
    ensures
        drawn_or_refused(ctx, draw_surfaces_spec(ctx, scene, range, e)),
{
    let prologue = surface_prologue(ctx);
    lemma_replay_more(e.commands, prologue);
    assert(drawing(ctx, e.with(prologue))) by {
        reveal_with_fuel(replay_from, 3);
    }
    lemma_surfaces_from(ctx, scene, range.start as int, range.end as int, e.with(prologue));
}

proof fn lemma_batch(ctx: FrameContext, scene: Scene, batch: PrimitiveBatch, e: Encoding)
    requires
        drawing(ctx, e),
        scene.surface_stride >= SURFACE_BOUNDS_BYTES,
    ensures
        drawn_or_refused(ctx, draw_batch_spec(ctx, scene, batch, e)),
{
    match batch {
        PrimitiveBatch::Shadows(range) => lemma_shapes(
            ctx,
            Pipeline::Shadows,
            scene.shadows,
            range,
            e,
        ),
        PrimitiveBatch::BackdropBlurs(range) => lemma_backdrop_blur_batch(
            ctx,
            scene.backdrop_blurs,
            range,
            e,
        ),
        PrimitiveBatch::Quads(range) => lemma_shapes(ctx, Pipeline::Quads, scene.quads, range, e),
        PrimitiveBatch::Paths { range, spanning_bounds } => lemma_path_batch(
            ctx,
            scene.paths@,
            range,
            spanning_bounds,
            e,
        ),
        PrimitiveBatch::Underlines(range) => lemma_shapes(
            ctx,
            Pipeline::Underlines,
            scene.underlines,
            range,
            e,
        ),
        PrimitiveBatch::MonochromeSprites { texture, range } => lemma_sprites(
            ctx,
            Pipeline::MonochromeSprites,
            false,
            texture,
            scene.monochrome_sprites,
            range,
            e,
        ),
        PrimitiveBatch::PolychromeSprites { texture, range } => lemma_sprites(
            ctx,
            Pipeline::PolychromeSprites,
            true,
            texture,
            scene.polychrome_sprites,
            range,
            e,
        ),
        PrimitiveBatch::Surfaces(range) => lemma_surfaces(ctx, scene, range, e),
        PrimitiveBatch::SubpixelSprites { .. } => {},
        PrimitiveBatch::ShaderPasses(_) => {},
    }
}

proof fn lemma_begin_shader_passes(
    ctx: FrameContext,
    passes: Seq<ShaderPass>,
    range: Span,
    e: Encoding,
)
    requires
        drawing(ctx, e),
    ensures
        drawing(ctx, begin_shader_passes_spec(ctx, passes, range, e)),
        samples_scene(passes, range) && ctx.backdrop_texture ==> replay(
            begin_shader_passes_spec(ctx, passes, range, e).commands,
        ).captured,
{
    let r = replay(e.commands);
    let commands = scene_capture_commands(ctx);
    let closed = Replay { encoder: EncoderState::Closed, ..r };
    let flipping = Replay { encoder: EncoderState::Open(flip_pass(ctx)), ..r };
    let captured = Replay { captured: true, ..closed };
    let resumed = EncoderState::Open(target_pass(ctx, LoadAction::Load));
    lemma_replay_more(e.commands, commands);
    assert(replay_from(r, commands, 0) == r);
    assert(replay_from(r, commands, 1) == closed);
    if ctx.backdrop_texture {
        assert(replay_from(r, commands, 2) == flipping);
        assert(replay_from(r, commands, 3) == flipping);
        assert(replay_from(r, commands, 4) == flipping);
        assert(replay_from(r, commands, 5) == flipping);
        assert(replay_from(r, commands, 6) == flipping);
        assert(replay_from(r, commands, 7) == captured);
        assert(replay_from(r, commands, 8) == (Replay { encoder: resumed, ..captured }));
    } else {
        assert(replay_from(r, commands, 2) == (Replay { encoder: resumed, ..closed }));
    }
}

proof fn lemma_shader_pass(ctx: FrameContext, pass: ShaderPass, pipeline: u64, e: Encoding)
    requires
        drawing(ctx, e),
        pass.samples_scene && ctx.backdrop_texture ==> replay(e.commands).captured,
    ensures
        drawing(ctx, e.with(shader_pass_commands(ctx, pass, pipeline))),
        replay(e.with(shader_pass_commands(ctx, pass, pipeline)).commands).captured == replay(
            e.commands,
        ).captured,
{
    let r = replay(e.commands);
    let commands = shader_pass_commands(ctx, pass, pipeline);
    lemma_replay_more(e.commands, commands);
    assert(replay_from(r, commands, 0) == r);
    assert(replay_from(r, commands, 1) == r);
    assert(replay_from(r, commands, 2) == r);
    assert(replay_from(r, commands, 3) == r);
    assert(replay_from(r, commands, 4) == r);
    assert(replay_from(r, commands, 5) == r);
    if pass.samples_scene && ctx.backdrop_texture {
        assert(replay_from(r, commands, 6) == r);
        assert(replay_from(r, commands, 7) == r);
        assert(replay_from(r, commands, 8) == r);
    } else {
        assert(replay_from(r, commands, 6) == r);
    }
}

/// Within a batch of shader passes that read what was drawn before them, that was captured.
pub open spec fn capture_made(ctx: FrameContext, scene: Scene, s: FrameModel) -> bool {
    match s.cursor {
        Cursor::Batch(_) => true,
        Cursor::Pass { batch, .. } => match passes_of(scene.batches@[batch as int]) {
            None => true,
            Some(range) => samples_scene(scene.shader_passes@, range) && ctx.backdrop_texture
                ==> replay(s.encoding.commands).captured,
        },
    }
}

/// What holds of a frame from its start to its end: its commands so far are valid, its instances
/// lie within the instance buffer, and a render pass into the target is open until the frame is
/// complete or given up.
pub open spec fn frame_valid(ctx: FrameContext, scene: Scene, s: FrameModel) -> bool {
    &&& capture_made(ctx, scene, s)
    &&& match s.status {
        FrameStatus::Finished => between_passes(ctx, s.encoding),
        FrameStatus::TooLarge => within_buffer(ctx, s.encoding) && replay(
            s.encoding.commands,
        ).encoder is Closed,
        _ => drawing(ctx, s.encoding),
    }
}

/// A frame starts out valid.
pub proof fn started_frames_are_valid(ctx: FrameContext, scene: Scene)
    ensures
        frame_valid(ctx, scene, frame_start(ctx)),
{
    reveal_with_fuel(replay_from, 2);
}

pub proof fn lemma_step_valid(ctx: FrameContext, scene: Scene, cache: Map<u64, u64>, s: FrameModel)
    requires
        frame_wf(scene, s),
        frame_valid(ctx, scene, s),
        s.status == FrameStatus::Running,
    ensures
        frame_valid(ctx, scene, frame_step(ctx, scene, cache, s)),
{
    let e = s.encoding;
    match s.cursor {
        Cursor::Batch(i) => {
            if i >= scene.batches@.len() {
                let end = if ctx.unified_memory {
                    seq![Command::EndEncoding]
                } else {
                    seq![Command::EndEncoding, Command::SyncInstances { length: e.offset as u64 }]
                };
                lemma_replay_more(e.commands, end);
                reveal_with_fuel(replay_from, 3);
            } else {
                match scene.batches@[i as int] {
                    PrimitiveBatch::ShaderPasses(range) => lemma_begin_shader_passes(
                        ctx,
                        scene.shader_passes@,
                        range,
                        e,
                    ),
                    batch => {
                        lemma_batch(ctx, scene, batch, e);
                        let after = draw_batch_spec(ctx, scene, batch, e).1;
                        let end = seq![Command::EndEncoding];
                        lemma_replay_more(after.commands, end);
                        assert(replay_from(replay(after.commands), end, 0) == replay(
                            after.commands,
                        ));
                    },
                }
            }
        },
        Cursor::Pass { batch, pass } => {
            let shader_pass = scene.shader_passes@[pass as int];
            if pass < passes_of(scene.batches@[batch as int])->0.end {
                lemma_shader_pass(ctx, shader_pass, cache[shader_pass.shader_id], e);
            }
        },
    }
}

/// A valid frame stays valid as it is encoded: render passes are opened and closed in turn, no
/// pass samples what it renders to or what has no contents yet, every draw stands behind the bytes
/// that it reads, and these lie within the instance buffer, apart from all others.
pub proof fn running_frames_stay_valid(
    ctx: FrameContext,
    scene: Scene,
    cache: Map<u64, u64>,
    s: FrameModel,
)
    requires
        frame_wf(scene, s),
        frame_valid(ctx, scene, s),
    ensures
        frame_wf(scene, frame_run(ctx, scene, cache, s)),
        frame_valid(ctx, scene, frame_run(ctx, scene, cache, s)),
        frame_run(ctx, scene, cache, s).status != FrameStatus::Running,
    decreases batches_left(scene, s), passes_left(scene, s), steps_left(s),
{
    if s.status == FrameStatus::Running {
        lemma_step_valid(ctx, scene, cache, s);
        frame_step_advances(ctx, scene, cache, s);
        running_frames_stay_valid(ctx, scene, cache, frame_step(ctx, scene, cache, s));
    }
}

/// A valid frame stays valid when it is told what became of a shader.
pub proof fn supplied_frames_stay_valid(
    ctx: FrameContext,
    scene: Scene,
    compiled: Option<u64>,
    s: FrameModel,
)
    requires
        frame_wf(scene, s),
        frame_valid(ctx, scene, s),
        s.status == FrameStatus::NeedsPipeline,
    ensures
        frame_wf(scene, frame_supplied(ctx, scene, compiled, s)),
        frame_valid(ctx, scene, frame_supplied(ctx, scene, compiled, s)),
{
    match (s.cursor, compiled) {
        (Cursor::Pass { pass, .. }, Some(pipeline)) => {
            lemma_shader_pass(ctx, scene.shader_passes@[pass as int], pipeline, s.encoding);
        },
        _ => {},
    }
}

/// At every point of a frame the target was cleared once, by the first command, and every later
/// render pass into it keeps what was drawn.
pub proof fn frames_clear_the_target_once(ctx: FrameContext, scene: Scene, s: FrameModel)
    requires
        frame_valid(ctx, scene, s),
    ensures
        s.encoding.commands.len() > 0,
        s.encoding.commands[0] == Command::<Seq<u8>>::BeginPass(clearing_pass(ctx)),
        forall|i: int|
            0 < i < s.encoding.commands.len() ==> keeps_target(#[trigger] s.encoding.commands[i]),
{
    targets_are_cleared_first_and_once(s.encoding.commands);
}

/// No frame draws into the surfaces that it paints or into the sprite atlas: a surface that another
/// frame was rendered to stays as it is.
pub proof fn frames_leave_what_they_sample(ctx: FrameContext, scene: Scene, s: FrameModel)
    requires
        frame_valid(ctx, scene, s),
    ensures
        forall|i: int|
            0 <= i < s.encoding.commands.len() ==> match #[trigger] s.encoding.commands[i] {
                Command::BeginPass(pass) => renders_to_own(pass),
                _ => true,
            },
{
    sampled_textures_stay(s.encoding.commands);
}

/// The same surroundings with an instance buffer of another size.
pub open spec fn with_buffer_size(ctx: FrameContext, buffer_size: usize) -> FrameContext {
    FrameContext { buffer_size, ..ctx }
}

proof fn lemma_surfaces_from_fit(
    ctx: FrameContext,
    size: usize,
    scene: Scene,
    i: int,
    end: int,
    e: Encoding,
)
    requires
        ctx.buffer_size <= size,
        draw_surfaces_from(ctx, scene, i, end, e).0,
    ensures
        draw_surfaces_from(with_buffer_size(ctx, size), scene, i, end, e) == draw_surfaces_from(
            ctx,
            scene,
            i,
            end,
            e,
        ),
    decreases end - i,
{
    if i < end {
        let stride = scene.surface_stride as int;
        match placement(e.offset, ctx.buffer_size as int, stride) {
            None => {},
            Some(start) => {
                lemma_surfaces_from_fit(
                    ctx,
                    size,
                    scene,
                    i + 1,
                    end,
                    e.drawn(start, stride, surface_commands(i, scene.surfaces@[i], start)),
                );
            },
        }
    }
}

proof fn lemma_batch_fits(
    ctx: FrameContext,
    size: usize,
    scene: Scene,
    batch: PrimitiveBatch,
    e: Encoding,
)
    requires
        ctx.buffer_size <= size,
        draw_batch_spec(ctx, scene, batch, e).0,
    ensures
        draw_batch_spec(with_buffer_size(ctx, size), scene, batch, e) == draw_batch_spec(
            ctx,
            scene,
            batch,
            e,
        ),
{
    match batch {
        PrimitiveBatch::Surfaces(range) => lemma_surfaces_from_fit(
            ctx,
            size,
            scene,
            range.start as int,
            range.end as int,
            e.with(surface_prologue(ctx)),
        ),
        _ => {},
    }
}

proof fn lemma_too_large_is_final(
    ctx: FrameContext,
    scene: Scene,
    cache: Map<u64, u64>,
    s: FrameModel,
)
    requires
        frame_wf(scene, s),
        s.status == FrameStatus::Running,
        frame_run(ctx, scene, cache, s).status != FrameStatus::TooLarge,
    ensures
        frame_step(ctx, scene, cache, s).status != FrameStatus::TooLarge,
{
    frame_step_advances(ctx, scene, cache, s);
    reveal_with_fuel(frame_run, 2);
}

/// A frame that does not end for want of space comes out the same in any larger instance buffer:
/// so a frame that is encoded anew after the buffer grew draws what it would have drawn, had
/// there been space from the start.
pub proof fn larger_buffers_change_nothing(
    ctx: FrameContext,
    size: usize,
    scene: Scene,
    cache: Map<u64, u64>,
    s: FrameModel,
)
    requires
        frame_wf(scene, s),
        ctx.buffer_size <= size,
        frame_run(ctx, scene, cache, s).status != FrameStatus::TooLarge,
    ensures
        frame_start(with_buffer_size(ctx, size)) == frame_start(ctx),
        frame_run(with_buffer_size(ctx, size), scene, cache, s) == frame_run(ctx, scene, cache, s),
        forall|compiled: Option<u64>|
            #[trigger] frame_supplied(with_buffer_size(ctx, size), scene, compiled, s)
                == frame_supplied(ctx, scene, compiled, s),
    decreases batches_left(scene, s), passes_left(scene, s), steps_left(s),
{
    let larger = with_buffer_size(ctx, size);
    if s.status == FrameStatus::Running {
        lemma_too_large_is_final(ctx, scene, cache, s);
        match s.cursor {
            Cursor::Batch(i) => {
                if i < scene.batches@.len() {
                    match scene.batches@[i as int] {
                        PrimitiveBatch::ShaderPasses(_) => {},
                        batch => lemma_batch_fits(ctx, size, scene, batch, s.encoding),
                    }
                }
            },
            Cursor::Pass { .. } => {},
        }
        assert(frame_step(larger, scene, cache, s) == frame_step(ctx, scene, cache, s));
        frame_step_advances(ctx, scene, cache, s);
        larger_buffers_change_nothing(
            ctx,
            size,
            scene,
            cache,
            frame_step(ctx, scene, cache, s),
        );
    }
}

/// A frame waits only for a shader that is not compiled.
pub proof fn only_unknown_shaders_are_awaited(
    ctx: FrameContext,
    scene: Scene,
    cache: Map<u64, u64>,
    s: FrameModel,
)
    requires
        frame_wf(scene, s),
        s.status == FrameStatus::Running,
    ensures
        match awaited(frame_run(ctx, scene, cache, s)) {
            Some(pass) => {
                &&& pass < scene.shader_passes@.len()
                &&& !cache.contains_key(scene.shader_passes@[pass as int].shader_id)
            },
            None => frame_run(ctx, scene, cache, s).status != FrameStatus::NeedsPipeline,
        },
    decreases batches_left(scene, s), passes_left(scene, s), steps_left(s),
{
    frame_step_advances(ctx, scene, cache, s);
    let next = frame_step(ctx, scene, cache, s);
    if next.status == FrameStatus::Running {
        only_unknown_shaders_are_awaited(ctx, scene, cache, next);
    } else {
        match s.cursor {
            Cursor::Pass { batch, .. } => {
                assert(scene.batch_wf(scene.batches@[batch as int]));
            },
            Cursor::Batch(_) => {},
        }
    }
}

/// Once every shader of a scene is compiled, no frame of that scene waits for one: each shader is
/// compiled once and used from then on.
pub proof fn compiled_shaders_are_reused(
    ctx: FrameContext,
    scene: Scene,
    cache: Map<u64, u64>,
    s: FrameModel,
)
    requires
        frame_wf(scene, s),
        s.status == FrameStatus::Running,
        forall|i: int|
            0 <= i < scene.shader_passes@.len() ==> cache.contains_key(
                (#[trigger] scene.shader_passes@[i]).shader_id,
            ),
    ensures
        frame_run(ctx, scene, cache, s).status != FrameStatus::NeedsPipeline,
{
    only_unknown_shaders_are_awaited(ctx, scene, cache, s);
}

/// A pass whose shader fails to compile is skipped: it draws nothing, and the frame goes on behind
/// it.
pub proof fn failed_shaders_are_skipped(
    ctx: FrameContext,
    scene: Scene,
    batch: usize,
    pass: usize,
    s: FrameModel,
)
    requires
        frame_wf(scene, s),
        s.status == FrameStatus::NeedsPipeline,
        s.cursor == (Cursor::Pass { batch, pass }),
    ensures
        frame_supplied(ctx, scene, None, s) == (FrameModel {
            encoding: s.encoding,
            cursor: Cursor::Pass { batch, pass: (pass + 1) as usize },
            status: FrameStatus::Running,
        }),
{
}

/// Frame `t` stands where `s` stands, or behind it.
pub open spec fn not_before(scene: Scene, t: FrameModel, s: FrameModel) -> bool {
    ||| batches_left(scene, t) < batches_left(scene, s)
    ||| batches_left(scene, t) == batches_left(scene, s) && passes_left(scene, t) <= passes_left(
        scene,
        s,
    )
}

/// A frame is encoded as far as it goes, and never goes back.
pub proof fn lemma_run_goes_on(
    ctx: FrameContext,
    scene: Scene,
    cache: Map<u64, u64>,
    s: FrameModel,
)
    requires
        frame_wf(scene, s),
    ensures
        frame_wf(scene, frame_run(ctx, scene, cache, s)),
        frame_run(ctx, scene, cache, s).status != FrameStatus::Running,
        not_before(scene, frame_run(ctx, scene, cache, s), s),
    decreases batches_left(scene, s), passes_left(scene, s), steps_left(s),
{
    if s.status == FrameStatus::Running {
        frame_step_advances(ctx, scene, cache, s);
        lemma_run_goes_on(ctx, scene, cache, frame_step(ctx, scene, cache, s));
    }
}

/// A frame that was told what became of a shader is behind the pass that it waited at.
pub proof fn lemma_supplied_goes_on(
    ctx: FrameContext,
    scene: Scene,
    compiled: Option<u64>,
    s: FrameModel,
)
    requires
        frame_wf(scene, s),
        s.status == FrameStatus::NeedsPipeline,
    ensures
        ({
            let next = frame_supplied(ctx, scene, compiled, s);
            &&& frame_wf(scene, next)
            &&& next.status == FrameStatus::Running
            &&& batches_left(scene, next) == batches_left(scene, s)
            &&& passes_left(scene, next) == passes_left(scene, s) - 1
            &&& passes_left(scene, next) >= 0
        }),
{
    match s.cursor {
        Cursor::Pass { batch, .. } => {
            assert(scene.batch_wf(scene.batches@[batch as int]));
        },
        Cursor::Batch(_) => {},
    }
}

/// A frame never waits at one place twice: once it was told what became of a shader, it is behind
/// the pass that it waited at. So it waits no more often than the scene has passes to draw.
pub proof fn frames_wait_once_at_a_pass(
    ctx: FrameContext,
    scene: Scene,
    cache: Map<u64, u64>,
    compiled: Option<u64>,
    s: FrameModel,
)
    requires
        frame_wf(scene, s),
        s.status == FrameStatus::NeedsPipeline,
    ensures
        ({
            let t = frame_run(ctx, scene, cache, frame_supplied(ctx, scene, compiled, s));
            not_before(scene, t, s) && !not_before(scene, s, t)
        }),
{
    let next = frame_supplied(ctx, scene, compiled, s);
    lemma_supplied_goes_on(ctx, scene, compiled, s);
    lemma_run_goes_on(ctx, scene, cache, next);
}

} // verus!
