//! How much of an instance buffer a scene takes up.

use crate::encoder::{
    draw_batch_spec, draw_surfaces_from, path_sprites, surface_commands, surface_prologue, Encoding,
    FrameContext,
};
use crate::frame::{
    batches_left, frame_run, frame_start, frame_step, frame_step_advances, frame_supplied, frame_wf,
    passes_left, steps_left, Cursor, FrameModel, FrameStatus,
};
use crate::geometry::{Bounds, ScaledPixels};
use crate::packing::{
    aligned_is_least_multiple, placement, runs_are_placed_where_they_fit, INSTANCE_ALIGNMENT,
};
use crate::picture::{path_place, with_write};
use crate::picture_laws::{
    lemma_path_sprites_held, lemma_rectangle_held, lemma_run_held, lemma_vertices_held,
};
use crate::scene::{path_vertex_bytes, Instances, Path, PrimitiveBatch, Scene, Span};
use vstd::prelude::*;

verus! {

/// The most that a run of `len` bytes takes up, with the gap before it.
pub open spec fn run_space(len: int) -> int {
    INSTANCE_ALIGNMENT - 1 + len
}

/// The most that a batch takes up.
pub open spec fn batch_space(scene: Scene, batch: PrimitiveBatch) -> int {
    match batch {
        PrimitiveBatch::Shadows(range) => run_space(scene.shadows.run(range).len() as int),
        PrimitiveBatch::BackdropBlurs(range) => run_space(
            scene.backdrop_blurs.run(range).len() as int,
        ),
        PrimitiveBatch::Quads(range) => run_space(scene.quads.run(range).len() as int),
        PrimitiveBatch::Paths { range, spanning_bounds } => run_space(
            path_vertex_bytes(scene.paths@, range.start as int, range.end as int).len() as int,
        ) + run_space(path_sprites(scene.paths@, range, spanning_bounds).0.len() as int),
        PrimitiveBatch::Underlines(range) => run_space(scene.underlines.run(range).len() as int),
        PrimitiveBatch::MonochromeSprites { range, .. } => run_space(
            scene.monochrome_sprites.run(range).len() as int,
        ),
        PrimitiveBatch::PolychromeSprites { range, .. } => run_space(
            scene.polychrome_sprites.run(range).len() as int,
        ),
        PrimitiveBatch::Surfaces(range) => range.count() * run_space(scene.surface_stride as int),
        PrimitiveBatch::SubpixelSprites { .. } => 0,
        PrimitiveBatch::ShaderPasses(_) => 0,
    }
}

/// The most that the batches from `i` on take up.
pub open spec fn scene_space(scene: Scene, i: int) -> int
    decreases scene.batches@.len() - i,
{
    if i >= scene.batches@.len() {
        0
    } else {
        batch_space(scene, scene.batches@[i]) + scene_space(scene, i + 1)
    }
}

/// The most that a frame still takes up.
pub open spec fn space_left(scene: Scene, s: FrameModel) -> int {
    match s.cursor {
        Cursor::Batch(i) => scene_space(scene, i as int),
        Cursor::Pass { batch, .. } => scene_space(scene, batch + 1),
    }
}

/// The rest of a frame fits: there is space for it, and there are textures for its paths and its
/// backdrop.
pub open spec fn roomy(ctx: FrameContext, scene: Scene, s: FrameModel) -> bool {
    &&& ctx.path_texture && ctx.backdrop_texture
    &&& 0 <= s.encoding.offset
    &&& s.encoding.offset + space_left(scene, s) <= ctx.buffer_size
}

proof fn lemma_surfaces_fit(ctx: FrameContext, scene: Scene, i: int, end: int, e: Encoding)
    requires
        0 <= e.offset,
        i <= end,
        e.offset + (end - i) * run_space(scene.surface_stride as int) <= ctx.buffer_size,
    ensures
        draw_surfaces_from(ctx, scene, i, end, e).0,
        0 <= draw_surfaces_from(ctx, scene, i, end, e).1.offset,
        draw_surfaces_from(ctx, scene, i, end, e).1.offset <= e.offset + (end - i) * run_space(
            scene.surface_stride as int,
        ),
    decreases end - i,
{
    if i < end {
        let stride = scene.surface_stride as int;
        let space = run_space(stride);
        let n = end - i;
        aligned_is_least_multiple(e.offset);
        assert(n * space == space + (n - 1) * space && (n - 1) * space >= 0) by (nonlinear_arith)
            requires
                n >= 1,
                space >= 0,
        ;
        match placement(e.offset, ctx.buffer_size as int, stride) {
            None => {},
            Some(start) => lemma_surfaces_fit(
                ctx,
                scene,
                i + 1,
                end,
                e.drawn(start, stride, surface_commands(i, scene.surfaces@[i], start)),
            ),
        }
    }
}

proof fn lemma_batch_space(scene: Scene, batch: PrimitiveBatch)
    requires
        scene.batch_wf(batch),
    ensures
        batch_space(scene, batch) >= 0,
{
    match batch {
        PrimitiveBatch::Surfaces(range) => {
            let n = range.count();
            let space = run_space(scene.surface_stride as int);
            assert(n * space >= 0) by (nonlinear_arith)
                requires
                    n >= 0,
                    space >= 0,
            ;
        },
        _ => {},
    }
}

proof fn lemma_scene_space(scene: Scene, i: int)
    requires
        scene.wf(),
        0 <= i,
    ensures
        scene_space(scene, i) >= 0,
    decreases scene.batches@.len() - i,
{
    if i < scene.batches@.len() {
        lemma_batch_space(scene, scene.batches@[i]);
        lemma_scene_space(scene, i + 1);
    }
}

proof fn lemma_batch_fits(ctx: FrameContext, scene: Scene, batch: PrimitiveBatch, e: Encoding)
    requires
        scene.batch_wf(batch),
        batch !is ShaderPasses,
        ctx.path_texture,
        ctx.backdrop_texture,
        0 <= e.offset,
        e.offset + batch_space(scene, batch) <= ctx.buffer_size,
    ensures
        draw_batch_spec(ctx, scene, batch, e).0,
        0 <= draw_batch_spec(ctx, scene, batch, e).1.offset,
        draw_batch_spec(ctx, scene, batch, e).1.offset <= e.offset + batch_space(scene, batch),
{
    aligned_is_least_multiple(e.offset);
    match batch {
        PrimitiveBatch::Paths { range, .. } => {
            let vertices = path_vertex_bytes(scene.paths@, range.start as int, range.end as int);
            match placement(e.offset, ctx.buffer_size as int, vertices.len() as int) {
                None => {},
                Some(start) => aligned_is_least_multiple(start + vertices.len()),
            }
        },
        PrimitiveBatch::Surfaces(range) => lemma_surfaces_fit(
            ctx,
            scene,
            range.start as int,
            range.end as int,
            e.with(surface_prologue(ctx)),
        ),
        _ => {},
    }
}

/// A frame for which there is space never ends for want of it, and there stays space for the rest
/// of a frame that waits for a shader.
pub proof fn roomy_frames_fit(
    ctx: FrameContext,
    scene: Scene,
    cache: Map<u64, u64>,
    s: FrameModel,
)
    requires
        frame_wf(scene, s),
        roomy(ctx, scene, s),
        s.status != FrameStatus::TooLarge,
    ensures
        frame_run(ctx, scene, cache, s).status != FrameStatus::TooLarge,
        roomy(ctx, scene, frame_run(ctx, scene, cache, s)),
    decreases batches_left(scene, s), passes_left(scene, s), steps_left(s),
{
    if s.status == FrameStatus::Running {
        frame_step_advances(ctx, scene, cache, s);
        match s.cursor {
            Cursor::Batch(i) => {
                if i < scene.batches@.len() {
                    let batch = scene.batches@[i as int];
                    assert(scene.batch_wf(batch));
                    lemma_scene_space(scene, i + 1);
                    match batch {
                        PrimitiveBatch::ShaderPasses(_) => {},
                        _ => lemma_batch_fits(ctx, scene, batch, s.encoding),
                    }
                }
            },
            Cursor::Pass { .. } => {},
        }
        roomy_frames_fit(ctx, scene, cache, frame_step(ctx, scene, cache, s));
    }
}

/// A scene fits into every instance buffer that is as large as its batches with the gaps between
/// them, whatever becomes of its shaders.
pub proof fn scenes_fit_into_their_space(ctx: FrameContext, scene: Scene)
    requires
        scene.wf(),
        ctx.path_texture,
        ctx.backdrop_texture,
        scene_space(scene, 0) <= ctx.buffer_size,
    ensures
        roomy(ctx, scene, frame_start(ctx)),
{
}

/// A frame for which there is space still has it after it was told what became of a shader.
pub proof fn supplied_frames_stay_roomy(
    ctx: FrameContext,
    scene: Scene,
    compiled: Option<u64>,
    s: FrameModel,
)
    requires
        frame_wf(scene, s),
        roomy(ctx, scene, s),
        s.status == FrameStatus::NeedsPipeline,
    ensures
        roomy(ctx, scene, frame_supplied(ctx, scene, compiled, s)),
        frame_supplied(ctx, scene, compiled, s).status == FrameStatus::Running,
{
}

/// The primitives of a batch that is drawn with a single run of instances.
pub open spec fn run_of(scene: Scene, batch: PrimitiveBatch) -> Option<(Instances, Span)> {
    match batch {
        PrimitiveBatch::Shadows(range) => Some((scene.shadows, range)),
        PrimitiveBatch::BackdropBlurs(range) => Some((scene.backdrop_blurs, range)),
        PrimitiveBatch::Quads(range) => Some((scene.quads, range)),
        PrimitiveBatch::Underlines(range) => Some((scene.underlines, range)),
        PrimitiveBatch::MonochromeSprites { range, .. } => Some(
            (scene.monochrome_sprites, range),
        ),
        PrimitiveBatch::PolychromeSprites { range, .. } => Some(
            (scene.polychrome_sprites, range),
        ),
        _ => None,
    }
}

/// `start` is where the next run behind `offset` begins.
pub open spec fn begins_run(offset: int, start: int) -> bool {
    start % (INSTANCE_ALIGNMENT as int) == 0 && offset <= start < offset + INSTANCE_ALIGNMENT
}

/// A run of instances is drawn exactly if its bytes end within the instance buffer, and blurs need
/// a backdrop as well. It takes up its own bytes and no more; an empty one takes up none.
pub proof fn runs_take_up_their_bytes(
    ctx: FrameContext,
    scene: Scene,
    batch: PrimitiveBatch,
    e: Encoding,
    start: int,
)
    requires
        scene.wf(),
        scene.batch_wf(batch),
        run_of(scene, batch) is Some,
        0 <= e.offset,
        begins_run(e.offset, start),
    ensures
        ({
            let (instances, range) = run_of(scene, batch)->0;
            let bytes = (range.end - range.start) * instances.stride;
            let (ok, after) = draw_batch_spec(ctx, scene, batch, e);
            let backed = batch is BackdropBlurs ==> ctx.backdrop_texture;
            &&& range.start == range.end ==> (ok <==> backed) && after.offset == e.offset
            &&& range.start < range.end ==> (ok <==> backed && start + bytes <= ctx.buffer_size)
            &&& range.start < range.end && ok ==> after.offset == start + bytes
        }),
{
    let (instances, range) = run_of(scene, batch)->0;
    lemma_run_len(instances, range);
    runs_are_placed_where_they_fit(
        e.offset,
        ctx.buffer_size as int,
        instances.run(range).len() as int,
        start,
    );
}

/// A run of paths is drawn exactly if there is a texture for it and both the vertices and the
/// sprites end within the instance buffer: one sprite for each path if the ends have one draw
/// order, else a single one.
pub proof fn paths_take_up_their_bytes(
    ctx: FrameContext,
    scene: Scene,
    range: Span,
    spanning_bounds: Bounds<ScaledPixels>,
    e: Encoding,
    vertices: int,
    sprites: int,
)
    requires
        range.within(scene.paths@.len()),
        range.start < range.end,
        0 <= e.offset,
        begins_run(e.offset, vertices),
        begins_run(
            vertices + path_place(scene.paths@, range.start as int, range.end as int),
            sprites,
        ),
    ensures
        ({
            let (ok, after) = draw_batch_spec(
                ctx,
                scene,
                PrimitiveBatch::Paths { range, spanning_bounds },
                e,
            );
            let one_order = scene.paths@[range.start as int].order
                == scene.paths@[range.end - 1].order;
            let end = sprites + 16 * if one_order {
                range.end - range.start
            } else {
                1
            };
            &&& ok <==> ctx.path_texture && end <= ctx.buffer_size
            &&& ok ==> after.offset == end
        }),
{
    let first = range.start as int;
    let last = range.end as int;
    let vertex_bytes = path_vertex_bytes(scene.paths@, first, last);
    let sprite_bytes = path_sprites(scene.paths@, range, spanning_bounds).0;
    let capacity = ctx.buffer_size as int;
    lemma_vertex_bytes_len(scene.paths@, first, last);
    lemma_sprite_bytes_len(scene.paths@, range, spanning_bounds);
    runs_are_placed_where_they_fit(e.offset, capacity, vertex_bytes.len() as int, vertices);
    runs_are_placed_where_they_fit(
        vertices + vertex_bytes.len(),
        capacity,
        sprite_bytes.len() as int,
        sprites,
    );
}

/// A run of surfaces is drawn exactly if the last of them ends within the instance buffer. `pitch`
/// is what a surface takes up with the gap behind it.
pub proof fn surfaces_take_up_their_bytes(
    ctx: FrameContext,
    scene: Scene,
    range: Span,
    e: Encoding,
    start: int,
    pitch: int,
)
    requires
        range.start < range.end,
        0 <= e.offset,
        begins_run(e.offset, start),
        begins_run(scene.surface_stride as int, pitch),
    ensures
        ({
            let (ok, after) = draw_batch_spec(ctx, scene, PrimitiveBatch::Surfaces(range), e);
            let end = start + (range.end - range.start - 1) * pitch + scene.surface_stride;
            &&& ok <==> end <= ctx.buffer_size
            &&& ok ==> after.offset == end
        }),
{
    lemma_surfaces_take_up(
        ctx,
        scene,
        range.start as int,
        range.end as int,
        e.with(surface_prologue(ctx)),
        start,
        pitch,
    );
}

proof fn lemma_surfaces_take_up(
    ctx: FrameContext,
    scene: Scene,
    i: int,
    end: int,
    e: Encoding,
    start: int,
    pitch: int,
)
    requires
        i < end,
        0 <= e.offset,
        begins_run(e.offset, start),
        begins_run(scene.surface_stride as int, pitch),
    ensures
        ({
            let (ok, after) = draw_surfaces_from(ctx, scene, i, end, e);
            let last = start + (end - i - 1) * pitch + scene.surface_stride;
            &&& ok <==> last <= ctx.buffer_size
            &&& ok ==> after.offset == last
        }),
    decreases end - i,
{
    let stride = scene.surface_stride as int;
    let n = end - i - 1;
    runs_are_placed_where_they_fit(e.offset, ctx.buffer_size as int, stride, start);
    assert(n == 0 ==> n * pitch == 0) by (nonlinear_arith);
    assert(n > 0 ==> n * pitch == pitch + (n - 1) * pitch) by (nonlinear_arith);
    assert(n * pitch >= 0) by (nonlinear_arith)
        requires
            n >= 0,
            pitch >= 0,
    ;
    if start + stride <= ctx.buffer_size {
        let next = e.drawn(start, stride, surface_commands(i, scene.surfaces@[i], start));
        if n > 0 {
            assert(begins_run(start + stride, start + pitch));
            lemma_surfaces_take_up(ctx, scene, i + 1, end, next, start + pitch, pitch);
            assert(end - (i + 1) - 1 == n - 1);
        } else {
            assert(draw_surfaces_from(ctx, scene, i + 1, end, next) == (true, next));
        }
    }
}

proof fn lemma_run_len(instances: Instances, range: Span)
    requires
        instances.wf(),
        range.within(instances.count as nat),
    ensures
        instances.run(range).len() == (range.end - range.start) * instances.stride,
{
    lemma_run_held(Map::empty(), 0, instances, range);
}

proof fn lemma_vertex_bytes_len(paths: Seq<Path>, start: int, end: int)
    requires
        start <= end,
    ensures
        path_vertex_bytes(paths, start, end).len() == path_place(paths, start, end),
{
    let bytes = path_vertex_bytes(paths, start, end);
    lemma_vertices_held(with_write(Map::empty(), 0, bytes), 0, paths, start, end);
}

proof fn lemma_sprite_bytes_len(
    paths: Seq<Path>,
    range: Span,
    spanning_bounds: Bounds<ScaledPixels>,
)
    requires
        range.start < range.end,
    ensures
        ({
            let one_order = paths[range.start as int].order == paths[range.end - 1].order;
            let count = if one_order {
                range.end - range.start
            } else {
                1
            };
            path_sprites(paths, range, spanning_bounds).0.len() == 16 * count
        }),
{
    let bytes = path_sprites(paths, range, spanning_bounds).0;
    let memory = with_write(Map::empty(), 0, bytes);
    if paths[range.start as int].order == paths[range.end - 1].order {
        lemma_path_sprites_held(memory, 0, paths, range.start as int, range.end as int);
    } else {
        lemma_rectangle_held(memory, 0, spanning_bounds);
    }
}

} // verus!
