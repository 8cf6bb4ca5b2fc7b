//! Every frame shows its scene: its draws are those of the primitives of the scene, in the order of
//! the batches, each with its own bytes, its own textures and its own number of instances.

use crate::commands::{BufferSlot, Command, LoadAction, Pipeline, TextureSlot, VertexConstant};
use crate::encoder::{
    backdrop_blur_batch_spec, backdrop_blur_commands, backdrop_capture_commands,
    begin_shader_passes_spec, draw_backdrop_blurs_spec, draw_batch_spec,
    draw_paths_from_intermediate_spec, draw_paths_to_intermediate_spec, draw_shapes_spec,
    draw_sprites_spec, draw_surfaces_from, draw_surfaces_spec, path_batch_spec,
    path_rasterization_commands, path_sprite_bytes, path_sprite_commands, path_sprites,
    samples_scene, scene_capture_commands, shader_pass_commands, shape_commands, sprite_commands,
    surface_bytes, surface_commands, surface_prologue, target_pass, Encoding, FrameContext,
};
use crate::geometry::{
    bounds_words, lemma_words_bytes_concat, lemma_words_bytes_len, word_bytes, words_bytes, Bounds,
    ScaledPixels,
};
use crate::packing::{aligned, aligned_is_least_multiple, placement};
use crate::picture::{
    batch_shown, capture_shown, copies_paths, draws_pass, draws_path_vertices, draws_run,
    draws_sprites, draws_surface, flips_scene, goes_to_target, gpu, gpu_from, gpu_step,
    holds_primitives, holds_rectangle, holds_vertex, holds_word, if_any, lemma_gpu_more,
    lemma_shows_more_concat, path_place, shows, shows_more, vertex_size, vertices_before,
    with_write, DrawCall, Event, Gpu, Shown,
};
use crate::scene::{
    lemma_path_vertex_count_bounded, path_vertex_bytes, path_vertex_count, AtlasTexture, Instances,
    PaintSurface, Path, PrimitiveBatch, Scene, ShaderPass, Span, SurfaceBounds,
};
use vstd::prelude::*;

verus! {

/// A render pass into the target is open, and nothing is bound that only one draw takes.
pub open spec fn on_target(ctx: FrameContext, g: Gpu) -> bool {
    &&& g.open
    &&& goes_to_target(ctx, g.next.pass)
    &&& g.next.uniforms == Map::<u64, Seq<u8>>::empty()
    &&& g.next.textures == Map::<u64, TextureSlot>::empty()
    &&& g.next.samplers == Set::<u64>::empty()
}

/// One more draw was made.
pub open spec fn draws_once(before: Gpu, after: Gpu) -> bool {
    &&& after.events.last() is Drawn
    &&& after.events == before.events.push(after.events.last())
}

/// The draw that was made last.
pub open spec fn last_draw(g: Gpu) -> DrawCall {
    g.events.last()->Drawn_0
}

pub proof fn lemma_run_held(memory: Map<int, u8>, start: int, instances: Instances, range: Span)
    requires
        instances.wf(),
        range.within(instances.count as nat),
    ensures
        instances.run(range).len() == (range.end - range.start) * instances.stride,
        holds_primitives(
            with_write(memory, start, instances.run(range)),
            start,
            instances,
            range,
        ),
{
    let first = range.start as int;
    let last = range.end as int;
    let count = instances.count as int;
    let stride = instances.stride as int;
    assert(0 <= first * stride <= last * stride <= count * stride && last * stride - first * stride
        == (last - first) * stride) by (nonlinear_arith)
        requires
            0 <= first <= last <= count,
            0 <= stride,
    ;
}

#[verifier::spinoff_prover]
#[verifier::rlimit(40)]
proof fn lemma_shapes_shown(
    ctx: FrameContext,
    pipeline: Pipeline,
    instances: Instances,
    range: Span,
    e: Encoding,
)
    requires
        on_target(ctx, gpu(e.commands)),
        0 <= e.offset,
        instances.wf(),
        range.within(instances.count as nat),
        range.start < range.end,
        draw_shapes_spec(ctx, pipeline, instances, range, e).0,
    ensures
        ({
            let g = gpu(e.commands);
            let h = gpu(draw_shapes_spec(ctx, pipeline, instances, range, e).1.commands);
            &&& on_target(ctx, h)
            &&& draws_once(g, h)
            &&& draws_run(ctx, last_draw(h), pipeline, instances, range)
            &&& last_draw(h).textures == Map::<u64, TextureSlot>::empty()
        }),
{
    let start = aligned(e.offset);
    aligned_is_least_multiple(e.offset);
    let bytes = instances.run(range);
    let c = shape_commands(ctx, pipeline, start, bytes, range.count());
    lemma_gpu_more(e.commands, c);
    let g = gpu(e.commands);
    let g1 = gpu_step(g, c[0]);
    let g2 = gpu_step(g1, c[1]);
    let g3 = gpu_step(g2, c[2]);
    let g4 = gpu_step(g3, c[3]);
    let g5 = gpu_step(g4, c[4]);
    let g6 = gpu_step(g5, c[5]);
    let g7 = gpu_step(g6, c[6]);
    assert(gpu_from(g, c, 0) == g);
    assert(gpu_from(g, c, 1) == g1);
    assert(gpu_from(g, c, 2) == g2);
    assert(gpu_from(g, c, 3) == g3);
    assert(gpu_from(g, c, 4) == g4);
    assert(gpu_from(g, c, 5) == g5);
    assert(gpu_from(g, c, 6) == g6);
    assert(gpu_from(g, c, 7) == g7);
    lemma_run_held(g5.next.memory, start, instances, range);
}

#[verifier::spinoff_prover]
#[verifier::rlimit(40)]
proof fn lemma_backdrop_blurs_shown(ctx: FrameContext, blurs: Instances, range: Span, e: Encoding)
    requires
        on_target(ctx, gpu(e.commands)),
        0 <= e.offset,
        blurs.wf(),
        range.within(blurs.count as nat),
        range.start < range.end,
        draw_backdrop_blurs_spec(ctx, blurs, range, e).0,
    ensures
        ({
            let g = gpu(e.commands);
            let h = gpu(draw_backdrop_blurs_spec(ctx, blurs, range, e).1.commands);
            &&& on_target(ctx, h)
            &&& draws_once(g, h)
            &&& draws_run(ctx, last_draw(h), Pipeline::BackdropBlur, blurs, range)
            &&& last_draw(h).textures == map![3u64 => TextureSlot::Backdrop]
        }),
{
    let start = aligned(e.offset);
    aligned_is_least_multiple(e.offset);
    let bytes = blurs.run(range);
    let c = backdrop_blur_commands(ctx, start, bytes, range.count());
    lemma_gpu_more(e.commands, c);
    let g = gpu(e.commands);
    let g1 = gpu_step(g, c[0]);
    let g2 = gpu_step(g1, c[1]);
    let g3 = gpu_step(g2, c[2]);
    let g4 = gpu_step(g3, c[3]);
    let g5 = gpu_step(g4, c[4]);
    let g6 = gpu_step(g5, c[5]);
    let g7 = gpu_step(g6, c[6]);
    let g8 = gpu_step(g7, c[7]);
    assert(gpu_from(g, c, 0) == g);
    assert(gpu_from(g, c, 1) == g1);
    assert(gpu_from(g, c, 2) == g2);
    assert(gpu_from(g, c, 3) == g3);
    assert(gpu_from(g, c, 4) == g4);
    assert(gpu_from(g, c, 5) == g5);
    assert(gpu_from(g, c, 6) == g6);
    assert(gpu_from(g, c, 7) == g7);
    assert(gpu_from(g, c, 8) == g8);
    lemma_run_held(g6.next.memory, start, blurs, range);
}

#[verifier::spinoff_prover]
#[verifier::rlimit(40)]
proof fn lemma_sprites_shown(
    ctx: FrameContext,
    pipeline: Pipeline,
    set_up_first: bool,
    texture: AtlasTexture,
    sprites: Instances,
    range: Span,
    e: Encoding,
)
    requires
        on_target(ctx, gpu(e.commands)),
        0 <= e.offset,
        sprites.wf(),
        range.within(sprites.count as nat),
        range.start < range.end,
        draw_sprites_spec(ctx, pipeline, set_up_first, texture, sprites, range, e).0,
    ensures
        ({
            let g = gpu(e.commands);
            let h = gpu(
                draw_sprites_spec(
                    ctx,
                    pipeline,
                    set_up_first,
                    texture,
                    sprites,
                    range,
                    e,
                ).1.commands,
            );
            &&& on_target(ctx, h)
            &&& draws_once(g, h)
            &&& draws_sprites(ctx, last_draw(h), pipeline, texture, sprites, range)
        }),
{
    let start = aligned(e.offset);
    aligned_is_least_multiple(e.offset);
    let bytes = sprites.run(range);
    let c = sprite_commands(ctx, pipeline, texture, start, bytes, range.count());
    lemma_gpu_more(e.commands, c);
    let g = gpu(e.commands);
    let g1 = gpu_step(g, c[0]);
    let g2 = gpu_step(g1, c[1]);
    let g3 = gpu_step(g2, c[2]);
    let g4 = gpu_step(g3, c[3]);
    let g5 = gpu_step(g4, c[4]);
    let g6 = gpu_step(g5, c[5]);
    let g7 = gpu_step(g6, c[6]);
    let g8 = gpu_step(g7, c[7]);
    let g9 = gpu_step(g8, c[8]);
    assert(gpu_from(g, c, 0) == g);
    assert(gpu_from(g, c, 1) == g1);
    assert(gpu_from(g, c, 2) == g2);
    assert(gpu_from(g, c, 3) == g3);
    assert(gpu_from(g, c, 4) == g4);
    assert(gpu_from(g, c, 5) == g5);
    assert(gpu_from(g, c, 6) == g6);
    assert(gpu_from(g, c, 7) == g7);
    assert(gpu_from(g, c, 8) == g8);
    assert(gpu_from(g, c, 9) == g9);
    lemma_run_held(g7.next.memory, start, sprites, range);
}

/// A run of bytes lies at `at`.
pub open spec fn holds_bytes(memory: Map<int, u8>, at: int, bytes: Seq<u8>) -> bool {
    forall|a: int|
        at <= a < at + bytes.len() ==> #[trigger] memory.contains_key(a) && memory[a] == bytes[a
            - at]
}

proof fn lemma_bytes_split(memory: Map<int, u8>, at: int, first: Seq<u8>, second: Seq<u8>)
    requires
        holds_bytes(memory, at, first + second),
    ensures
        holds_bytes(memory, at, first),
        holds_bytes(memory, at + first.len(), second),
{
    let both = first + second;
    assert(both.len() == first.len() + second.len());
    assert forall|a: int| at <= a < at + first.len() implies (#[trigger] memory.contains_key(a)
        && memory[a] == first[a - at]) by {
        assert(both[a - at] == first[a - at]);
    }
    let middle = at + first.len();
    assert forall|a: int| middle <= a < middle + second.len() implies (
    #[trigger] memory.contains_key(a) && memory[a] == second[a - middle]) by {
        assert(both[a - at] == second[a - at - first.len()]);
    }
}

proof fn lemma_words_held(memory: Map<int, u8>, at: int, words: Seq<u32>)
    requires
        holds_bytes(memory, at, words_bytes(words)),
    ensures
        forall|i: int|
            0 <= i < words.len() ==> holds_word(memory, at + 4 * i, #[trigger] words[i]),
    decreases words.len(),
{
    if words.len() > 0 {
        let before = words.drop_last();
        let n = before.len() as int;
        vstd::bytes::lemma_auto_spec_u32_to_from_le_bytes();
        lemma_words_bytes_len(before);
        lemma_bytes_split(memory, at, words_bytes(before), word_bytes(words.last()));
        lemma_words_held(memory, at, before);
        let place = at + 4 * n;
        assert(memory.contains_key(place) && memory.contains_key(place + 1));
        assert(memory.contains_key(place + 2) && memory.contains_key(place + 3));
        assert(holds_word(memory, place, words.last()));
        assert forall|i: int| 0 <= i < words.len() implies holds_word(
            memory,
            at + 4 * i,
            #[trigger] words[i],
        ) by {
            if i < n {
                assert(before[i] == words[i]);
            }
        }
    }
}

pub proof fn lemma_rectangle_held(memory: Map<int, u8>, at: int, bounds: Bounds<ScaledPixels>)
    requires
        holds_bytes(memory, at, words_bytes(bounds_words(bounds))),
    ensures
        holds_rectangle(memory, at, bounds),
        words_bytes(bounds_words(bounds)).len() == 16,
{
    let words = bounds_words(bounds);
    lemma_words_bytes_len(words);
    lemma_words_held(memory, at, words);
    assert(holds_word(memory, at + 4 * 0, words[0]));
    assert(holds_word(memory, at + 4 * 1, words[1]));
    assert(holds_word(memory, at + 4 * 2, words[2]));
    assert(holds_word(memory, at + 4 * 3, words[3]));
}

pub proof fn lemma_path_sprites_held(
    memory: Map<int, u8>,
    at: int,
    paths: Seq<Path>,
    start: int,
    end: int,
)
    requires
        holds_bytes(memory, at, path_sprite_bytes(paths, start, end)),
        start <= end,
    ensures
        path_sprite_bytes(paths, start, end).len() == 16 * (end - start),
        forall|p: int|
            start <= p < end ==> holds_rectangle(
                memory,
                at + 16 * (p - start),
                (#[trigger] paths[p]).clipped_bounds,
            ),
    decreases end - start,
{
    if start < end {
        let last = words_bytes(bounds_words(paths[end - 1].clipped_bounds));
        lemma_bytes_split(memory, at, path_sprite_bytes(paths, start, end - 1), last);
        lemma_path_sprites_held(memory, at, paths, start, end - 1);
        lemma_rectangle_held(memory, at + 16 * (end - 1 - start), paths[end - 1].clipped_bounds);
    }
}

proof fn lemma_vertex_held(memory: Map<int, u8>, at: int, path: Path, v: int)
    requires
        holds_bytes(memory, at, words_bytes(path.rasterization_vertex(v).words())),
    ensures
        holds_vertex(memory, at, path, v),
        words_bytes(path.rasterization_vertex(v).words()).len() == vertex_size(path),
{
    let vertex = path.rasterization_vertex(v);
    let head = seq![
        vertex.xy_position.x.0,
        vertex.xy_position.y.0,
        vertex.st_position.x,
        vertex.st_position.y,
    ];
    let fill = path.color.words@;
    let bounds = bounds_words(path.clipped_bounds);
    lemma_words_bytes_concat(head + fill, bounds);
    lemma_words_bytes_concat(head, fill);
    lemma_words_bytes_len(head);
    lemma_words_bytes_len(fill);
    lemma_words_bytes_len(head + fill);
    lemma_words_bytes_len(vertex.words());
    lemma_bytes_split(memory, at, words_bytes(head + fill), words_bytes(bounds));
    lemma_bytes_split(memory, at, words_bytes(head), words_bytes(fill));
    lemma_words_held(memory, at, head);
    lemma_words_held(memory, at + 16, fill);
    lemma_rectangle_held(memory, at + 16 + 4 * fill.len(), path.clipped_bounds);
    assert(holds_word(memory, at + 4 * 0, head[0]));
    assert(holds_word(memory, at + 4 * 1, head[1]));
    assert(holds_word(memory, at + 4 * 2, head[2]));
    assert(holds_word(memory, at + 4 * 3, head[3]));
}

proof fn lemma_path_held(memory: Map<int, u8>, at: int, path: Path, n: int)
    requires
        holds_bytes(memory, at, path.vertex_bytes(n)),
        0 <= n,
    ensures
        path.vertex_bytes(n).len() == n * vertex_size(path),
        forall|v: int|
            0 <= v < n ==> {
                let vertex = #[trigger] path.vertices@[v];
                holds_vertex(memory, at + v * vertex_size(path), path, v)
            },
    decreases n,
{
    let size = vertex_size(path);
    if n > 0 {
        let last = words_bytes(path.rasterization_vertex(n - 1).words());
        lemma_bytes_split(memory, at, path.vertex_bytes(n - 1), last);
        lemma_path_held(memory, at, path, n - 1);
        lemma_vertex_held(memory, at + (n - 1) * size, path, n - 1);
        assert((n - 1) * size + size == n * size) by (nonlinear_arith);
    } else {
        assert(n * size == 0) by (nonlinear_arith)
            requires
                n == 0,
        ;
    }
}

pub proof fn lemma_vertices_held(
    memory: Map<int, u8>,
    at: int,
    paths: Seq<Path>,
    start: int,
    end: int,
)
    requires
        holds_bytes(memory, at, path_vertex_bytes(paths, start, end)),
        start <= end,
    ensures
        path_vertex_bytes(paths, start, end).len() == path_place(paths, start, end),
        path_vertex_count(paths, start, end) == vertices_before(paths, start, end),
        forall|p: int, v: int|
            start <= p < end && 0 <= v < paths[p].vertices@.len() ==> {
                let vertex = #[trigger] paths[p].vertices@[v];
                holds_vertex(
                    memory,
                    at + path_place(paths, start, p) + v * vertex_size(paths[p]),
                    paths[p],
                    v,
                )
            },
    decreases end - start,
{
    if start < end {
        let n = paths[end - 1].vertices@.len() as int;
        let last = paths[end - 1].vertex_bytes(n);
        lemma_bytes_split(memory, at, path_vertex_bytes(paths, start, end - 1), last);
        lemma_vertices_held(memory, at, paths, start, end - 1);
        lemma_path_held(memory, at + path_place(paths, start, end - 1), paths[end - 1], n);
    }
}

#[verifier::spinoff_prover]
#[verifier::rlimit(40)]
proof fn lemma_paths_rasterized(ctx: FrameContext, paths: Seq<Path>, range: Span, e: Encoding)
    requires
        0 <= e.offset,
        range.within(paths.len()),
        range.start < range.end,
        draw_paths_to_intermediate_spec(ctx, paths, range, e).0,
    ensures
        ({
            let g = gpu(e.commands);
            let h = gpu(draw_paths_to_intermediate_spec(ctx, paths, range, e).1.commands);
            &&& draws_once(g, h)
            &&& draws_path_vertices(ctx, last_draw(h), paths, range)
        }),
{
    let start = aligned(e.offset);
    aligned_is_least_multiple(e.offset);
    let first = range.start as int;
    let end = range.end as int;
    let bytes = path_vertex_bytes(paths, first, end);
    lemma_path_vertex_count_bounded(paths, first, end);
    let c = path_rasterization_commands(ctx, start, bytes, path_vertex_count(paths, first, end));
    lemma_gpu_more(e.commands, c);
    let g = gpu(e.commands);
    let g1 = gpu_step(g, c[0]);
    let g2 = gpu_step(g1, c[1]);
    let g3 = gpu_step(g2, c[2]);
    let g4 = gpu_step(g3, c[3]);
    let g5 = gpu_step(g4, c[4]);
    let g6 = gpu_step(g5, c[5]);
    let g7 = gpu_step(g6, c[6]);
    let g8 = gpu_step(g7, c[7]);
    assert(gpu_from(g, c, 0) == g);
    assert(gpu_from(g, c, 1) == g1);
    assert(gpu_from(g, c, 2) == g2);
    assert(gpu_from(g, c, 3) == g3);
    assert(gpu_from(g, c, 4) == g4);
    assert(gpu_from(g, c, 5) == g5);
    assert(gpu_from(g, c, 6) == g6);
    assert(gpu_from(g, c, 7) == g7);
    assert(gpu_from(g, c, 8) == g8);
    lemma_vertices_held(g6.next.memory, start, paths, first, end);
}

#[verifier::spinoff_prover]
#[verifier::rlimit(40)]
proof fn lemma_paths_copied(
    ctx: FrameContext,
    paths: Seq<Path>,
    range: Span,
    spanning_bounds: Bounds<ScaledPixels>,
    e: Encoding,
)
    requires
        on_target(ctx, gpu(e.commands)),
        0 <= e.offset,
        range.within(paths.len()),
        range.start < range.end,
        draw_paths_from_intermediate_spec(ctx, paths, range, spanning_bounds, e).0,
    ensures
        ({
            let g = gpu(e.commands);
            let h = gpu(
                draw_paths_from_intermediate_spec(
                    ctx,
                    paths,
                    range,
                    spanning_bounds,
                    e,
                ).1.commands,
            );
            &&& on_target(ctx, h)
            &&& draws_once(g, h)
            &&& copies_paths(ctx, last_draw(h), paths, range, spanning_bounds)
        }),
{
    let start = aligned(e.offset);
    aligned_is_least_multiple(e.offset);
    let (bytes, count) = path_sprites(paths, range, spanning_bounds);
    let c = path_sprite_commands(ctx, start, bytes, count);
    lemma_gpu_more(e.commands, c);
    let g = gpu(e.commands);
    let g1 = gpu_step(g, c[0]);
    let g2 = gpu_step(g1, c[1]);
    let g3 = gpu_step(g2, c[2]);
    let g4 = gpu_step(g3, c[3]);
    let g5 = gpu_step(g4, c[4]);
    let g6 = gpu_step(g5, c[5]);
    let g7 = gpu_step(g6, c[6]);
    assert(gpu_from(g, c, 0) == g);
    assert(gpu_from(g, c, 1) == g1);
    assert(gpu_from(g, c, 2) == g2);
    assert(gpu_from(g, c, 3) == g3);
    assert(gpu_from(g, c, 4) == g4);
    assert(gpu_from(g, c, 5) == g5);
    assert(gpu_from(g, c, 6) == g6);
    assert(gpu_from(g, c, 7) == g7);
    if paths[range.start as int].order == paths[range.end - 1].order {
        lemma_path_sprites_held(
            g6.next.memory,
            start,
            paths,
            range.start as int,
            range.end as int,
        );
    } else {
        lemma_rectangle_held(g6.next.memory, start, spanning_bounds);
    }
}

#[verifier::spinoff_prover]
#[verifier::rlimit(40)]
proof fn lemma_surface_shown(
    ctx: FrameContext,
    i: int,
    surface: PaintSurface,
    start: int,
    stride: int,
    e: Encoding,
)
    requires
        on_target(ctx, gpu(e.commands)),
        gpu(e.commands).next.vertex_buffers.contains_key(0),
        gpu(e.commands).next.vertex_buffers[0] == (BufferSlot::UnitVertices, 0int),
        gpu(e.commands).next.constants.contains_key(2),
        gpu(e.commands).next.constants[2] == VertexConstant::Size(ctx.viewport_size),
        0 <= start <= usize::MAX,
    ensures
        ({
            let g = gpu(e.commands);
            let h = gpu(e.drawn(start, stride, surface_commands(i, surface, start)).commands);
            &&& on_target(ctx, h)
            &&& h.next.vertex_buffers.contains_key(0)
            &&& h.next.vertex_buffers[0] == (BufferSlot::UnitVertices, 0int)
            &&& h.next.constants.contains_key(2)
            &&& h.next.constants[2] == VertexConstant::Size(ctx.viewport_size)
            &&& draws_once(g, h)
            &&& draws_surface(ctx, last_draw(h), surface, i)
        }),
{
    let c = surface_commands(i, surface, start);
    lemma_gpu_more(e.commands, c);
    let bounds = SurfaceBounds { bounds: surface.bounds, content_mask: surface.content_mask };
    let bytes = surface_bytes(surface);
    lemma_words_bytes_concat(
        bounds_words(surface.bounds),
        bounds_words(surface.content_mask.bounds),
    );
    lemma_words_bytes_len(bounds_words(surface.bounds));
    let g = gpu(e.commands);
    let g1 = gpu_step(g, c[0]);
    let g2 = gpu_step(g1, c[1]);
    let g3 = gpu_step(g2, c[2]);
    let g4 = gpu_step(g3, c[3]);
    let g5 = gpu_step(g4, c[4]);
    let g6 = gpu_step(g5, c[5]);
    assert(gpu_from(g, c, 0) == g);
    assert(gpu_from(g, c, 1) == g1);
    assert(gpu_from(g, c, 2) == g2);
    assert(gpu_from(g, c, 3) == g3);
    assert(gpu_from(g, c, 4) == g4);
    assert(gpu_from(g, c, 5) == g5);
    assert(gpu_from(g, c, 6) == g6);
    let written = if surface.image_buffer.pixel_format == 0x4247_5241 { g5 } else { g6 };
    lemma_bytes_split(
        written.next.memory,
        start,
        words_bytes(bounds_words(surface.bounds)),
        words_bytes(bounds_words(surface.content_mask.bounds)),
    );
    lemma_rectangle_held(written.next.memory, start, surface.bounds);
    lemma_rectangle_held(written.next.memory, start + 16, surface.content_mask.bounds);
    if surface.image_buffer.pixel_format != 0x4247_5241 {
        assert(gpu_from(g, c, 7) == gpu_step(g6, c[6]));
    }
}

#[verifier::spinoff_prover]
#[verifier::rlimit(40)]
pub proof fn lemma_pass_shown(ctx: FrameContext, pass: ShaderPass, pipeline: u64, e: Encoding)
    requires
        on_target(ctx, gpu(e.commands)),
    ensures
        ({
            let g = gpu(e.commands);
            let h = gpu(e.with(shader_pass_commands(ctx, pass, pipeline)).commands);
            &&& on_target(ctx, h)
            &&& draws_once(g, h)
            &&& draws_pass(ctx, last_draw(h), pass, pipeline)
        }),
{
    let c = shader_pass_commands(ctx, pass, pipeline);
    lemma_gpu_more(e.commands, c);
    let g = gpu(e.commands);
    let g1 = gpu_step(g, c[0]);
    let g2 = gpu_step(g1, c[1]);
    let g3 = gpu_step(g2, c[2]);
    let g4 = gpu_step(g3, c[3]);
    let g5 = gpu_step(g4, c[4]);
    let g6 = gpu_step(g5, c[5]);
    assert(gpu_from(g, c, 0) == g);
    assert(gpu_from(g, c, 1) == g1);
    assert(gpu_from(g, c, 2) == g2);
    assert(gpu_from(g, c, 3) == g3);
    assert(gpu_from(g, c, 4) == g4);
    assert(gpu_from(g, c, 5) == g5);
    assert(gpu_from(g, c, 6) == g6);
    if pass.samples_scene && ctx.backdrop_texture {
        let g7 = gpu_step(g6, c[6]);
        let g8 = gpu_step(g7, c[7]);
        assert(gpu_from(g, c, 7) == g7);
        assert(gpu_from(g, c, 8) == g8);
        assert(last_draw(g8).samplers =~= set![0u64]);
    }
}

/// One more event shows one more thing.
pub proof fn lemma_shows_one(
    ctx: FrameContext,
    scene: Scene,
    before: Seq<Event>,
    after: Seq<Event>,
    shown: Shown,
)
    requires
        after.len() > 0,
        after == before.push(after.last()),
        shows(ctx, scene, after.last(), shown),
    ensures
        shows_more(ctx, scene, before, after, seq![shown]),
{
    assert(before.push(after.last()).len() == before.len() + 1);
    assert(seq![shown][0] == shown);
}

/// Ending the render pass of the target, or opening it again, shows nothing.
proof fn lemma_interlude(ctx: FrameContext, e: Encoding)
    ensures
        ({
            let ended = gpu(e.with(seq![Command::EndEncoding]).commands);
            let resumed = gpu(
                e.with(seq![Command::BeginPass(target_pass(ctx, LoadAction::Load))]).commands,
            );
            &&& ended.events == gpu(e.commands).events
            &&& resumed.events == gpu(e.commands).events
            &&& on_target(ctx, resumed)
        }),
{
    let end = seq![Command::<Seq<u8>>::EndEncoding];
    let begin = seq![Command::<Seq<u8>>::BeginPass(target_pass(ctx, LoadAction::Load))];
    lemma_gpu_more(e.commands, end);
    lemma_gpu_more(e.commands, begin);
    let g = gpu(e.commands);
    assert(gpu_from(g, end, 0) == g);
    assert(gpu_from(g, end, 1) == gpu_step(g, end[0]));
    assert(gpu_from(g, begin, 0) == g);
    assert(gpu_from(g, begin, 1) == gpu_step(g, begin[0]));
}

proof fn lemma_backdrop_captured(ctx: FrameContext, scene: Scene, e: Encoding)
    requires
        ctx.backdrop_texture,
    ensures
        ({
            let g = gpu(e.commands);
            let h = gpu(e.with(backdrop_capture_commands(ctx)).commands);
            &&& on_target(ctx, h)
            &&& shows_more(ctx, scene, g.events, h.events, seq![Shown::Backdrop])
        }),
{
    let c = backdrop_capture_commands(ctx);
    lemma_gpu_more(e.commands, c);
    let g = gpu(e.commands);
    let g1 = gpu_step(g, c[0]);
    let g2 = gpu_step(g1, c[1]);
    let g3 = gpu_step(g2, c[2]);
    assert(gpu_from(g, c, 0) == g);
    assert(gpu_from(g, c, 1) == g1);
    assert(gpu_from(g, c, 2) == g2);
    assert(gpu_from(g, c, 3) == g3);
    lemma_shows_one(ctx, scene, g.events, g3.events, Shown::Backdrop);
}

#[verifier::spinoff_prover]
#[verifier::rlimit(40)]
pub proof fn lemma_scene_captured(ctx: FrameContext, scene: Scene, range: Span, e: Encoding)
    requires
        on_target(ctx, gpu(e.commands)),
    ensures
        ({
            let g = gpu(e.commands);
            let h = gpu(begin_shader_passes_spec(ctx, scene.shader_passes@, range, e).commands);
            &&& on_target(ctx, h)
            &&& shows_more(ctx, scene, g.events, h.events, capture_shown(ctx, scene, range))
        }),
{
    let c = scene_capture_commands(ctx);
    lemma_gpu_more(e.commands, c);
    let g = gpu(e.commands);
    if samples_scene(scene.shader_passes@, range) {
        let g1 = gpu_step(g, c[0]);
        let g2 = gpu_step(g1, c[1]);
        assert(gpu_from(g, c, 0) == g);
        assert(gpu_from(g, c, 1) == g1);
        assert(gpu_from(g, c, 2) == g2);
        if ctx.backdrop_texture {
            let g3 = gpu_step(g2, c[2]);
            let g4 = gpu_step(g3, c[3]);
            let g5 = gpu_step(g4, c[4]);
            let g6 = gpu_step(g5, c[5]);
            let g7 = gpu_step(g6, c[6]);
            let g8 = gpu_step(g7, c[7]);
            assert(gpu_from(g, c, 3) == g3);
            assert(gpu_from(g, c, 4) == g4);
            assert(gpu_from(g, c, 5) == g5);
            assert(gpu_from(g, c, 6) == g6);
            assert(gpu_from(g, c, 7) == g7);
            assert(gpu_from(g, c, 8) == g8);
            assert(flips_scene(ctx, last_draw(g6)));
            lemma_shows_one(ctx, scene, g.events, g8.events, Shown::SceneFlip);
        }
    }
}

proof fn lemma_backdrop_blur_batch_shown(
    ctx: FrameContext,
    scene: Scene,
    range: Span,
    e: Encoding,
)
    requires
        on_target(ctx, gpu(e.commands)),
        0 <= e.offset,
        scene.backdrop_blurs.wf(),
        range.within(scene.backdrop_blurs.count as nat),
        backdrop_blur_batch_spec(ctx, scene.backdrop_blurs, range, e).0,
    ensures
        ({
            let g = gpu(e.commands);
            let h = gpu(
                backdrop_blur_batch_spec(ctx, scene.backdrop_blurs, range, e).1.commands,
            );
            &&& on_target(ctx, h)
            &&& shows_more(
                ctx,
                scene,
                g.events,
                h.events,
                batch_shown(PrimitiveBatch::BackdropBlurs(range)),
            )
        }),
{
    let captured = e.with(backdrop_capture_commands(ctx));
    let after = backdrop_blur_batch_spec(ctx, scene.backdrop_blurs, range, e).1;
    lemma_backdrop_captured(ctx, scene, e);
    if range.start < range.end {
        lemma_backdrop_blurs_shown(ctx, scene.backdrop_blurs, range, captured);
        lemma_shows_one(
            ctx,
            scene,
            gpu(captured.commands).events,
            gpu(after.commands).events,
            Shown::BackdropBlurs(range),
        );
    }
    lemma_shows_more_concat(
        ctx,
        scene,
        gpu(e.commands).events,
        gpu(captured.commands).events,
        gpu(after.commands).events,
        seq![Shown::Backdrop],
        if_any(range, seq![Shown::BackdropBlurs(range)]),
    );
}

proof fn lemma_path_batch_shown(
    ctx: FrameContext,
    scene: Scene,
    range: Span,
    spanning_bounds: Bounds<ScaledPixels>,
    e: Encoding,
)
    requires
        on_target(ctx, gpu(e.commands)),
        0 <= e.offset,
        range.within(scene.paths@.len()),
        path_batch_spec(ctx, scene.paths@, range, spanning_bounds, e).0,
    ensures
        ({
            let g = gpu(e.commands);
            let h = gpu(
                path_batch_spec(ctx, scene.paths@, range, spanning_bounds, e).1.commands,
            );
            &&& on_target(ctx, h)
            &&& shows_more(
                ctx,
                scene,
                g.events,
                h.events,
                batch_shown(PrimitiveBatch::Paths { range, spanning_bounds }),
            )
        }),
{
    let paths = scene.paths@;
    let ended = e.with(seq![Command::EndEncoding]);
    let rasterized = draw_paths_to_intermediate_spec(ctx, paths, range, ended).1;
    let resumed = rasterized.with(seq![Command::BeginPass(target_pass(ctx, LoadAction::Load))]);
    let after = path_batch_spec(ctx, paths, range, spanning_bounds, e).1;
    lemma_interlude(ctx, e);
    lemma_interlude(ctx, rasterized);
    aligned_is_least_multiple(e.offset);
    if range.start < range.end {
        lemma_paths_rasterized(ctx, paths, range, ended);
        lemma_shows_one(
            ctx,
            scene,
            gpu(ended.commands).events,
            gpu(rasterized.commands).events,
            Shown::PathVertices(range),
        );
        lemma_paths_copied(ctx, paths, range, spanning_bounds, resumed);
        lemma_shows_one(
            ctx,
            scene,
            gpu(resumed.commands).events,
            gpu(after.commands).events,
            Shown::PathCopies(range, spanning_bounds),
        );
        lemma_shows_more_concat(
            ctx,
            scene,
            gpu(ended.commands).events,
            gpu(rasterized.commands).events,
            gpu(after.commands).events,
            seq![Shown::PathVertices(range)],
            seq![Shown::PathCopies(range, spanning_bounds)],
        );
        assert(seq![Shown::PathVertices(range)] + seq![Shown::PathCopies(range, spanning_bounds)]
            =~= seq![Shown::PathVertices(range), Shown::PathCopies(range, spanning_bounds)]);
    }
}

proof fn lemma_surfaces_from_shown(ctx: FrameContext, scene: Scene, i: int, end: int, e: Encoding)
    requires
        on_target(ctx, gpu(e.commands)),
        gpu(e.commands).next.vertex_buffers.contains_key(0),
        gpu(e.commands).next.vertex_buffers[0] == (BufferSlot::UnitVertices, 0int),
        gpu(e.commands).next.constants.contains_key(2),
        gpu(e.commands).next.constants[2] == VertexConstant::Size(ctx.viewport_size),
        0 <= e.offset,
        0 <= i <= end <= scene.surfaces@.len(),
        draw_surfaces_from(ctx, scene, i, end, e).0,
    ensures
        ({
            let h = gpu(draw_surfaces_from(ctx, scene, i, end, e).1.commands);
            &&& on_target(ctx, h)
            &&& shows_more(
                ctx,
                scene,
                gpu(e.commands).events,
                h.events,
                Seq::new((end - i) as nat, |k: int| Shown::Surface(i + k)),
            )
        }),
    decreases end - i,
{
    if i < end {
        let stride = scene.surface_stride as int;
        let start = aligned(e.offset);
        let surface = scene.surfaces@[i];
        aligned_is_least_multiple(e.offset);
        let next = e.drawn(start, stride, surface_commands(i, surface, start));
        let after = draw_surfaces_from(ctx, scene, i, end, e).1;
        lemma_surface_shown(ctx, i, surface, start, stride, e);
        lemma_shows_one(
            ctx,
            scene,
            gpu(e.commands).events,
            gpu(next.commands).events,
            Shown::Surface(i),
        );
        lemma_surfaces_from_shown(ctx, scene, i + 1, end, next);
        let rest = Seq::new((end - (i + 1)) as nat, |k: int| Shown::Surface(i + 1 + k));
        lemma_shows_more_concat(
            ctx,
            scene,
            gpu(e.commands).events,
            gpu(next.commands).events,
            gpu(after.commands).events,
            seq![Shown::Surface(i)],
            rest,
        );
        assert(seq![Shown::Surface(i)] + rest =~= Seq::new(
            (end - i) as nat,
            |k: int| Shown::Surface(i + k),
        ));
    }
}

proof fn lemma_surfaces_shown(ctx: FrameContext, scene: Scene, range: Span, e: Encoding)
    requires
        on_target(ctx, gpu(e.commands)),
        0 <= e.offset,
        range.within(scene.surfaces@.len()),
        draw_surfaces_spec(ctx, scene, range, e).0,
    ensures
        ({
            let h = gpu(draw_surfaces_spec(ctx, scene, range, e).1.commands);
            &&& on_target(ctx, h)
            &&& shows_more(
                ctx,
                scene,
                gpu(e.commands).events,
                h.events,
                batch_shown(PrimitiveBatch::Surfaces(range)),
            )
        }),
{
    let c = surface_prologue(ctx);
    lemma_gpu_more(e.commands, c);
    let g = gpu(e.commands);
    let g1 = gpu_step(g, c[0]);
    let g2 = gpu_step(g1, c[1]);
    assert(gpu_from(g, c, 0) == g);
    assert(gpu_from(g, c, 1) == g1);
    assert(gpu_from(g, c, 2) == g2);
    lemma_surfaces_from_shown(
        ctx,
        scene,
        range.start as int,
        range.end as int,
        e.with(surface_prologue(ctx)),
    );
    assert(batch_shown(PrimitiveBatch::Surfaces(range)) =~= Seq::new(
        (range.end as int - range.start as int) as nat,
        |k: int| Shown::Surface(range.start as int + k),
    ));
}

/// A batch that was drawn shows its primitives: a run of shadows, quads, underlines, sprites or
/// blurs with one draw, of as many instances as the run has, from the bytes of the run; a run of
/// paths with one draw of all their vertices and one draw of their copies; and every surface of a
/// run with a draw of its own, with its own placement and its own planes.
pub proof fn batches_show_their_primitives(
    ctx: FrameContext,
    scene: Scene,
    batch: PrimitiveBatch,
    e: Encoding,
)
    requires
        scene.wf(),
        scene.batch_wf(batch),
        on_target(ctx, gpu(e.commands)),
        0 <= e.offset,
        draw_batch_spec(ctx, scene, batch, e).0,
    ensures
        on_target(ctx, gpu(draw_batch_spec(ctx, scene, batch, e).1.commands)),
        shows_more(
            ctx,
            scene,
            gpu(e.commands).events,
            gpu(draw_batch_spec(ctx, scene, batch, e).1.commands).events,
            batch_shown(batch),
        ),
{
    let before = gpu(e.commands).events;
    let after = gpu(draw_batch_spec(ctx, scene, batch, e).1.commands).events;
    match batch {
        PrimitiveBatch::Shadows(range) => {
            if range.start < range.end {
                lemma_shapes_shown(ctx, Pipeline::Shadows, scene.shadows, range, e);
                lemma_shows_one(ctx, scene, before, after, Shown::Shadows(range));
            }
        },
        PrimitiveBatch::BackdropBlurs(range) => lemma_backdrop_blur_batch_shown(
            ctx,
            scene,
            range,
            e,
        ),
        PrimitiveBatch::Quads(range) => {
            if range.start < range.end {
                lemma_shapes_shown(ctx, Pipeline::Quads, scene.quads, range, e);
                lemma_shows_one(ctx, scene, before, after, Shown::Quads(range));
            }
        },
        PrimitiveBatch::Paths { range, spanning_bounds } => lemma_path_batch_shown(
            ctx,
            scene,
            range,
            spanning_bounds,
            e,
        ),
        PrimitiveBatch::Underlines(range) => {
            if range.start < range.end {
                lemma_shapes_shown(ctx, Pipeline::Underlines, scene.underlines, range, e);
                lemma_shows_one(ctx, scene, before, after, Shown::Underlines(range));
            }
        },
        PrimitiveBatch::MonochromeSprites { texture, range } => {
            if range.start < range.end {
                lemma_sprites_shown(
                    ctx,
                    Pipeline::MonochromeSprites,
                    false,
                    texture,
                    scene.monochrome_sprites,
                    range,
                    e,
                );
                lemma_shows_one(
                    ctx,
                    scene,
                    before,
                    after,
                    Shown::MonochromeSprites(texture, range),
                );
            }
        },
        PrimitiveBatch::PolychromeSprites { texture, range } => {
            if range.start < range.end {
                lemma_sprites_shown(
                    ctx,
                    Pipeline::PolychromeSprites,
                    true,
                    texture,
                    scene.polychrome_sprites,
                    range,
                    e,
                );
                lemma_shows_one(
                    ctx,
                    scene,
                    before,
                    after,
                    Shown::PolychromeSprites(texture, range),
                );
            }
        },
        PrimitiveBatch::Surfaces(range) => lemma_surfaces_shown(ctx, scene, range, e),
        PrimitiveBatch::SubpixelSprites { .. } => {},
        PrimitiveBatch::ShaderPasses(_) => {},
    }
}

/// The sprites that copy a run of paths of one draw order: sixteen bytes for each path, and in
/// those of path `k` of the run the clipped bounds of that path. A run of several draw orders is
/// copied by one sprite of the bounds around all of them.
pub proof fn every_path_is_copied_by_its_own_bounds(
    paths: Seq<Path>,
    range: Span,
    spanning_bounds: Bounds<ScaledPixels>,
)
    requires
        range.within(paths.len()),
        range.start < range.end,
    ensures
        ({
            let (bytes, count) = path_sprites(paths, range, spanning_bounds);
            if paths[range.start as int].order == paths[range.end - 1].order {
                &&& count == range.end - range.start
                &&& bytes.len() == 16 * count
                &&& forall|k: int|
                    0 <= k < count ==> #[trigger] bytes.subrange(16 * k, 16 * k + 16)
                        == words_bytes(bounds_words(paths[range.start + k].clipped_bounds))
            } else {
                &&& count == 1
                &&& bytes == words_bytes(bounds_words(spanning_bounds))
            }
        }),
{
    if paths[range.start as int].order == paths[range.end - 1].order {
        lemma_path_sprites_apart(paths, range.start as int, range.end as int);
    }
}

proof fn lemma_path_sprites_apart(paths: Seq<Path>, start: int, end: int)
    requires
        start <= end,
    ensures
        path_sprite_bytes(paths, start, end).len() == 16 * (end - start),
        forall|k: int|
            0 <= k < end - start ==> #[trigger] path_sprite_bytes(paths, start, end).subrange(
                16 * k,
                16 * k + 16,
            ) == words_bytes(bounds_words(paths[start + k].clipped_bounds)),
    decreases end - start,
{
    if start < end {
        let before = path_sprite_bytes(paths, start, end - 1);
        let bytes = path_sprite_bytes(paths, start, end);
        let last = words_bytes(bounds_words(paths[end - 1].clipped_bounds));
        lemma_path_sprites_apart(paths, start, end - 1);
        lemma_words_bytes_len(bounds_words(paths[end - 1].clipped_bounds));
        assert(bytes == before + last);
        assert forall|k: int| 0 <= k < end - start implies #[trigger] bytes.subrange(
            16 * k,
            16 * k + 16,
        ) == words_bytes(bounds_words(paths[start + k].clipped_bounds)) by {
            if k < end - 1 - start {
                assert(bytes.subrange(16 * k, 16 * k + 16) =~= before.subrange(
                    16 * k,
                    16 * k + 16,
                ));
            } else {
                assert(bytes.subrange(16 * k, 16 * k + 16) =~= last);
            }
        }
    }
}

} // verus!
