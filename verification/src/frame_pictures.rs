//! A complete frame shows its whole scene, whatever became of its shaders, and nothing else.

use crate::commands::{Command, CommandModel, Pipeline, VertexConstant};
use crate::encoder::{draw_batch_spec, Encoding, FrameContext};
use crate::frame::{
    awaited, batches_left, frame_run, frame_start, frame_step, frame_step_advances, frame_supplied,
    frame_wf, passes_left, steps_left, Cursor, FrameModel, FrameStatus,
};
use crate::frame_laws::{
    frame_valid, lemma_step_valid, only_unknown_shaders_are_awaited, running_frames_stay_valid,
    started_frames_are_valid, supplied_frames_stay_valid,
};
use crate::outcome::{attempt, lemma_attempt_step};
use crate::picture::{
    batch_shown, batches_shown, capture_shown, draws_pass, gpu, gpu_from, gpu_start, gpu_step,
    lemma_gpu_more, lemma_shows_more_concat, passes_shown, shows, shows_more, Event, Shown,
};
use crate::picture_laws::{
    batches_show_their_primitives, draws_once, last_draw, lemma_pass_shown, lemma_scene_captured,
    lemma_shows_one, on_target,
};
use crate::replay::{replay, replay_from, replay_start};
use crate::scene::{PrimitiveBatch, Scene};
use crate::shader_cache::recorded;
use vstd::prelude::*;

verus! {

/// What a frame shows that has come to the cursor. `pipelines` tells the pipeline of each pass of
/// each batch, if it has one.
pub open spec fn cursor_shown(
    ctx: FrameContext,
    scene: Scene,
    pipelines: spec_fn(int, int) -> Option<u64>,
    cursor: Cursor,
) -> Seq<Shown> {
    match cursor {
        Cursor::Batch(i) => batches_shown(ctx, scene, pipelines, i as int),
        Cursor::Pass { batch, pass } => match scene.batches@[batch as int] {
            PrimitiveBatch::ShaderPasses(range) => batches_shown(
                ctx,
                scene,
                pipelines,
                batch as int,
            ) + (capture_shown(ctx, scene, range) + passes_shown(
                pipelines,
                batch as int,
                range.start as int,
                pass as int,
            )),
            _ => Seq::empty(),
        },
    }
}

/// A frame shows what it has come past, and nothing else. One that is complete has come past all
/// batches.
pub open spec fn frame_shows(
    ctx: FrameContext,
    scene: Scene,
    pipelines: spec_fn(int, int) -> Option<u64>,
    s: FrameModel,
) -> bool {
    s.status != FrameStatus::TooLarge ==> {
        &&& shows_more(
            ctx,
            scene,
            Seq::empty(),
            gpu(s.encoding.commands).events,
            cursor_shown(ctx, scene, pipelines, s.cursor),
        )
        &&& if s.status == FrameStatus::Finished {
            s.cursor == Cursor::Batch(scene.batches@.len() as usize)
        } else {
            on_target(ctx, gpu(s.encoding.commands))
        }
    }
}

/// Pass `p` of batch `b` does not come before the cursor.
pub open spec fn is_ahead(cursor: Cursor, b: int, p: int) -> bool {
    match cursor {
        Cursor::Batch(i) => i <= b,
        Cursor::Pass { batch, pass } => batch < b || (batch == b && pass <= p),
    }
}

/// The scene has a pass `p` in batch `b`.
pub open spec fn has_pass(scene: Scene, b: int, p: int) -> bool {
    &&& 0 <= b < scene.batches@.len()
    &&& scene.batches@[b] matches PrimitiveBatch::ShaderPasses(range)
    &&& range.start <= p < range.end
}

/// The passes that are still to come have the pipelines of their shaders, as far as these are
/// compiled.
pub open spec fn foretold(
    scene: Scene,
    cache: Map<u64, u64>,
    pipelines: spec_fn(int, int) -> Option<u64>,
    cursor: Cursor,
) -> bool {
    forall|b: int, p: int|
        #![trigger pipelines(b, p)]
        has_pass(scene, b, p) && is_ahead(cursor, b, p) && cache.contains_key(
            scene.shader_passes@[p].shader_id,
        ) ==> pipelines(b, p) == Some(cache[scene.shader_passes@[p].shader_id])
}

/// A frame starts out showing nothing.
pub proof fn started_frames_show_nothing(
    ctx: FrameContext,
    scene: Scene,
    pipelines: spec_fn(int, int) -> Option<u64>,
)
    ensures
        frame_shows(ctx, scene, pipelines, frame_start(ctx)),
        gpu(frame_start(ctx).encoding.commands).events.len() == 0,
{
    let c = frame_start(ctx).encoding.commands;
    assert(gpu_from(gpu_start(), c, 0) == gpu_start());
    assert(gpu_from(gpu_start(), c, 1) == gpu_step(gpu_start(), c[0]));
}

/// A pass is drawn with the given pipeline, or skipped.
#[verifier::spinoff_prover]
#[verifier::rlimit(40)]
proof fn lemma_pass_drawn_shows(
    ctx: FrameContext,
    scene: Scene,
    compiled: Option<u64>,
    pipelines: spec_fn(int, int) -> Option<u64>,
    s: FrameModel,
)
    requires
        frame_wf(scene, s),
        s.status == FrameStatus::Running || s.status == FrameStatus::NeedsPipeline,
        frame_shows(ctx, scene, pipelines, s),
        s.cursor matches Cursor::Pass { batch, pass } && {
            &&& has_pass(scene, batch as int, pass as int)
            &&& pipelines(batch as int, pass as int) == compiled
        },
    ensures
        frame_shows(ctx, scene, pipelines, frame_supplied(ctx, scene, compiled, s)),
{
    match s.cursor {
        Cursor::Batch(_) => {},
        Cursor::Pass { batch, pass } => match scene.batches@[batch as int] {
            PrimitiveBatch::ShaderPasses(range) => {
                assert(scene.batch_wf(scene.batches@[batch as int]));
                let b = batch as int;
                let p = pass as int;
                let next = frame_supplied(ctx, scene, compiled, s);
                let before = gpu(s.encoding.commands).events;
                let after = gpu(next.encoding.commands).events;
                let earlier = batches_shown(ctx, scene, pipelines, b);
                let capture = capture_shown(ctx, scene, range);
                let drawn = passes_shown(pipelines, b, range.start as int, p);
                assert(next.cursor == Cursor::Pass { batch, pass: (pass + 1) as usize });
                assert((pass + 1) as usize == p + 1);
                let more = passes_shown(pipelines, b, range.start as int, p + 1);
                match compiled {
                    Some(pipeline) => {
                        lemma_pass_shown(ctx, scene.shader_passes@[p], pipeline, s.encoding);
                        lemma_shows_one(ctx, scene, before, after, Shown::Pass(p, pipeline));
                        lemma_shows_more_concat(
                            ctx,
                            scene,
                            Seq::empty(),
                            before,
                            after,
                            earlier + (capture + drawn),
                            seq![Shown::Pass(p, pipeline)],
                        );
                        assert(earlier + (capture + drawn) + seq![Shown::Pass(p, pipeline)]
                            =~= earlier + (capture + more));
                    },
                    None => {
                        assert(more == drawn);
                    },
                }
            },
            _ => {},
        },
    }
}

#[verifier::spinoff_prover]
#[verifier::rlimit(40)]
proof fn lemma_step_shows(
    ctx: FrameContext,
    scene: Scene,
    cache: Map<u64, u64>,
    pipelines: spec_fn(int, int) -> Option<u64>,
    s: FrameModel,
)
    requires
        frame_wf(scene, s),
        frame_valid(ctx, scene, s),
        s.status == FrameStatus::Running,
        frame_shows(ctx, scene, pipelines, s),
        foretold(scene, cache, pipelines, s.cursor),
    ensures
        frame_shows(ctx, scene, pipelines, frame_step(ctx, scene, cache, s)),
        foretold(scene, cache, pipelines, frame_step(ctx, scene, cache, s).cursor),
{
    let e = s.encoding;
    let next = frame_step(ctx, scene, cache, s);
    let before = gpu(e.commands).events;
    let after = gpu(next.encoding.commands).events;
    assert(scene.batches.len() == scene.batches@.len());
    match s.cursor {
        Cursor::Batch(i) => {
            if i >= scene.batches@.len() {
                let c = if ctx.unified_memory {
                    seq![Command::EndEncoding]
                } else {
                    seq![Command::EndEncoding, Command::SyncInstances { length: e.offset as u64 }]
                };
                lemma_gpu_more(e.commands, c);
                let g = gpu(e.commands);
                assert(gpu_from(g, c, 0) == g);
                assert(gpu_from(g, c, 1) == gpu_step(g, c[0]));
                if !ctx.unified_memory {
                    assert(gpu_from(g, c, 2) == gpu_step(gpu_step(g, c[0]), c[1]));
                }
            } else {
                let batch = scene.batches@[i as int];
                assert(scene.batch_wf(batch));
                let earlier = batches_shown(ctx, scene, pipelines, i as int);
                match batch {
                    PrimitiveBatch::ShaderPasses(range) => {
                        lemma_scene_captured(ctx, scene, range, e);
                        lemma_shows_more_concat(
                            ctx,
                            scene,
                            Seq::empty(),
                            before,
                            after,
                            earlier,
                            capture_shown(ctx, scene, range),
                        );
                        assert(next.cursor == Cursor::Pass { batch: i, pass: range.start });
                        assert(passes_shown(
                            pipelines,
                            i as int,
                            range.start as int,
                            range.start as int,
                        ).len() == 0);
                        assert(cursor_shown(ctx, scene, pipelines, next.cursor) =~= earlier
                            + capture_shown(ctx, scene, range));
                    },
                    _ => {
                        if draw_batch_spec(ctx, scene, batch, e).0 {
                            batches_show_their_primitives(ctx, scene, batch, e);
                            lemma_shows_more_concat(
                                ctx,
                                scene,
                                Seq::empty(),
                                before,
                                after,
                                earlier,
                                batch_shown(batch),
                            );
                            assert((i + 1) as usize == i + 1);
                        }
                    },
                }
            }
        },
        Cursor::Pass { batch, pass } => match scene.batches@[batch as int] {
            PrimitiveBatch::ShaderPasses(range) => {
                if pass < range.end {
                    let id = scene.shader_passes@[pass as int].shader_id;
                    if cache.contains_key(id) {
                        assert(pipelines(batch as int, pass as int) == Some(cache[id]));
                        lemma_pass_drawn_shows(ctx, scene, Some(cache[id]), pipelines, s);
                    }
                } else {
                    assert((batch + 1) as usize == batch + 1);
                    assert(batches_shown(ctx, scene, pipelines, batch + 1) == batches_shown(
                        ctx,
                        scene,
                        pipelines,
                        batch as int,
                    ) + (capture_shown(ctx, scene, range) + passes_shown(
                        pipelines,
                        batch as int,
                        range.start as int,
                        range.end as int,
                    )));
                }
            },
            _ => {},
        },
    }
}

/// A frame that is run as far as it goes shows what it has come past: every batch by its
/// primitives, and every shader pass in its own bounds with its own uniforms and the pipeline of
/// its own shader, in order.
pub proof fn running_frames_show_their_scene(
    ctx: FrameContext,
    scene: Scene,
    cache: Map<u64, u64>,
    pipelines: spec_fn(int, int) -> Option<u64>,
    s: FrameModel,
)
    requires
        frame_wf(scene, s),
        frame_valid(ctx, scene, s),
        frame_shows(ctx, scene, pipelines, s),
        foretold(scene, cache, pipelines, s.cursor),
    ensures
        frame_shows(ctx, scene, pipelines, frame_run(ctx, scene, cache, s)),
    decreases batches_left(scene, s), passes_left(scene, s), steps_left(s),
{
    if s.status == FrameStatus::Running {
        lemma_step_valid(ctx, scene, cache, s);
        lemma_step_shows(ctx, scene, cache, pipelines, s);
        frame_step_advances(ctx, scene, cache, s);
        running_frames_show_their_scene(
            ctx,
            scene,
            cache,
            pipelines,
            frame_step(ctx, scene, cache, s),
        );
    }
}

/// A frame that waits at a shader pass draws that pass with the pipeline that it is given, in the
/// bounds and with the uniforms of the pass, or skips it if it is given none.
pub proof fn supplied_frames_show_the_pass(
    ctx: FrameContext,
    scene: Scene,
    compiled: Option<u64>,
    pipelines: spec_fn(int, int) -> Option<u64>,
    s: FrameModel,
)
    requires
        frame_wf(scene, s),
        s.status == FrameStatus::NeedsPipeline,
        frame_shows(ctx, scene, pipelines, s),
        s.cursor matches Cursor::Pass { batch, pass } ==> pipelines(batch as int, pass as int)
            == compiled,
    ensures
        frame_shows(ctx, scene, pipelines, frame_supplied(ctx, scene, compiled, s)),
{
    lemma_pass_drawn_shows(ctx, scene, compiled, pipelines, s);
}

/// What a frame shows up to the cursor rests only on the pipelines of the passes before it.
proof fn lemma_passes_agree(
    one: spec_fn(int, int) -> Option<u64>,
    other: spec_fn(int, int) -> Option<u64>,
    b: int,
    start: int,
    end: int,
)
    requires
        forall|p: int| start <= p < end ==> #[trigger] one(b, p) == other(b, p),
    ensures
        passes_shown(one, b, start, end) == passes_shown(other, b, start, end),
    decreases end - start,
{
    if start < end {
        lemma_passes_agree(one, other, b, start, end - 1);
        assert(one(b, end - 1) == other(b, end - 1));
    }
}

proof fn lemma_batches_agree(
    ctx: FrameContext,
    scene: Scene,
    one: spec_fn(int, int) -> Option<u64>,
    other: spec_fn(int, int) -> Option<u64>,
    n: int,
)
    requires
        n <= scene.batches@.len(),
        forall|b: int, p: int| b < n && has_pass(scene, b, p) ==> #[trigger] one(b, p) == other(
            b,
            p,
        ),
    ensures
        batches_shown(ctx, scene, one, n) == batches_shown(ctx, scene, other, n),
    decreases n,
{
    if n > 0 {
        lemma_batches_agree(ctx, scene, one, other, n - 1);
        match scene.batches@[n - 1] {
            PrimitiveBatch::ShaderPasses(range) => {
                assert forall|p: int| range.start <= p < range.end implies #[trigger] one(
                    n - 1,
                    p,
                ) == other(n - 1, p) by {
                    assert(has_pass(scene, n - 1, p));
                }
                lemma_passes_agree(one, other, n - 1, range.start as int, range.end as int);
            },
            _ => {},
        }
    }
}

proof fn lemma_frames_agree(
    ctx: FrameContext,
    scene: Scene,
    one: spec_fn(int, int) -> Option<u64>,
    other: spec_fn(int, int) -> Option<u64>,
    s: FrameModel,
)
    requires
        frame_wf(scene, s),
        frame_shows(ctx, scene, one, s),
        forall|b: int, p: int|
            has_pass(scene, b, p) && !is_ahead(s.cursor, b, p) ==> #[trigger] one(b, p) == other(
                b,
                p,
            ),
    ensures
        frame_shows(ctx, scene, other, s),
{
    match s.cursor {
        Cursor::Batch(i) => {
            assert forall|b: int, p: int| b < i && has_pass(scene, b, p) implies #[trigger] one(
                b,
                p,
            ) == other(b, p) by {
                assert(!is_ahead(s.cursor, b, p));
            }
            lemma_batches_agree(ctx, scene, one, other, i as int);
        },
        Cursor::Pass { batch, pass } => match scene.batches@[batch as int] {
            PrimitiveBatch::ShaderPasses(range) => {
                assert forall|b: int, p: int| b < batch && has_pass(
                    scene,
                    b,
                    p,
                ) implies #[trigger] one(b, p) == other(b, p) by {
                    assert(!is_ahead(s.cursor, b, p));
                }
                lemma_batches_agree(ctx, scene, one, other, batch as int);
                assert forall|p: int| range.start <= p < pass implies #[trigger] one(
                    batch as int,
                    p,
                ) == other(batch as int, p) by {
                    assert(has_pass(scene, batch as int, p));
                    assert(!is_ahead(s.cursor, batch as int, p));
                }
                lemma_passes_agree(one, other, batch as int, range.start as int, pass as int);
            },
            _ => {},
        },
    }
}

/// A frame runs past those passes only whose shaders are compiled.
proof fn lemma_run_passes_known(
    ctx: FrameContext,
    scene: Scene,
    cache: Map<u64, u64>,
    s: FrameModel,
)
    requires
        frame_wf(scene, s),
    ensures
        ({
            let t = frame_run(ctx, scene, cache, s);
            forall|b: int, p: int|
                #![trigger has_pass(scene, b, p)]
                has_pass(scene, b, p) && !is_ahead(t.cursor, b, p) ==> !is_ahead(s.cursor, b, p)
                    || cache.contains_key(scene.shader_passes@[p].shader_id)
        }),
    decreases batches_left(scene, s), passes_left(scene, s), steps_left(s),
{
    if s.status == FrameStatus::Running {
        let next = frame_step(ctx, scene, cache, s);
        let t = frame_run(ctx, scene, cache, s);
        frame_step_advances(ctx, scene, cache, s);
        assert(scene.batches.len() == scene.batches@.len());
        match s.cursor {
            Cursor::Batch(i) => {
                if i < scene.batches@.len() {
                    assert(scene.batch_wf(scene.batches@[i as int]));
                }
            },
            Cursor::Pass { batch, .. } => {
                assert(scene.batch_wf(scene.batches@[batch as int]));
            },
        }
        lemma_run_passes_known(ctx, scene, cache, next);
        assert forall|b: int, p: int|
            #![trigger has_pass(scene, b, p)]
            has_pass(scene, b, p) && !is_ahead(t.cursor, b, p) implies !is_ahead(s.cursor, b, p)
            || cache.contains_key(scene.shader_passes@[p].shader_id) by {}
    }
}

/// `pipeline` is a pipeline of the shader `id`: it was compiled before, or for a pass of the scene
/// with that shader.
pub open spec fn is_pipeline_of(
    scene: Scene,
    cache: Map<u64, u64>,
    compile: spec_fn(usize) -> Option<u64>,
    id: u64,
    pipeline: u64,
) -> bool {
    ||| cache.contains_key(id) && cache[id] == pipeline
    ||| exists|q: usize|
        q < scene.shader_passes@.len() && scene.shader_passes@[q as int].shader_id == id
            && #[trigger] compile(q) == Some(pipeline)
}

/// Every pass before the cursor has a pipeline of its own shader, or none. It has one if its shader
/// was compiled before, which it then is, or if it compiles.
pub open spec fn accounted(
    scene: Scene,
    cache: Map<u64, u64>,
    compile: spec_fn(usize) -> Option<u64>,
    pipelines: spec_fn(int, int) -> Option<u64>,
    cursor: Cursor,
) -> bool {
    forall|b: int, p: int|
        #![trigger pipelines(b, p)]
        has_pass(scene, b, p) && !is_ahead(cursor, b, p) ==> {
            let id = scene.shader_passes@[p].shader_id;
            &&& pipelines(b, p) matches Some(pipeline) ==> is_pipeline_of(
                scene,
                cache,
                compile,
                id,
                pipeline,
            )
            &&& cache.contains_key(id) ==> pipelines(b, p) == Some(cache[id])
            &&& compile(p as usize) is Some ==> pipelines(b, p) is Some
        }
}

#[verifier::spinoff_prover]
#[verifier::rlimit(40)]
proof fn lemma_attempt_shows(
    ctx: FrameContext,
    scene: Scene,
    first: Map<u64, u64>,
    cache: Map<u64, u64>,
    compile: spec_fn(usize) -> Option<u64>,
    pipelines: spec_fn(int, int) -> Option<u64>,
    s: FrameModel,
) -> (all: spec_fn(int, int) -> Option<u64>)
    requires
        frame_wf(scene, s),
        frame_valid(ctx, scene, s),
        s.status == FrameStatus::Running,
        frame_shows(ctx, scene, pipelines, s),
        accounted(scene, first, compile, pipelines, s.cursor),
        forall|id: u64| #[trigger]
            first.contains_key(id) ==> cache.contains_key(id) && cache[id] == first[id],
        forall|id: u64| #[trigger]
            cache.contains_key(id) ==> is_pipeline_of(scene, first, compile, id, cache[id]),
    ensures
        frame_shows(ctx, scene, all, attempt(ctx, scene, cache, compile, s).0),
        accounted(
            scene,
            first,
            compile,
            all,
            attempt(ctx, scene, cache, compile, s).0.cursor,
        ),
    decreases batches_left(scene, s), passes_left(scene, s),
{
    let known = |b: int, p: int|
        if is_ahead(s.cursor, b, p) {
            let id = scene.shader_passes@[p].shader_id;
            if cache.contains_key(id) {
                Some(cache[id])
            } else {
                None::<u64>
            }
        } else {
            pipelines(b, p)
        };
    lemma_frames_agree(ctx, scene, pipelines, known, s);
    running_frames_show_their_scene(ctx, scene, cache, known, s);
    running_frames_stay_valid(ctx, scene, cache, s);
    lemma_run_passes_known(ctx, scene, cache, s);
    lemma_attempt_step(ctx, scene, cache, compile, s);
    only_unknown_shaders_are_awaited(ctx, scene, cache, s);
    let t = frame_run(ctx, scene, cache, s);
    assert(accounted(scene, first, compile, known, t.cursor)) by {
        assert forall|b: int, p: int|
            #![trigger known(b, p)]
            has_pass(scene, b, p) && !is_ahead(t.cursor, b, p) implies {
            let id = scene.shader_passes@[p].shader_id;
            &&& known(b, p) matches Some(pipeline) ==> is_pipeline_of(
                scene,
                first,
                compile,
                id,
                pipeline,
            )
            &&& first.contains_key(id) ==> known(b, p) == Some(first[id])
            &&& compile(p as usize) is Some ==> known(b, p) is Some
        } by {
            if !is_ahead(s.cursor, b, p) {
                assert(known(b, p) == pipelines(b, p));
            }
        }
    }
    match (awaited(t), t.cursor) {
        (Some(pass), Cursor::Pass { batch, .. }) => {
            assert(scene.batch_wf(scene.batches@[batch as int]));
            let shader_pass = scene.shader_passes@[pass as int];
            let next = frame_supplied(ctx, scene, compile(pass), t);
            let told = |b: int, p: int|
                if b == batch && p == pass {
                    compile(pass)
                } else {
                    known(b, p)
                };
            lemma_frames_agree(ctx, scene, known, told, t);
            supplied_frames_show_the_pass(ctx, scene, compile(pass), told, t);
            supplied_frames_stay_valid(ctx, scene, compile(pass), t);
            assert(accounted(scene, first, compile, told, next.cursor)) by {
                assert forall|b: int, p: int|
                    #![trigger told(b, p)]
                    has_pass(scene, b, p) && !is_ahead(next.cursor, b, p) implies {
                    let id = scene.shader_passes@[p].shader_id;
                    &&& told(b, p) matches Some(pipeline) ==> is_pipeline_of(
                        scene,
                        first,
                        compile,
                        id,
                        pipeline,
                    )
                    &&& first.contains_key(id) ==> told(b, p) == Some(first[id])
                    &&& compile(p as usize) is Some ==> told(b, p) is Some
                } by {
                    if !(b == batch && p == pass) {
                        assert(told(b, p) == known(b, p));
                    }
                }
            }
            lemma_attempt_shows(
                ctx,
                scene,
                first,
                recorded(cache, shader_pass, compile(pass)),
                compile,
                told,
                next,
            )
        },
        _ => known,
    }
}

/// A frame that is complete has come past every pass of its scene, and shows all of it: batch by
/// batch, in order, every primitive, and every shader pass that has a pipeline.
pub open spec fn shows_whole_scene(
    ctx: FrameContext,
    scene: Scene,
    cache: Map<u64, u64>,
    compile: spec_fn(usize) -> Option<u64>,
    pipelines: spec_fn(int, int) -> Option<u64>,
    events: Seq<Event>,
) -> bool {
    &&& shows_more(
        ctx,
        scene,
        Seq::empty(),
        events,
        batches_shown(ctx, scene, pipelines, scene.batches@.len() as int),
    )
    &&& accounted(
        scene,
        cache,
        compile,
        pipelines,
        Cursor::Batch(scene.batches@.len() as usize),
    )
}

/// A frame that completes shows its whole scene and nothing else, whatever becomes of its shaders:
/// the draws are those of the batches, in order, and a shader pass is drawn, with a pipeline of its
/// own shader, if that was compiled before or compiles now.
pub proof fn complete_frames_show_their_scene(
    ctx: FrameContext,
    scene: Scene,
    cache: Map<u64, u64>,
    compile: spec_fn(usize) -> Option<u64>,
)
    requires
        scene.wf(),
    ensures
        ({
            let (t, _) = attempt(ctx, scene, cache, compile, frame_start(ctx));
            t.status == FrameStatus::Finished ==> exists|
                pipelines: spec_fn(int, int) -> Option<u64>,
            | #[trigger]
                shows_whole_scene(
                    ctx,
                    scene,
                    cache,
                    compile,
                    pipelines,
                    gpu(t.encoding.commands).events,
                )
        }),
{
    let s = frame_start(ctx);
    let (t, _) = attempt(ctx, scene, cache, compile, s);
    let none = |b: int, p: int| None::<u64>;
    started_frames_are_valid(ctx, scene);
    started_frames_show_nothing(ctx, scene, none);
    assert forall|b: int, p: int| has_pass(scene, b, p) implies is_ahead(s.cursor, b, p) by {}
    let all = lemma_attempt_shows(ctx, scene, cache, cache, compile, none, s);
    if t.status == FrameStatus::Finished {
        assert(scene.batches.len() == scene.batches@.len());
        assert(shows_whole_scene(
            ctx,
            scene,
            cache,
            compile,
            all,
            gpu(t.encoding.commands).events,
        ));
    }
}

/// Bytes that lie in the instance buffer lie there still.
pub open spec fn keeps_bytes(before: Map<int, u8>, after: Map<int, u8>) -> bool {
    forall|a: int| #[trigger]
        before.contains_key(a) ==> after.contains_key(a) && after[a] == before[a]
}

/// The bytes that a draw found in the instance buffer lie there still.
pub open spec fn keeps_drawn(event: Event, memory: Map<int, u8>) -> bool {
    match event {
        Event::Drawn(call) => keeps_bytes(call.memory, memory),
        Event::Copied { .. } => true,
    }
}

proof fn lemma_drawn_bytes_stay(commands: Seq<CommandModel>, n: int)
    requires
        0 <= n <= commands.len(),
        replay_from(replay_start(), commands, n).valid,
    ensures
        ({
            let g = gpu_from(gpu_start(), commands, n);
            let r = replay_from(replay_start(), commands, n);
            &&& 0 <= r.filled
            &&& forall|a: int| #[trigger] g.next.memory.contains_key(a) ==> 0 <= a < r.filled
            &&& forall|i: int|
                0 <= i < g.events.len() ==> keeps_drawn(#[trigger] g.events[i], g.next.memory)
        }),
    decreases n,
{
    if n > 0 {
        lemma_drawn_bytes_stay(commands, n - 1);
        let g = gpu_from(gpu_start(), commands, n - 1);
        let h = gpu_from(gpu_start(), commands, n);
        assert(h == gpu_step(g, commands[n - 1]));
        assert(keeps_bytes(g.next.memory, h.next.memory));
        assert forall|i: int| 0 <= i < h.events.len() implies keeps_drawn(
            #[trigger] h.events[i],
            h.next.memory,
        ) by {
            if i < g.events.len() {
                assert(h.events[i] == g.events[i]);
                assert(keeps_drawn(g.events[i], g.next.memory));
            }
        }
    }
}

/// What a draw of a valid list of commands found in the instance buffer lies there still when all
/// commands were encoded, and lies where the buffer is filled. The GPU reads it only then.
pub proof fn drawn_bytes_stay(commands: Seq<CommandModel>)
    requires
        replay(commands).valid,
    ensures
        forall|i: int|
            0 <= i < gpu(commands).events.len() ==> keeps_drawn(
                #[trigger] gpu(commands).events[i],
                gpu(commands).next.memory,
            ),
        forall|a: int| #[trigger]
            gpu(commands).next.memory.contains_key(a) ==> 0 <= a < replay(commands).filled,
{
    lemma_drawn_bytes_stay(commands, commands.len() as int);
}

/// A frame ends its last render pass and then tells the GPU which bytes were written: none where
/// the memory is shared, else all that lie in front of its offset.
pub open spec fn announces_bytes(ctx: FrameContext, e: Encoding) -> bool {
    let n = e.commands.len();
    if ctx.unified_memory {
        n > 0 && e.commands[n - 1] is EndEncoding
    } else {
        &&& n > 1 && e.commands[n - 2] is EndEncoding
        &&& e.commands[n - 1] == Command::<Seq<u8>>::SyncInstances { length: e.offset as u64 }
        &&& 0 <= e.offset <= ctx.buffer_size
        &&& forall|a: int| #[trigger]
            gpu(e.commands).next.memory.contains_key(a) ==> 0 <= a < e.offset
    }
}

/// Where the memory is not shared, a complete frame announces every byte that it wrote into the
/// instance buffer, and does so behind its last draw.
pub proof fn complete_frames_announce_their_bytes(
    ctx: FrameContext,
    scene: Scene,
    cache: Map<u64, u64>,
    s: FrameModel,
)
    requires
        frame_wf(scene, s),
        frame_valid(ctx, scene, s),
        s.status != FrameStatus::Finished,
    ensures
        frame_run(ctx, scene, cache, s).status == FrameStatus::Finished ==> announces_bytes(
            ctx,
            frame_run(ctx, scene, cache, s).encoding,
        ),
    decreases batches_left(scene, s), passes_left(scene, s), steps_left(s),
{
    if s.status == FrameStatus::Running {
        let next = frame_step(ctx, scene, cache, s);
        lemma_step_valid(ctx, scene, cache, s);
        frame_step_advances(ctx, scene, cache, s);
        if next.status == FrameStatus::Finished {
            drawn_bytes_stay(next.encoding.commands);
            assert(frame_run(ctx, scene, cache, next) == next);
        } else {
            complete_frames_announce_their_bytes(ctx, scene, cache, next);
        }
    }
}

/// A frame that stands at a shader pass whose shader is compiled makes one draw: of that pass, with
/// the pipeline of its shader, in its own bounds, with its own uniforms, and with the captured
/// scene exactly if it samples it.
pub proof fn passes_at_the_cursor_are_drawn(
    ctx: FrameContext,
    scene: Scene,
    cache: Map<u64, u64>,
    batch: usize,
    pass: usize,
    s: FrameModel,
)
    requires
        frame_wf(scene, s),
        s.status == FrameStatus::Running,
        s.cursor == (Cursor::Pass { batch, pass }),
        has_pass(scene, batch as int, pass as int),
        on_target(ctx, gpu(s.encoding.commands)),
        cache.contains_key(scene.shader_passes@[pass as int].shader_id),
    ensures
        ({
            let shader_pass = scene.shader_passes@[pass as int];
            let g = gpu(s.encoding.commands);
            let h = gpu(frame_step(ctx, scene, cache, s).encoding.commands);
            &&& draws_once(g, h)
            &&& draws_pass(ctx, last_draw(h), shader_pass, cache[shader_pass.shader_id])
            &&& frame_step(ctx, scene, cache, s).cursor == (Cursor::Pass {
                batch,
                pass: (pass + 1) as usize,
            })
        }),
{
    let shader_pass = scene.shader_passes@[pass as int];
    lemma_pass_shown(ctx, shader_pass, cache[shader_pass.shader_id], s.encoding);
}

/// A frame that waits at a shader pass and is given a pipeline makes one draw: of that pass, with
/// that pipeline, in its own bounds, with its own uniforms, and with the captured scene exactly if
/// it samples it.
pub proof fn awaited_passes_are_drawn(
    ctx: FrameContext,
    scene: Scene,
    pipeline: u64,
    batch: usize,
    pass: usize,
    s: FrameModel,
)
    requires
        frame_wf(scene, s),
        s.status == FrameStatus::NeedsPipeline,
        s.cursor == (Cursor::Pass { batch, pass }),
        on_target(ctx, gpu(s.encoding.commands)),
    ensures
        ({
            let g = gpu(s.encoding.commands);
            let h = gpu(frame_supplied(ctx, scene, Some(pipeline), s).encoding.commands);
            &&& draws_once(g, h)
            &&& draws_pass(ctx, last_draw(h), scene.shader_passes@[pass as int], pipeline)
            &&& frame_supplied(ctx, scene, Some(pipeline), s).cursor == (Cursor::Pass {
                batch,
                pass: (pass + 1) as usize,
            })
        }),
{
    lemma_pass_shown(ctx, scene.shader_passes@[pass as int], pipeline, s.encoding);
}

/// The bounds, with the uniforms, that the draws of shader passes among the first `n` events take.
pub open spec fn passes_drawn(events: Seq<Event>, n: int) -> Seq<(VertexConstant, Seq<u8>)>
    decreases n,
{
    if n <= 0 {
        Seq::empty()
    } else {
        let before = passes_drawn(events, n - 1);
        match events[n - 1] {
            Event::Drawn(call) => match call.pipeline {
                Some(Pipeline::ShaderPass(_)) => before.push(
                    (call.constants[1], call.uniforms[0]),
                ),
                _ => before,
            },
            Event::Copied { .. } => before,
        }
    }
}

/// The bounds, with the uniforms, of the shader passes of the first `n` batches of a scene.
pub open spec fn passes_in(scene: Scene, n: int) -> Seq<(VertexConstant, Seq<u8>)>
    decreases n,
{
    if n <= 0 {
        Seq::empty()
    } else {
        passes_in(scene, n - 1) + match scene.batches@[n - 1] {
            PrimitiveBatch::ShaderPasses(range) => passes_of_run(
                scene,
                range.start as int,
                range.end as int,
            ),
            _ => Seq::empty(),
        }
    }
}

/// The bounds, with the uniforms, of the shader passes `start..end`.
pub open spec fn passes_of_run(scene: Scene, start: int, end: int) -> Seq<
    (VertexConstant, Seq<u8>),
> {
    Seq::new(
        (end - start) as nat,
        |k: int|
            (
                VertexConstant::Bounds(scene.shader_passes@[start + k].bounds),
                scene.shader_passes@[start + k].uniforms@,
            ),
    )
}

spec fn passes_among(scene: Scene, shown: Seq<Shown>) -> Seq<(VertexConstant, Seq<u8>)>
    decreases shown.len(),
{
    if shown.len() == 0 {
        Seq::empty()
    } else {
        let before = passes_among(scene, shown.drop_last());
        match shown.last() {
            Shown::Pass(p, _) => before.push(
                (
                    VertexConstant::Bounds(scene.shader_passes@[p].bounds),
                    scene.shader_passes@[p].uniforms@,
                ),
            ),
            _ => before,
        }
    }
}

proof fn lemma_passes_drawn(ctx: FrameContext, scene: Scene, events: Seq<Event>, shown: Seq<Shown>)
    requires
        shows_more(ctx, scene, Seq::empty(), events, shown),
    ensures
        passes_drawn(events, events.len() as int) == passes_among(scene, shown),
    decreases events.len(),
{
    if events.len() > 0 {
        let n = events.len() - 1;
        let fewer = events.drop_last();
        assert(shows(ctx, scene, events[n], shown[n]));
        assert forall|i: int| 0 <= i < fewer.len() implies shows(
            ctx,
            scene,
            #[trigger] fewer[i],
            shown.drop_last()[i],
        ) by {
            assert(events[i] == fewer[i]);
        }
        lemma_passes_drawn(ctx, scene, fewer, shown.drop_last());
        lemma_passes_drawn_before(events, n);
    }
}

proof fn lemma_passes_drawn_before(events: Seq<Event>, n: int)
    requires
        n < events.len(),
    ensures
        passes_drawn(events, n) == passes_drawn(events.drop_last(), n),
    decreases n,
{
    if n > 0 {
        lemma_passes_drawn_before(events, n - 1);
    }
}

proof fn lemma_passes_among_concat(scene: Scene, a: Seq<Shown>, b: Seq<Shown>)
    ensures
        passes_among(scene, a + b) == passes_among(scene, a) + passes_among(scene, b),
    decreases b.len(),
{
    if b.len() == 0 {
        assert(a + b =~= a);
    } else {
        lemma_passes_among_concat(scene, a, b.drop_last());
        assert((a + b).drop_last() =~= a + b.drop_last());
        assert((a + b).last() == b.last());
    }
}

proof fn lemma_no_passes_among(scene: Scene, shown: Seq<Shown>)
    requires
        forall|i: int| 0 <= i < shown.len() ==> !(#[trigger] shown[i] is Pass),
    ensures
        passes_among(scene, shown) == Seq::<(VertexConstant, Seq<u8>)>::empty(),
    decreases shown.len(),
{
    if shown.len() > 0 {
        assert(!(shown[shown.len() - 1] is Pass));
        assert forall|i: int| 0 <= i < shown.drop_last().len() implies !(
        #[trigger] shown.drop_last()[i] is Pass) by {
            assert(!(shown[i] is Pass));
        }
        lemma_no_passes_among(scene, shown.drop_last());
    }
}

proof fn lemma_run_among(
    scene: Scene,
    pipelines: spec_fn(int, int) -> Option<u64>,
    b: int,
    start: int,
    end: int,
)
    requires
        start <= end,
        forall|p: int| start <= p < end ==> (#[trigger] pipelines(b, p)) is Some,
    ensures
        passes_among(scene, passes_shown(pipelines, b, start, end)) == passes_of_run(
            scene,
            start,
            end,
        ),
    decreases end - start,
{
    if start < end {
        lemma_run_among(scene, pipelines, b, start, end - 1);
        assert(pipelines(b, end - 1) is Some);
        let shown = passes_shown(pipelines, b, start, end);
        assert(shown.drop_last() =~= passes_shown(pipelines, b, start, end - 1));
        assert(passes_among(scene, shown) =~= passes_of_run(scene, start, end));
    }
}

proof fn lemma_batches_among(
    ctx: FrameContext,
    scene: Scene,
    pipelines: spec_fn(int, int) -> Option<u64>,
    n: int,
)
    requires
        scene.wf(),
        n <= scene.batches@.len(),
        forall|b: int, p: int| has_pass(scene, b, p) ==> (#[trigger] pipelines(b, p)) is Some,
    ensures
        passes_among(scene, batches_shown(ctx, scene, pipelines, n)) == passes_in(scene, n),
    decreases n,
{
    if n > 0 {
        lemma_batches_among(ctx, scene, pipelines, n - 1);
        let before = batches_shown(ctx, scene, pipelines, n - 1);
        let batch = scene.batches@[n - 1];
        assert(scene.batch_wf(batch));
        match batch {
            PrimitiveBatch::ShaderPasses(range) => {
                let start = range.start as int;
                let end = range.end as int;
                let capture = capture_shown(ctx, scene, range);
                let run = passes_shown(pipelines, n - 1, start, end);
                assert forall|p: int| start <= p < end implies (#[trigger] pipelines(
                    n - 1,
                    p,
                )) is Some by {
                    assert(has_pass(scene, n - 1, p));
                }
                lemma_run_among(scene, pipelines, n - 1, start, end);
                lemma_no_passes_among(scene, capture);
                lemma_passes_among_concat(scene, capture, run);
                lemma_passes_among_concat(scene, before, capture + run);
                assert(passes_among(scene, capture + run) =~= passes_of_run(scene, start, end));
            },
            _ => {
                lemma_no_passes_among(scene, batch_shown(batch));
                lemma_passes_among_concat(scene, before, batch_shown(batch));
            },
        }
    }
}

/// In a complete frame whose shaders all compile, the bounds and the uniforms that are bound for
/// the draws of shader passes are, in order, those of the passes of the batches.
pub proof fn shader_passes_are_drawn_in_order(
    ctx: FrameContext,
    scene: Scene,
    cache: Map<u64, u64>,
    compile: spec_fn(usize) -> Option<u64>,
)
    requires
        scene.wf(),
        forall|p: usize| p < scene.shader_passes@.len() ==> (#[trigger] compile(p)) is Some,
    ensures
        ({
            let (t, _) = attempt(ctx, scene, cache, compile, frame_start(ctx));
            let events = gpu(t.encoding.commands).events;
            t.status == FrameStatus::Finished ==> passes_drawn(events, events.len() as int)
                == passes_in(scene, scene.batches@.len() as int)
        }),
{
    complete_frames_show_their_scene(ctx, scene, cache, compile);
    let (t, _) = attempt(ctx, scene, cache, compile, frame_start(ctx));
    let events = gpu(t.encoding.commands).events;
    if t.status == FrameStatus::Finished {
        let pipelines = choose|pipelines: spec_fn(int, int) -> Option<u64>| #[trigger]
            shows_whole_scene(ctx, scene, cache, compile, pipelines, events);
        let n = scene.batches@.len() as int;
        assert(scene.batches.len() == scene.batches@.len());
        assert(scene.shader_passes.len() == scene.shader_passes@.len());
        assert forall|b: int, p: int| has_pass(scene, b, p) implies (#[trigger] pipelines(
            b,
            p,
        )) is Some by {
            assert(scene.batch_wf(scene.batches@[b]));
            assert(!is_ahead(Cursor::Batch(n as usize), b, p));
            assert(compile(p as usize) is Some);
        }
        lemma_passes_drawn(ctx, scene, events, batches_shown(ctx, scene, pipelines, n));
        lemma_batches_among(ctx, scene, pipelines, n);
    }
}

} // verus!
