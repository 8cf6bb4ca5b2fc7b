//! How a rendering ends, over all of its attempts.

use crate::encoder::FrameContext;
use crate::frame::{
    awaited, batches_left, frame_run, frame_start, frame_supplied, frame_wf, passes_left,
    FrameModel, FrameStatus,
};
use crate::frame_laws::{
    frame_valid, lemma_run_goes_on, lemma_supplied_goes_on, only_unknown_shaders_are_awaited,
    running_frames_stay_valid, started_frames_are_valid, supplied_frames_stay_valid,
    with_buffer_size,
};
use crate::pool::{doubled, grown, growths_left, MAX_BUFFER_SIZE};
use crate::scene::Scene;
use crate::shader_cache::recorded;
use crate::space::{
    roomy, roomy_frames_fit, scene_space, scenes_fit_into_their_space, supplied_frames_stay_roomy,
};
use vstd::prelude::*;

verus! {

/// A frame that is told what became of every shader that it waits for, up to its end, and the
/// pipelines that are then compiled. `compile` tells what becomes of the shader of a pass.
pub open spec fn attempt(
    ctx: FrameContext,
    scene: Scene,
    cache: Map<u64, u64>,
    compile: spec_fn(usize) -> Option<u64>,
    s: FrameModel,
) -> (FrameModel, Map<u64, u64>)
    decreases batches_left(scene, s), passes_left(scene, s),
    when frame_wf(scene, s) && s.status == FrameStatus::Running
    via attempt_decreases
{
    let t = frame_run(ctx, scene, cache, s);
    match awaited(t) {
        None => (t, cache),
        Some(pass) => attempt(
            ctx,
            scene,
            recorded(cache, scene.shader_passes@[pass as int], compile(pass)),
            compile,
            frame_supplied(ctx, scene, compile(pass), t),
        ),
    }
}

#[via_fn]
proof fn attempt_decreases(
    ctx: FrameContext,
    scene: Scene,
    cache: Map<u64, u64>,
    compile: spec_fn(usize) -> Option<u64>,
    s: FrameModel,
) {
    lemma_attempt_step(ctx, scene, cache, compile, s);
}

pub proof fn lemma_attempt_step(
    ctx: FrameContext,
    scene: Scene,
    cache: Map<u64, u64>,
    compile: spec_fn(usize) -> Option<u64>,
    s: FrameModel,
)
    requires
        frame_wf(scene, s),
        s.status == FrameStatus::Running,
    ensures
        ({
            let t = frame_run(ctx, scene, cache, s);
            &&& frame_wf(scene, t)
            &&& match awaited(t) {
                None => t.status == FrameStatus::Finished || t.status == FrameStatus::TooLarge,
                Some(pass) => {
                    let next = frame_supplied(ctx, scene, compile(pass), t);
                    &&& frame_wf(scene, next)
                    &&& next.status == FrameStatus::Running
                    &&& decreases_to!(
                        batches_left(scene, s), passes_left(scene, s)
                        => batches_left(scene, next), passes_left(scene, next)
                    )
                },
            }
        }),
{
    lemma_run_goes_on(ctx, scene, cache, s);
    only_unknown_shaders_are_awaited(ctx, scene, cache, s);
    let t = frame_run(ctx, scene, cache, s);
    match awaited(t) {
        None => {},
        Some(pass) => {
            lemma_supplied_goes_on(ctx, scene, compile(pass), t);
        },
    }
}

/// An attempt ends: its frame is complete, or it does not fit. Its commands are valid.
pub proof fn attempts_end(
    ctx: FrameContext,
    scene: Scene,
    cache: Map<u64, u64>,
    compile: spec_fn(usize) -> Option<u64>,
    s: FrameModel,
)
    requires
        frame_wf(scene, s),
        frame_valid(ctx, scene, s),
        s.status == FrameStatus::Running,
    ensures
        ({
            let (t, _) = attempt(ctx, scene, cache, compile, s);
            &&& t.status == FrameStatus::Finished || t.status == FrameStatus::TooLarge
            &&& frame_valid(ctx, scene, t)
        }),
    decreases batches_left(scene, s), passes_left(scene, s),
{
    lemma_attempt_step(ctx, scene, cache, compile, s);
    running_frames_stay_valid(ctx, scene, cache, s);
    let t = frame_run(ctx, scene, cache, s);
    match awaited(t) {
        None => {},
        Some(pass) => {
            supplied_frames_stay_valid(ctx, scene, compile(pass), t);
            let compiled = recorded(cache, scene.shader_passes@[pass as int], compile(pass));
            attempts_end(
                ctx,
                scene,
                compiled,
                compile,
                frame_supplied(ctx, scene, compile(pass), t),
            );
        },
    }
}

/// An attempt for which there is space completes its frame.
pub proof fn roomy_attempts_complete(
    ctx: FrameContext,
    scene: Scene,
    cache: Map<u64, u64>,
    compile: spec_fn(usize) -> Option<u64>,
    s: FrameModel,
)
    requires
        frame_wf(scene, s),
        roomy(ctx, scene, s),
        s.status == FrameStatus::Running,
    ensures
        attempt(ctx, scene, cache, compile, s).0.status == FrameStatus::Finished,
    decreases batches_left(scene, s), passes_left(scene, s),
{
    lemma_attempt_step(ctx, scene, cache, compile, s);
    roomy_frames_fit(ctx, scene, cache, s);
    let t = frame_run(ctx, scene, cache, s);
    match awaited(t) {
        None => {},
        Some(pass) => {
            supplied_frames_stay_roomy(ctx, scene, compile(pass), t);
            let compiled = recorded(cache, scene.shader_passes@[pass as int], compile(pass));
            roomy_attempts_complete(
                ctx,
                scene,
                compiled,
                compile,
                frame_supplied(ctx, scene, compile(pass), t),
            );
        },
    }
}

/// How a rendering ends that starts with instance buffers of `size` bytes: with a complete frame
/// and the size of the buffer that it fits into, or with the size that could not be grown any
/// more. `compile` tells what becomes of the shader of a pass in the attempt with a given size.
pub open spec fn rendered(
    ctx: FrameContext,
    scene: Scene,
    cache: Map<u64, u64>,
    compile: spec_fn(int) -> (spec_fn(usize) -> Option<u64>),
    size: int,
) -> Result<(FrameModel, int), int>
    decreases growths_left(size),
    when size > 0
{
    let sized = with_buffer_size(ctx, size as usize);
    let (frame, compiled) = attempt(sized, scene, cache, compile(size), frame_start(sized));
    if frame.status == FrameStatus::Finished {
        Ok((frame, size))
    } else {
        match grown(size) {
            None => Err(size),
            Some(larger) => rendered(ctx, scene, compiled, compile, larger),
        }
    }
}

/// A scene whose batches, with the gaps between them, fit into an instance buffer of the limit is
/// rendered, whatever the size of the buffers at first and whatever becomes of its shaders. It
/// takes textures for its paths and its backdrop.
pub proof fn scenes_within_the_limit_are_rendered(
    ctx: FrameContext,
    scene: Scene,
    cache: Map<u64, u64>,
    compile: spec_fn(int) -> (spec_fn(usize) -> Option<u64>),
    size: int,
)
    requires
        scene.wf(),
        ctx.path_texture,
        ctx.backdrop_texture,
        0 < size <= usize::MAX,
        scene_space(scene, 0) <= MAX_BUFFER_SIZE,
    ensures
        match rendered(ctx, scene, cache, compile, size) {
            Ok((frame, used)) => {
                &&& frame.status == FrameStatus::Finished
                &&& size <= used <= usize::MAX
                &&& frame_valid(with_buffer_size(ctx, used as usize), scene, frame)
            },
            Err(_) => false,
        },
    decreases growths_left(size),
{
    let sized = with_buffer_size(ctx, size as usize);
    started_frames_are_valid(sized, scene);
    attempts_end(sized, scene, cache, compile(size), frame_start(sized));
    match grown(size) {
        None => {
            scenes_fit_into_their_space(sized, scene);
            roomy_attempts_complete(sized, scene, cache, compile(size), frame_start(sized));
        },
        Some(larger) => {
            let compiled = attempt(sized, scene, cache, compile(size), frame_start(sized)).1;
            scenes_within_the_limit_are_rendered(ctx, scene, compiled, compile, larger);
        },
    }
}

/// The sizes of the instance buffers that a rendering tries, in order.
pub open spec fn sizes_tried(
    ctx: FrameContext,
    scene: Scene,
    cache: Map<u64, u64>,
    compile: spec_fn(int) -> (spec_fn(usize) -> Option<u64>),
    size: int,
) -> Seq<int>
    decreases growths_left(size),
    when size > 0
{
    let sized = with_buffer_size(ctx, size as usize);
    let (frame, compiled) = attempt(sized, scene, cache, compile(size), frame_start(sized));
    if frame.status == FrameStatus::Finished {
        seq![size]
    } else {
        match grown(size) {
            None => seq![size],
            Some(larger) => seq![size] + sizes_tried(ctx, scene, compiled, compile, larger),
        }
    }
}

/// A rendering that is given up has tried its first size and every doubling of it, each once, up
/// to the first that is not below the limit, which is the one that it reports.
pub proof fn renderings_are_given_up_at_the_limit(
    ctx: FrameContext,
    scene: Scene,
    cache: Map<u64, u64>,
    compile: spec_fn(int) -> (spec_fn(usize) -> Option<u64>),
    size: int,
)
    requires
        0 < size,
    ensures
        rendered(ctx, scene, cache, compile, size) matches Err(last) ==> {
            &&& last == doubled(size, growths_left(size))
            &&& last >= MAX_BUFFER_SIZE
            &&& forall|n: nat|
                n < growths_left(size) ==> #[trigger] doubled(size, n) < MAX_BUFFER_SIZE
            &&& sizes_tried(ctx, scene, cache, compile, size) == Seq::new(
                growths_left(size) + 1,
                |n: int| doubled(size, n as nat),
            )
        },
    decreases growths_left(size),
{
    let sized = with_buffer_size(ctx, size as usize);
    let tried = sizes_tried(ctx, scene, cache, compile, size);
    let doublings = Seq::new(growths_left(size) + 1, |n: int| doubled(size, n as nat));
    match grown(size) {
        None => {
            assert(tried =~= doublings);
        },
        Some(larger) => {
            let compiled = attempt(sized, scene, cache, compile(size), frame_start(sized)).1;
            renderings_are_given_up_at_the_limit(ctx, scene, compiled, compile, larger);
            if rendered(ctx, scene, cache, compile, size) is Err {
                assert forall|n: nat| n < growths_left(size) implies #[trigger] doubled(size, n)
                    < MAX_BUFFER_SIZE by {
                    if n > 0 {
                        assert(doubled(size, n) == doubled(larger, (n - 1) as nat));
                    }
                }
                assert forall|n: int| 0 <= n < doublings.len() implies #[trigger] tried[n]
                    == doublings[n] by {
                    if n > 0 {
                        assert(doubled(size, n as nat) == doubled(larger, (n - 1) as nat));
                    }
                }
                assert(tried =~= doublings);
            }
        },
    }
}

} // verus!
