//! A frame, encoded batch by batch.
//!
//! Only the device can compile the shader of a shader pass. So the encoding of a frame stops
//! where it meets a shader that is not compiled, and goes on when it is told what became of it.

use crate::encoder::{
    abandon_spec, begin_shader_passes_spec, begin_spec, draw_batch_spec, finish_spec,
    shader_pass_commands, Encoding, FrameContext, FrameEncoder,
};
use crate::scene::{PrimitiveBatch, Scene, Span};
use crate::shader_cache::ShaderPassPipelines;
use vstd::prelude::*;

verus! {

/// Where in the scene a frame stands.
#[derive(Clone, Copy, Debug, PartialEq, Eq)]
pub enum Cursor {
    /// Before a batch.
    Batch(usize),
    /// Before a pass of a batch of shader passes.
    Pass { batch: usize, pass: usize },
}

/// How far a frame has come.
#[derive(Clone, Copy, Debug, PartialEq, Eq)]
pub enum FrameStatus {
    /// There is more to encode.
    Running,
    /// The shader of the pass at the cursor is to be compiled.
    NeedsPipeline,
    /// The frame is complete.
    Finished,
    /// A batch could not be drawn: the scene is too large for the instance buffer.
    TooLarge,
}

/// A frame as a value.
pub struct FrameModel {
    pub encoding: Encoding,
    pub cursor: Cursor,
    pub status: FrameStatus,
}

/// A frame being encoded.
#[derive(Debug, PartialEq, Eq)]
pub struct Frame {
    pub encoder: FrameEncoder,
    pub cursor: Cursor,
    pub status: FrameStatus,
}

impl View for Frame {
    type V = FrameModel;

    open spec fn view(&self) -> FrameModel {
        FrameModel { encoding: self.encoder@, cursor: self.cursor, status: self.status }
    }
}

/// The run of passes of a batch of shader passes.
pub open spec fn passes_of(batch: PrimitiveBatch) -> Option<Span> {
    match batch {
        PrimitiveBatch::ShaderPasses(range) => Some(range),
        _ => None,
    }
}

/// The scene can be drawn, the cursor points into it, and a frame that waits does so at a pass.
pub open spec fn frame_wf(scene: Scene, s: FrameModel) -> bool {
    &&& scene.wf()
    &&& match s.cursor {
        Cursor::Batch(i) => i <= scene.batches@.len() && s.status != FrameStatus::NeedsPipeline,
        Cursor::Pass { batch, pass } => {
            &&& batch < scene.batches@.len()
            &&& passes_of(scene.batches@[batch as int]) matches Some(range)
            &&& range.start <= pass <= range.end
            &&& s.status == FrameStatus::NeedsPipeline ==> pass < range.end
        },
    }
}

/// A frame before its first batch.
pub open spec fn frame_start(ctx: FrameContext) -> FrameModel {
    FrameModel {
        encoding: begin_spec(ctx),
        cursor: Cursor::Batch(0),
        status: FrameStatus::Running,
    }
}

/// One step of a running frame that stands before batch `i`.
pub open spec fn batch_step(
    ctx: FrameContext,
    scene: Scene,
    i: int,
    s: FrameModel,
) -> FrameModel {
    if i >= scene.batches@.len() {
        FrameModel {
            encoding: finish_spec(ctx, s.encoding),
            status: FrameStatus::Finished,
            ..s
        }
    } else {
        match passes_of(scene.batches@[i]) {
            Some(range) => FrameModel {
                encoding: begin_shader_passes_spec(
                    ctx,
                    scene.shader_passes@,
                    range,
                    s.encoding,
                ),
                cursor: Cursor::Pass { batch: i as usize, pass: range.start },
                ..s
            },
            None => {
                let (ok, encoding) = draw_batch_spec(ctx, scene, scene.batches@[i], s.encoding);
                if ok {
                    FrameModel { encoding, cursor: Cursor::Batch((i + 1) as usize), ..s }
                } else {
                    FrameModel {
                        encoding: abandon_spec(encoding),
                        status: FrameStatus::TooLarge,
                        ..s
                    }
                }
            },
        }
    }
}

/// A frame that drew pass `pass` of batch `batch` with the given pipeline, or skipped it for want
/// of one.
pub open spec fn pass_drawn(
    ctx: FrameContext,
    scene: Scene,
    batch: usize,
    pass: usize,
    pipeline: Option<u64>,
    s: FrameModel,
) -> FrameModel {
    FrameModel {
        encoding: match pipeline {
            Some(pipeline) => s.encoding.with(
                shader_pass_commands(ctx, scene.shader_passes@[pass as int], pipeline),
            ),
            None => s.encoding,
        },
        cursor: Cursor::Pass { batch, pass: (pass + 1) as usize },
        status: FrameStatus::Running,
    }
}

/// One step of a running frame that stands before pass `pass` of batch `batch`.
pub open spec fn pass_step(
    ctx: FrameContext,
    scene: Scene,
    cache: Map<u64, u64>,
    batch: usize,
    pass: usize,
    s: FrameModel,
) -> FrameModel {
    match passes_of(scene.batches@[batch as int]) {
        None => s,
        Some(range) => if pass >= range.end {
            FrameModel { cursor: Cursor::Batch((batch + 1) as usize), ..s }
        } else {
            let id = scene.shader_passes@[pass as int].shader_id;
            if cache.contains_key(id) {
                pass_drawn(ctx, scene, batch, pass, Some(cache[id]), s)
            } else {
                FrameModel { status: FrameStatus::NeedsPipeline, ..s }
            }
        },
    }
}

/// One step of a running frame.
pub open spec fn frame_step(
    ctx: FrameContext,
    scene: Scene,
    cache: Map<u64, u64>,
    s: FrameModel,
) -> FrameModel {
    match s.cursor {
        Cursor::Batch(i) => batch_step(ctx, scene, i as int, s),
        Cursor::Pass { batch, pass } => pass_step(ctx, scene, cache, batch, pass, s),
    }
}

/// How many batches are left.
pub open spec fn batches_left(scene: Scene, s: FrameModel) -> int {
    match s.cursor {
        Cursor::Batch(i) => scene.batches@.len() - i,
        Cursor::Pass { batch, .. } => scene.batches@.len() - batch,
    }
}

/// How many passes are left in the batch at the cursor, where the frame has entered one.
pub open spec fn passes_left(scene: Scene, s: FrameModel) -> int {
    match s.cursor {
        Cursor::Batch(i) => usize::MAX + 1,
        Cursor::Pass { batch, pass } => match passes_of(scene.batches@[batch as int]) {
            Some(range) => range.end - pass,
            None => 0,
        },
    }
}

/// Whether there is another step.
pub open spec fn steps_left(s: FrameModel) -> int {
    if s.status == FrameStatus::Running {
        1
    } else {
        0
    }
}

/// A frame run as far as it goes: until it is complete, needs a pipeline or does not fit.
pub open spec fn frame_run(
    ctx: FrameContext,
    scene: Scene,
    cache: Map<u64, u64>,
    s: FrameModel,
) -> FrameModel
    decreases batches_left(scene, s), passes_left(scene, s), steps_left(s),
    when frame_wf(scene, s)
    via frame_run_decreases
{
    if s.status == FrameStatus::Running {
        frame_run(ctx, scene, cache, frame_step(ctx, scene, cache, s))
    } else {
        s
    }
}

#[via_fn]
proof fn frame_run_decreases(
    ctx: FrameContext,
    scene: Scene,
    cache: Map<u64, u64>,
    s: FrameModel,
) {
    if s.status == FrameStatus::Running {
        frame_step_advances(ctx, scene, cache, s);
    }
}

/// A step of a running frame keeps it well-formed, and there is less to do afterwards.
pub proof fn frame_step_advances(
    ctx: FrameContext,
    scene: Scene,
    cache: Map<u64, u64>,
    s: FrameModel,
)
    requires
        frame_wf(scene, s),
        s.status == FrameStatus::Running,
    ensures
        frame_wf(scene, frame_step(ctx, scene, cache, s)),
        ({
            let next = frame_step(ctx, scene, cache, s);
            decreases_to!(
                batches_left(scene, s), passes_left(scene, s), steps_left(s)
                => batches_left(scene, next), passes_left(scene, next), steps_left(next)
            )
        }),
{
    assert(scene.batches.len() == scene.batches@.len());
    match s.cursor {
        Cursor::Batch(i) => {
            if i < scene.batches@.len() {
                assert(scene.batch_wf(scene.batches@[i as int]));
            }
        },
        Cursor::Pass { batch, pass } => {
            assert(scene.batch_wf(scene.batches@[batch as int]));
        },
    }
}

/// The pass whose shader is to be compiled, while the frame waits for one.
pub open spec fn awaited(s: FrameModel) -> Option<usize> {
    match (s.status, s.cursor) {
        (FrameStatus::NeedsPipeline, Cursor::Pass { pass, .. }) => Some(pass),
        _ => None,
    }
}

/// A waiting frame after it was told what became of the shader.
pub open spec fn frame_supplied(
    ctx: FrameContext,
    scene: Scene,
    compiled: Option<u64>,
    s: FrameModel,
) -> FrameModel {
    match s.cursor {
        Cursor::Batch(_) => s,
        Cursor::Pass { batch, pass } => pass_drawn(ctx, scene, batch, pass, compiled, s),
    }
}

impl Frame {
    /// Starts a frame.
    pub fn begin(ctx: &FrameContext) -> (frame: Self)
        ensures
            frame@ == frame_start(*ctx),
    {
        Frame {
            encoder: FrameEncoder::begin(ctx),
            cursor: Cursor::Batch(0),
            status: FrameStatus::Running,
        }
    }

    fn step(&mut self, ctx: &FrameContext, scene: &Scene, cache: &ShaderPassPipelines)
        requires
            frame_wf(*scene, old(self)@),
            old(self).status == FrameStatus::Running,
        ensures
            final(self)@ == frame_step(*ctx, *scene, cache@, old(self)@),
    {
        match self.cursor {
            Cursor::Batch(i) => {
                if i >= scene.batches.len() {
                    self.encoder.finish(ctx);
                    self.status = FrameStatus::Finished;
                } else {
                    let batch: PrimitiveBatch = scene.batches[i];
                    assert(scene.batch_wf(scene.batches@[i as int]));
                    match batch {
                        PrimitiveBatch::ShaderPasses(range) => {
                            self.encoder.begin_shader_passes(ctx, &scene.shader_passes, range);
                            self.cursor = Cursor::Pass { batch: i, pass: range.start };
                        },
                        _ => {
                            if self.encoder.draw_batch(ctx, scene, batch) {
                                self.cursor = Cursor::Batch(i + 1);
                            } else {
                                self.encoder.abandon();
                                self.status = FrameStatus::TooLarge;
                            }
                        },
                    }
                }
            },
            Cursor::Pass { batch, pass } => {
                assert(scene.batch_wf(scene.batches@[batch as int]));
                assert(scene.batches.len() == scene.batches@.len());
                match scene.batches[batch] {
                    PrimitiveBatch::ShaderPasses(range) => {
                        if pass >= range.end {
                            self.cursor = Cursor::Batch(batch + 1);
                        } else {
                            match cache.shader_pass_pipeline(&scene.shader_passes[pass]) {
                                Some(pipeline) => {
                                    self.encoder.draw_shader_pass(
                                        ctx,
                                        &scene.shader_passes[pass],
                                        pipeline,
                                    );
                                    self.cursor = Cursor::Pass { batch, pass: pass + 1 };
                                },
                                None => {
                                    self.status = FrameStatus::NeedsPipeline;
                                },
                            }
                        }
                    },
                    _ => {},
                }
            },
        }
    }

    /// Encodes as far as it goes: until the frame is complete, needs a pipeline or does not fit
    /// into its instance buffer.
    pub fn advance(&mut self, ctx: &FrameContext, scene: &Scene, cache: &ShaderPassPipelines)
        requires
            frame_wf(*scene, old(self)@),
        ensures
            final(self)@ == frame_run(*ctx, *scene, cache@, old(self)@),
            frame_wf(*scene, final(self)@),
            final(self).status != FrameStatus::Running,
    {
        loop
            invariant
                frame_wf(*scene, self@),
                frame_run(*ctx, *scene, cache@, self@) == frame_run(
                    *ctx,
                    *scene,
                    cache@,
                    old(self)@,
                ),
            ensures
                frame_wf(*scene, self@),
                self.status != FrameStatus::Running,
                frame_run(*ctx, *scene, cache@, self@) == frame_run(
                    *ctx,
                    *scene,
                    cache@,
                    old(self)@,
                ),
            decreases batches_left(*scene, self@), passes_left(*scene, self@), steps_left(self@),
        {
            match self.status {
                FrameStatus::Running => {},
                _ => {
                    break;
                },
            }
            proof {
                frame_step_advances(*ctx, *scene, cache@, self@);
            }
            self.step(ctx, scene, cache);
        }
    }

    /// The pass whose shader is to be compiled, while the frame waits for one.
    pub fn awaited_pass(&self) -> (pass: Option<usize>)
        ensures
            pass == awaited(self@),
    {
        match self.status {
            FrameStatus::NeedsPipeline => match self.cursor {
                Cursor::Pass { pass, .. } => Some(pass),
                Cursor::Batch(_) => None,
            },
            _ => None,
        }
    }

    /// Takes in the outcome of compiling the shader that the frame waits for: draws the pass with
    /// its pipeline, or skips it if it failed to compile.
    pub fn supply(&mut self, ctx: &FrameContext, scene: &Scene, compiled: Option<u64>)
        requires
            frame_wf(*scene, old(self)@),
            old(self).status == FrameStatus::NeedsPipeline,
        ensures
            final(self)@ == frame_supplied(*ctx, *scene, compiled, old(self)@),
            frame_wf(*scene, final(self)@),
    {
        match self.cursor {
            Cursor::Batch(_) => {},
            Cursor::Pass { batch, pass } => {
                assert(scene.batch_wf(scene.batches@[batch as int]));
                match compiled {
                    Some(pipeline) => {
                        self.encoder.draw_shader_pass(ctx, &scene.shader_passes[pass], pipeline);
                    },
                    None => {},
                }
                self.cursor = Cursor::Pass { batch, pass: pass + 1 };
                self.status = FrameStatus::Running;
            },
        }
    }
}

} // verus!
