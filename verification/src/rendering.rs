//! A rendering, from its plan to the commands that are submitted.
//!
//! Buffers are allocated, shaders compiled and commands run by the device. Between these a
//! rendering is a value that says what it needs next; whoever holds the device provides it and
//! gets the next value back.

use crate::commands::CommandList;
use crate::descriptors::{render_and_sample, PixelFormat};
use crate::encoder::{Encoding, FrameContext};
use crate::error::{Operation, RenderError};
use crate::frame::{
    awaited, frame_run, frame_start, frame_supplied, frame_wf, Cursor, Frame, FrameModel,
    FrameStatus,
};
use crate::frame_laws::{
    between_passes, frame_valid, running_frames_stay_valid, started_frames_are_valid,
    supplied_frames_stay_valid, with_buffer_size,
};
use crate::geometry::{is_drawable, DevicePixels, Size};
use crate::pool::{
    acquired, empty_pool, grown, Acquired, BufferAllocation, InstanceBuffer, InstanceBufferPool,
};
use crate::renderer::{surface_plan, MetalRenderer, RenderPlan, RenderTarget, RendererModel};
use crate::scene::{Scene, SceneTooLarge, PIXEL_FORMAT_32BGRA};
use crate::shader_cache::recorded;
use vstd::prelude::*;

verus! {

/// What is done with a complete command buffer, in order.
#[derive(Clone, Copy, Debug, PartialEq, Eq)]
pub enum SubmitStep {
    /// Give the instance buffer back to the pool once the GPU has completed the commands.
    ReleaseBufferOnCompletion,
    /// Have the target copied back to the memory of the CPU.
    SynchronizeTarget,
    /// Have the drawable shown once the commands are scheduled.
    PresentDrawable,
    Commit,
    WaitUntilScheduled,
    /// Show the drawable now.
    PresentNow,
    WaitUntilCompleted,
    /// Read the pixels of the target back.
    ReadPixels,
}

/// What is done with the command buffer of a rendering. A frame that is presented together with
/// the changes of its window is shown as soon as it is scheduled. Where the memory is not shared,
/// a texture is copied back before it is read.
pub open spec fn submit_steps(plan: RenderPlan) -> Seq<SubmitStep> {
    match plan.operation {
        Operation::Draw => if plan.presents_with_transaction {
            seq![
                SubmitStep::ReleaseBufferOnCompletion,
                SubmitStep::Commit,
                SubmitStep::WaitUntilScheduled,
                SubmitStep::PresentNow,
            ]
        } else {
            seq![
                SubmitStep::ReleaseBufferOnCompletion,
                SubmitStep::PresentDrawable,
                SubmitStep::Commit,
            ]
        },
        Operation::RenderToImage => seq![
            SubmitStep::ReleaseBufferOnCompletion,
            SubmitStep::Commit,
            SubmitStep::WaitUntilCompleted,
            SubmitStep::ReadPixels,
        ],
        Operation::RenderToSurface | Operation::RenderSceneToSurface => seq![
            SubmitStep::ReleaseBufferOnCompletion,
            SubmitStep::Commit,
            SubmitStep::WaitUntilCompleted,
        ],
        Operation::RenderSceneToImage => if plan.context.unified_memory {
            seq![
                SubmitStep::ReleaseBufferOnCompletion,
                SubmitStep::Commit,
                SubmitStep::WaitUntilCompleted,
                SubmitStep::ReadPixels,
            ]
        } else {
            seq![
                SubmitStep::ReleaseBufferOnCompletion,
                SubmitStep::SynchronizeTarget,
                SubmitStep::Commit,
                SubmitStep::WaitUntilCompleted,
                SubmitStep::ReadPixels,
            ]
        },
        Operation::RenderScene => seq![
            SubmitStep::ReleaseBufferOnCompletion,
            SubmitStep::Commit,
        ],
    }
}

fn steps_of(plan: &RenderPlan) -> (steps: Vec<SubmitStep>)
    ensures
        steps@ == submit_steps(*plan),
{
    let mut steps: Vec<SubmitStep> = Vec::new();
    steps.push(SubmitStep::ReleaseBufferOnCompletion);
    match plan.operation {
        Operation::Draw => {
            if plan.presents_with_transaction {
                steps.push(SubmitStep::Commit);
                steps.push(SubmitStep::WaitUntilScheduled);
                steps.push(SubmitStep::PresentNow);
            } else {
                steps.push(SubmitStep::PresentDrawable);
                steps.push(SubmitStep::Commit);
            }
        },
        Operation::RenderToImage => {
            steps.push(SubmitStep::Commit);
            steps.push(SubmitStep::WaitUntilCompleted);
            steps.push(SubmitStep::ReadPixels);
        },
        Operation::RenderToSurface | Operation::RenderSceneToSurface => {
            steps.push(SubmitStep::Commit);
            steps.push(SubmitStep::WaitUntilCompleted);
        },
        Operation::RenderSceneToImage => {
            if !plan.context.unified_memory {
                steps.push(SubmitStep::SynchronizeTarget);
            }
            steps.push(SubmitStep::Commit);
            steps.push(SubmitStep::WaitUntilCompleted);
            steps.push(SubmitStep::ReadPixels);
        },
        Operation::RenderScene => {
            steps.push(SubmitStep::Commit);
        },
    }
    assert(steps@ =~= submit_steps(*plan));
    steps
}

/// A rendering that needs an instance buffer allocated.
#[derive(Clone, Copy, Debug, PartialEq, Eq)]
pub struct BufferRequest {
    pub plan: RenderPlan,
    pub allocation: BufferAllocation,
}

/// A rendering that has its instance buffer. `B` is the handle of a buffer on the GPU.
#[derive(Debug, PartialEq, Eq)]
pub struct Ready<B> {
    pub plan: RenderPlan,
    pub buffer: InstanceBuffer<B>,
}

/// A rendering that needs a shader compiled: that of pass `pass` of the scene.
#[derive(Debug, PartialEq, Eq)]
pub struct ShaderRequest<B> {
    pub plan: RenderPlan,
    pub buffer: InstanceBuffer<B>,
    pub frame: Frame,
    pub pass: usize,
}

/// A rendering whose scene did not fit into its instance buffer.
#[derive(Clone, Copy, Debug, PartialEq, Eq)]
pub struct RetryRequest {
    pub plan: RenderPlan,
    pub error: SceneTooLarge,
}

/// A rendering whose commands are complete.
#[derive(Debug, PartialEq, Eq)]
pub struct Submission<B> {
    pub plan: RenderPlan,
    pub buffer: InstanceBuffer<B>,
    pub commands: CommandList,
    pub steps: Vec<SubmitStep>,
}

/// What a rendering needs next.
#[derive(Debug, PartialEq, Eq)]
pub enum Progress<B> {
    AllocateBuffer(BufferRequest),
    Encode(Ready<B>),
    CompileShader(ShaderRequest<B>),
    Retry(RetryRequest),
    Submit(Submission<B>),
    Failed(RenderError),
}

/// The surroundings of a frame that has its instance buffer.
pub open spec fn buffered_context<B>(plan: RenderPlan, buffer: InstanceBuffer<B>) -> FrameContext {
    with_buffer_size(plan.context, buffer.size)
}

fn context_with<B>(plan: &RenderPlan, buffer: &InstanceBuffer<B>) -> (context: FrameContext)
    ensures
        context == buffered_context(*plan, *buffer),
{
    let mut context: FrameContext = plan.context;
    context.buffer_size = buffer.size;
    context
}

impl<B> ShaderRequest<B> {
    /// The frame is one of the scene, and it waits for the shader of the pass.
    pub open spec fn wf(self, scene: Scene) -> bool {
        &&& frame_wf(scene, self.frame@)
        &&& frame_valid(buffered_context(self.plan, self.buffer), scene, self.frame@)
        &&& awaited(self.frame@) == Some(self.pass)
    }
}

impl<B> Submission<B> {
    /// The commands can be run: the render passes are closed, no pass samples what it renders to
    /// or what has no contents, and every draw reads bytes that were written before it, that no
    /// other write touches and that lie within the instance buffer.
    pub open spec fn runnable(self) -> bool {
        exists|offset: int|
            #[trigger] between_passes(
                buffered_context(self.plan, self.buffer),
                Encoding { commands: self.commands@, offset },
            )
    }
}

/// What a rendering needs after its frame was encoded as far as it goes.
pub open spec fn encoded<B>(
    plan: RenderPlan,
    buffer: InstanceBuffer<B>,
    scene: Scene,
    frame: FrameModel,
    progress: Progress<B>,
) -> bool {
    match frame.status {
        FrameStatus::Finished => progress matches Progress::Submit(submission) && {
            &&& submission.plan == plan
            &&& submission.buffer == buffer
            &&& submission.commands@ == frame.encoding.commands
            &&& submission.steps@ == submit_steps(plan)
            &&& submission.runnable()
        },
        FrameStatus::NeedsPipeline => progress matches Progress::CompileShader(request) && {
            &&& request.plan == plan
            &&& request.buffer == buffer
            &&& request.frame@ == frame
            &&& request.wf(scene)
        },
        FrameStatus::TooLarge => progress == Progress::<B>::Retry(
            RetryRequest { plan, error: scene.counts() },
        ),
        FrameStatus::Running => false,
    }
}

impl RenderPlan {
    /// What a rendering needs once it asked the pool for an instance buffer.
    pub open spec fn after_acquisition<B>(self, acquired: Acquired<B>) -> Progress<B> {
        match acquired {
            Acquired::Pooled(buffer) => Progress::Encode(Ready { plan: self, buffer }),
            Acquired::Allocate(allocation) => Progress::AllocateBuffer(
                BufferRequest { plan: self, allocation },
            ),
        }
    }

    /// Takes an instance buffer from the pool, or asks for one.
    pub fn acquire<B>(self, pool: &mut InstanceBufferPool<B>) -> (progress: Progress<B>)
        ensures
            progress == self.after_acquisition(
                acquired(old(pool)@, self.context.unified_memory).0,
            ),
            final(pool)@ == acquired(old(pool)@, self.context.unified_memory).1,
    {
        match pool.acquire(self.context.unified_memory) {
            Acquired::Pooled(buffer) => Progress::Encode(Ready { plan: self, buffer }),
            Acquired::Allocate(allocation) => Progress::AllocateBuffer(
                BufferRequest { plan: self, allocation },
            ),
        }
    }
}

impl BufferRequest {
    /// Goes on with the buffer that was allocated.
    pub fn provide<B>(self, metal_buffer: B) -> (progress: Progress<B>)
        ensures
            progress == Progress::Encode(
                Ready {
                    plan: self.plan,
                    buffer: InstanceBuffer { metal_buffer, size: self.allocation.size },
                },
            ),
    {
        Progress::Encode(
            Ready {
                plan: self.plan,
                buffer: InstanceBuffer { metal_buffer, size: self.allocation.size },
            },
        )
    }
}

impl RetryRequest {
    /// Doubles the size of the instance buffers and asks for one of the new size, or gives up if
    /// they cannot grow any more.
    pub fn retry<B>(self, pool: &mut InstanceBufferPool<B>) -> (progress: Progress<B>)
        ensures
            match grown(old(pool).buffer_size as int) {
                Some(size) => {
                    &&& progress == self.plan.after_acquisition(
                        acquired(
                            empty_pool::<B>(size as usize),
                            self.plan.context.unified_memory,
                        ).0,
                    )
                    &&& final(pool)@ == empty_pool::<B>(size as usize)
                    &&& final(pool).buffer_size == size
                },
                None => {
                    &&& progress == Progress::<B>::Failed(
                        RenderError::InstanceBufferTooLarge(old(pool).buffer_size),
                    )
                    &&& final(pool)@ == old(pool)@
                },
            },
    {
        match pool.grow() {
            Ok(()) => self.plan.acquire(pool),
            Err(size) => Progress::Failed(RenderError::InstanceBufferTooLarge(size)),
        }
    }
}

impl MetalRenderer {
    fn draw_on<B>(
        &self,
        plan: RenderPlan,
        buffer: InstanceBuffer<B>,
        frame: Frame,
        scene: &Scene,
    ) -> (progress: Progress<B>)
        requires
            frame_wf(*scene, frame@),
            frame_valid(buffered_context(plan, buffer), *scene, frame@),
        ensures
            encoded(
                plan,
                buffer,
                *scene,
                frame_run(buffered_context(plan, buffer), *scene, self@.pipelines, frame@),
                progress,
            ),
    {
        let context: FrameContext = context_with(&plan, &buffer);
        let mut frame: Frame = frame;
        proof {
            running_frames_stay_valid(context, *scene, self@.pipelines, frame@);
        }
        frame.advance(&context, scene, &self.shader_pass_pipelines);
        match frame.status {
            FrameStatus::Finished => {
                let steps: Vec<SubmitStep> = steps_of(&plan);
                let ghost encoding = frame.encoder@;
                let submission = Submission {
                    plan,
                    buffer,
                    commands: frame.encoder.list,
                    steps,
                };
                assert(submission.runnable()) by {
                    assert(between_passes(
                        buffered_context(submission.plan, submission.buffer),
                        Encoding { commands: submission.commands@, offset: encoding.offset },
                    ));
                }
                Progress::Submit(submission)
            },
            FrameStatus::TooLarge => Progress::Retry(
                RetryRequest { plan, error: scene.too_large() },
            ),
            _ => {
                let pass: usize = match frame.awaited_pass() {
                    Some(pass) => pass,
                    None => 0,
                };
                Progress::CompileShader(ShaderRequest { plan, buffer, frame, pass })
            },
        }
    }

    /// Encodes a frame of the scene as far as it goes: to its end, to a shader that is not
    /// compiled, or to a batch that does not fit into the instance buffer.
    pub fn draw_primitives_to_texture<B>(&self, ready: Ready<B>, scene: &Scene) -> (progress:
        Progress<B>)
        requires
            scene.wf(),
        ensures
            ({
                let context = buffered_context(ready.plan, ready.buffer);
                encoded(
                    ready.plan,
                    ready.buffer,
                    *scene,
                    frame_run(context, *scene, self@.pipelines, frame_start(context)),
                    progress,
                )
            }),
    {
        let context: FrameContext = context_with(&ready.plan, &ready.buffer);
        proof {
            started_frames_are_valid(context, *scene);
        }
        let frame: Frame = Frame::begin(&context);
        self.draw_on(ready.plan, ready.buffer, frame, scene)
    }

    /// Goes on with a frame that waited for a shader. `compiled` is the handle of its pipeline, or
    /// `None` if it failed to compile: the pass is then skipped.
    pub fn provide_pipeline<B>(
        &mut self,
        request: ShaderRequest<B>,
        scene: &Scene,
        compiled: Option<u64>,
    ) -> (progress: Progress<B>)
        requires
            request.wf(*scene),
        ensures
            final(self)@ == (RendererModel {
                pipelines: recorded(
                    old(self)@.pipelines,
                    scene.shader_passes@[request.pass as int],
                    compiled,
                ),
                ..old(self)@
            }),
            ({
                let context = buffered_context(request.plan, request.buffer);
                encoded(
                    request.plan,
                    request.buffer,
                    *scene,
                    frame_run(
                        context,
                        *scene,
                        final(self)@.pipelines,
                        frame_supplied(context, *scene, compiled, request.frame@),
                    ),
                    progress,
                )
            }),
    {
        let context: FrameContext = context_with(&request.plan, &request.buffer);
        proof {
            supplied_frames_stay_valid(context, *scene, compiled, request.frame@);
            match request.frame@.cursor {
                Cursor::Pass { batch, pass } => {
                    assert(scene.batch_wf(scene.batches@[batch as int]));
                },
                Cursor::Batch(_) => {},
            }
        }
        self.shader_pass_pipelines.record(&scene.shader_passes[request.pass], compiled);
        let mut frame: Frame = request.frame;
        frame.supply(&context, scene, compiled);
        self.draw_on(request.plan, request.buffer, frame, scene)
    }
}

/// Every rendering to a surface asks for a pixel buffer of its own, of the requested size, and
/// comes to its end only when the GPU has completed all commands: whoever samples the surface then
/// sees the whole frame.
pub proof fn surfaces_are_complete_when_they_are_handed_out(
    r: RendererModel,
    size: Size<DevicePixels>,
)
    requires
        is_drawable(size),
    ensures
        surface_plan(r, size).0 matches Ok(plan) && {
            &&& plan.target == (RenderTarget::Surface {
                pixel_format: PIXEL_FORMAT_32BGRA,
                width: size.width.0 as usize,
                height: size.height.0 as usize,
                texture_format: PixelFormat::Bgra8Unorm,
                texture_usage: render_and_sample(),
            })
            &&& plan.context.viewport_size == size
            &&& submit_steps(plan) == seq![
                SubmitStep::ReleaseBufferOnCompletion,
                SubmitStep::Commit,
                SubmitStep::WaitUntilCompleted,
            ]
        },
{
}

/// Wherever `step` stands, `earlier` stands somewhere before it.
pub open spec fn stands_behind(
    steps: Seq<SubmitStep>,
    step: SubmitStep,
    earlier: SubmitStep,
) -> bool {
    forall|i: int|
        0 <= i < steps.len() && #[trigger] steps[i] == step ==> exists|j: int|
            0 <= j < i && #[trigger] steps[j] == earlier
}

/// The order of what is done with a command buffer, for every rendering. It is committed, once, and
/// everything that the GPU is to do with it or after it is asked for before that: the release of
/// the instance buffer, the presentation, and the copying back of the target. Whoever waits does so
/// for commands that are committed. Pixels are read only when the GPU has completed the commands,
/// and a drawable is shown at once only when they are scheduled. Nothing is done twice.
pub proof fn submissions_are_in_order(plan: RenderPlan)
    ensures
        ({
            let steps = submit_steps(plan);
            &&& steps.contains(SubmitStep::Commit)
            &&& steps.contains(SubmitStep::ReleaseBufferOnCompletion)
            &&& steps.no_duplicates()
            &&& stands_behind(steps, SubmitStep::Commit, SubmitStep::ReleaseBufferOnCompletion)
            &&& steps.contains(SubmitStep::SynchronizeTarget) ==> stands_behind(
                steps,
                SubmitStep::Commit,
                SubmitStep::SynchronizeTarget,
            )
            &&& steps.contains(SubmitStep::PresentDrawable) ==> stands_behind(
                steps,
                SubmitStep::Commit,
                SubmitStep::PresentDrawable,
            )
            &&& stands_behind(steps, SubmitStep::WaitUntilScheduled, SubmitStep::Commit)
            &&& stands_behind(steps, SubmitStep::PresentNow, SubmitStep::WaitUntilScheduled)
            &&& stands_behind(steps, SubmitStep::WaitUntilCompleted, SubmitStep::Commit)
            &&& stands_behind(steps, SubmitStep::ReadPixels, SubmitStep::WaitUntilCompleted)
            &&& forall|i: int|
                0 <= i < steps.len() && #[trigger] steps[i] == SubmitStep::ReadPixels ==> exists|
                    k: int,
                    j: int,
                |
                    0 <= k < j < i && #[trigger] steps[k] == SubmitStep::Commit
                        && #[trigger] steps[j] == SubmitStep::WaitUntilCompleted
        }),
{
    let steps = submit_steps(plan);
    let first = steps[0];
    let second = steps[1];
    let third = steps[2];
    let fourth = steps[3];
    let fifth = steps[4];
    assert(first == SubmitStep::ReleaseBufferOnCompletion);
    assert(second == SubmitStep::Commit || third == SubmitStep::Commit);
    assert(steps.contains(first) && steps.contains(second));
    assert(steps.len() > 2 ==> steps.contains(third));
}

/// What each way of rendering ends with: what goes to the screen is presented, in one way or the
/// other, and nothing else is; what is rendered to an image is read back, and nothing else is; what
/// is rendered to an image or a surface is waited for; and only a texture that is read back without
/// shared memory is copied back first.
pub proof fn submissions_end_as_they_should(plan: RenderPlan)
    ensures
        ({
            let steps = submit_steps(plan);
            let to_screen = plan.operation == Operation::Draw;
            let to_image = plan.operation == Operation::RenderToImage || plan.operation
                == Operation::RenderSceneToImage;
            let to_surface = plan.operation == Operation::RenderToSurface || plan.operation
                == Operation::RenderSceneToSurface;
            &&& steps.contains(SubmitStep::PresentNow) <==> to_screen
                && plan.presents_with_transaction
            &&& steps.contains(SubmitStep::PresentDrawable) <==> to_screen
                && !plan.presents_with_transaction
            &&& steps.contains(SubmitStep::WaitUntilScheduled) <==> to_screen
                && plan.presents_with_transaction
            &&& steps.contains(SubmitStep::WaitUntilCompleted) <==> to_image || to_surface
            &&& steps.contains(SubmitStep::ReadPixels) <==> to_image
            &&& steps.contains(SubmitStep::SynchronizeTarget) <==> plan.operation
                == Operation::RenderSceneToImage && !plan.context.unified_memory
        }),
{
    let steps = submit_steps(plan);
    assert(steps.len() > 1 ==> steps.contains(steps[1]));
    assert(steps.len() > 2 ==> steps.contains(steps[2]));
    assert(steps.len() > 3 ==> steps.contains(steps[3]));
    assert(steps.len() > 4 ==> steps.contains(steps[4]));
}

/// A frame is encoded for the target and the renderer of its plan, and for the instance buffer that
/// the rendering has: as many bytes as that buffer has, and all of them.
pub proof fn frames_use_the_buffer_of_their_rendering<B>(
    plan: RenderPlan,
    buffer: InstanceBuffer<B>,
)
    ensures
        ({
            let context = buffered_context(plan, buffer);
            &&& context.buffer_size == buffer.size
            &&& context.opaque == plan.context.opaque
            &&& context.unified_memory == plan.context.unified_memory
            &&& context.path_texture == plan.context.path_texture
            &&& context.multisample == plan.context.multisample
            &&& context.backdrop_texture == plan.context.backdrop_texture
            &&& context.viewport_size == plan.context.viewport_size
        }),
{
}

} // verus!
