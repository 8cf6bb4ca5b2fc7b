//! The commands that a frame asks of the GPU, in the order in which they are to be encoded.

use crate::descriptors::PixelFormat;
use crate::geometry::{Bounds, DevicePixels, ScaledPixels, Size};
use vstd::prelude::*;

verus! {

/// A texture of the sprite atlas.
#[derive(Clone, Copy, Debug, PartialEq, Eq, Structural)]
pub struct AtlasTextureId(pub u64);

/// The buffers that vertex and fragment functions read from.
#[derive(Clone, Copy, Debug, PartialEq, Eq, Structural)]
pub enum BufferSlot {
    /// The two triangles of the unit square.
    UnitVertices,
    /// The instance buffer of the frame.
    Instances,
}

/// One plane of the image buffer of a painted surface, seen as a texture.
#[derive(Clone, Copy, Debug, PartialEq, Eq)]
pub struct SurfacePlane {
    /// Which surface of the scene.
    pub surface: usize,
    pub plane: usize,
    pub pixel_format: PixelFormat,
    pub width: usize,
    pub height: usize,
}

/// The textures that a frame renders to or samples.
#[derive(Clone, Copy, Debug, PartialEq, Eq)]
pub enum TextureSlot {
    /// What the frame is drawn into.
    Target,
    /// The off-screen copy of the target that backdrop blurs and scene-sampling passes read.
    Backdrop,
    /// The resolved picture of the paths of one batch.
    PathIntermediate,
    /// The multisampled picture of the paths of one batch.
    PathMultisample,
    Atlas(AtlasTextureId),
    Surface(SurfacePlane),
}

/// The render pipelines.
#[derive(Clone, Copy, Debug, PartialEq, Eq)]
pub enum Pipeline {
    PathsRasterization,
    PathSprites,
    Shadows,
    Quads,
    Underlines,
    MonochromeSprites,
    PolychromeSprites,
    /// Samples a two-plane YUV surface.
    Surfaces,
    /// Samples a single-plane BGRA surface.
    SurfacesBgra,
    BackdropBlur,
    SceneFlip,
    /// A pipeline compiled for a shader pass, by its handle.
    ShaderPass(u64),
}

/// What a render pass does with the previous contents of its color attachment.
#[derive(Clone, Copy, Debug, PartialEq, Eq)]
pub enum LoadAction {
    /// Clear to black with an alpha of one if `opaque`, of zero if not.
    Clear { opaque: bool },
    Load,
    DontCare,
}

/// What a render pass does with its result.
#[derive(Clone, Copy, Debug, PartialEq, Eq)]
pub enum StoreAction {
    Store,
    MultisampleResolve,
}

/// A render pass with one color attachment.
#[derive(Clone, Copy, Debug, PartialEq, Eq)]
pub struct RenderPass {
    pub color: TextureSlot,
    pub resolve: Option<TextureSlot>,
    pub load: LoadAction,
    pub store: StoreAction,
    /// The viewport to set, from the origin, with a depth range from zero to one.
    pub viewport: Option<Size<DevicePixels>>,
}

/// A small constant handed to a vertex function.
#[derive(Clone, Copy, Debug, PartialEq, Eq)]
pub enum VertexConstant {
    Size(Size<DevicePixels>),
    Bounds(Bounds<ScaledPixels>),
}

/// One command of a frame. `B` is the type of a run of bytes.
#[derive(Debug, PartialEq, Eq)]
pub enum Command<B> {
    /// Open a render command encoder.
    BeginPass(RenderPass),
    /// Close the open render command encoder.
    EndEncoding,
    /// Copy the upper left corner of the target into the backdrop texture.
    CopyTargetToBackdrop { width: u64, height: u64 },
    SetPipeline(Pipeline),
    SetVertexBuffer { index: u64, buffer: BufferSlot, offset: u64 },
    SetFragmentBuffer { index: u64, buffer: BufferSlot, offset: u64 },
    SetVertexBytes { index: u64, value: VertexConstant },
    SetFragmentBytes { index: u64, bytes: B },
    SetFragmentTexture { index: u64, texture: TextureSlot },
    /// Bind the linear, clamp-to-edge sampler of the shader passes.
    SetFragmentSampler { index: u64 },
    /// Write bytes into the instance buffer.
    WriteInstances { offset: usize, bytes: B },
    /// Draw triangles.
    Draw { vertex_count: u64 },
    /// Draw triangles, once for each instance.
    DrawInstanced { vertex_count: u64, instance_count: u64 },
    /// Tell the GPU that the start of the instance buffer was written by the CPU.
    SyncInstances { length: u64 },
}

/// A command with its bytes as a sequence.
pub type CommandModel = Command<Seq<u8>>;

impl View for Command<Vec<u8>> {
    type V = Command<Seq<u8>>;

    open spec fn view(&self) -> Command<Seq<u8>> {
        match *self {
            Command::BeginPass(pass) => Command::BeginPass(pass),
            Command::EndEncoding => Command::EndEncoding,
            Command::CopyTargetToBackdrop { width, height } => Command::CopyTargetToBackdrop {
                width,
                height,
            },
            Command::SetPipeline(pipeline) => Command::SetPipeline(pipeline),
            Command::SetVertexBuffer { index, buffer, offset } => Command::SetVertexBuffer {
                index,
                buffer,
                offset,
            },
            Command::SetFragmentBuffer { index, buffer, offset } => Command::SetFragmentBuffer {
                index,
                buffer,
                offset,
            },
            Command::SetVertexBytes { index, value } => Command::SetVertexBytes { index, value },
            Command::SetFragmentBytes { index, bytes } => Command::SetFragmentBytes {
                index,
                bytes: bytes@,
            },
            Command::SetFragmentTexture { index, texture } => Command::SetFragmentTexture {
                index,
                texture,
            },
            Command::SetFragmentSampler { index } => Command::SetFragmentSampler { index },
            Command::WriteInstances { offset, bytes } => Command::WriteInstances {
                offset,
                bytes: bytes@,
            },
            Command::Draw { vertex_count } => Command::Draw { vertex_count },
            Command::DrawInstanced { vertex_count, instance_count } => Command::DrawInstanced {
                vertex_count,
                instance_count,
            },
            Command::SyncInstances { length } => Command::SyncInstances { length },
        }
    }
}

/// A list of commands.
#[derive(Debug, PartialEq, Eq)]
pub struct CommandList {
    pub commands: Vec<Command<Vec<u8>>>,
}

impl View for CommandList {
    type V = Seq<Command<Seq<u8>>>;

    open spec fn view(&self) -> Seq<Command<Seq<u8>>> {
        self.commands@.map_values(|command: Command<Vec<u8>>| command@)
    }
}

impl CommandList {
    /// An empty list.
    pub fn new() -> (list: Self)
        ensures
            list@ == Seq::<CommandModel>::empty(),
    {
        let list = CommandList { commands: Vec::new() };
        assert(list@ =~= Seq::<CommandModel>::empty());
        list
    }

    /// Puts one command behind the list.
    pub fn push(&mut self, command: Command<Vec<u8>>)
        ensures
            final(self)@ == old(self)@.push(command@),
    {
        self.commands.push(command);
        assert(self@ =~= old(self)@.push(command@));
    }

    /// The number of commands.
    pub fn len(&self) -> (n: usize)
        ensures
            n == self@.len(),
    {
        self.commands.len()
    }
}

} // verus!
