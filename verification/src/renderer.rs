//! The renderer: what it keeps between frames, and how each way of rendering a scene begins.

use crate::descriptors::{
    render_and_sample, render_texture, render_texture_usage, samples, PixelFormat, StorageMode,
    TextureDescriptor, PATH_SAMPLE_COUNT,
};
use crate::device::DeviceInfo;
use crate::encoder::FrameContext;
use crate::error::{Operation, RenderError};
use crate::geometry::{is_drawable, DevicePixels, Size};
use crate::scene::PIXEL_FORMAT_32BGRA;
use crate::shader_cache::ShaderPassPipelines;
use vstd::prelude::*;

verus! {

/// How many drawables the layer of a window hands out at a time.
pub const MAXIMUM_DRAWABLE_COUNT: u64 = 3;

/// The settings of the layer of a window.
#[derive(Clone, Copy, Debug, PartialEq, Eq)]
pub struct MetalLayer {
    pub pixel_format: PixelFormat,
    pub opaque: bool,
    pub maximum_drawable_count: u64,
    /// Whether drawables can be neither sampled nor copied.
    pub framebuffer_only: bool,
    pub allows_next_drawable_timeout: bool,
    pub needs_display_on_bounds_change: bool,
    /// Whether the layer grows with its window in both directions.
    pub autoresizing: bool,
    pub presents_with_transaction: bool,
    /// The size that was last set.
    pub drawable_size: Option<Size<DevicePixels>>,
}

/// The layer of a window. Drawables can be sampled and copied: backdrop blurs capture what is
/// drawn, and tests read it back.
pub open spec fn window_layer(transparent: bool) -> MetalLayer {
    MetalLayer {
        pixel_format: PixelFormat::Bgra8Unorm,
        opaque: !transparent,
        maximum_drawable_count: MAXIMUM_DRAWABLE_COUNT,
        framebuffer_only: false,
        allows_next_drawable_timeout: false,
        needs_display_on_bounds_change: true,
        autoresizing: true,
        presents_with_transaction: false,
        drawable_size: None,
    }
}

/// What a renderer keeps between frames.
pub struct MetalRenderer {
    pub layer: Option<MetalLayer>,
    pub is_apple_gpu: bool,
    pub is_unified_memory: bool,
    pub presents_with_transaction: bool,
    /// Whether the target is cleared to opaque black.
    pub opaque: bool,
    /// The pipelines of the shaders that were compiled.
    pub shader_pass_pipelines: ShaderPassPipelines,
    /// The resolved picture of the paths of one batch.
    pub path_intermediate_texture: Option<TextureDescriptor>,
    /// The multisampled picture of the paths of one batch.
    pub path_intermediate_msaa_texture: Option<TextureDescriptor>,
    /// The copy of the target that backdrop blurs and scene-sampling passes read: the target
    /// itself cannot be sampled while it is rendered to.
    pub backdrop_blur_texture: Option<TextureDescriptor>,
    pub path_sample_count: u32,
    /// The target that is used again and again where nobody looks at the result.
    pub headless_render_target: Option<TextureDescriptor>,
}

/// A renderer as a value.
pub struct RendererModel {
    pub layer: Option<MetalLayer>,
    pub is_apple_gpu: bool,
    pub is_unified_memory: bool,
    pub presents_with_transaction: bool,
    pub opaque: bool,
    pub pipelines: Map<u64, u64>,
    pub path_intermediate_texture: Option<TextureDescriptor>,
    pub path_intermediate_msaa_texture: Option<TextureDescriptor>,
    pub backdrop_blur_texture: Option<TextureDescriptor>,
    pub path_sample_count: u32,
    pub headless_render_target: Option<TextureDescriptor>,
}

impl View for MetalRenderer {
    type V = RendererModel;

    open spec fn view(&self) -> RendererModel {
        RendererModel {
            layer: self.layer,
            is_apple_gpu: self.is_apple_gpu,
            is_unified_memory: self.is_unified_memory,
            presents_with_transaction: self.presents_with_transaction,
            opaque: self.opaque,
            pipelines: self.shader_pass_pipelines@,
            path_intermediate_texture: self.path_intermediate_texture,
            path_intermediate_msaa_texture: self.path_intermediate_msaa_texture,
            backdrop_blur_texture: self.backdrop_blur_texture,
            path_sample_count: self.path_sample_count,
            headless_render_target: self.headless_render_target,
        }
    }
}

/// A renderer that has not rendered anything.
pub open spec fn fresh_renderer(
    device: DeviceInfo,
    layer: Option<MetalLayer>,
    opaque: bool,
) -> RendererModel {
    RendererModel {
        layer,
        is_apple_gpu: device.supports_apple1,
        is_unified_memory: device.has_unified_memory,
        presents_with_transaction: false,
        opaque,
        pipelines: Map::empty(),
        path_intermediate_texture: None,
        path_intermediate_msaa_texture: None,
        backdrop_blur_texture: None,
        path_sample_count: PATH_SAMPLE_COUNT,
        headless_render_target: None,
    }
}

/// The multisampled texture for paths. It lives for one render pass only, so Apple GPUs need no
/// memory for it.
pub open spec fn msaa_texture(
    size: Size<DevicePixels>,
    is_apple_gpu: bool,
    sample_count: u32,
) -> Option<TextureDescriptor> {
    match samples(sample_count) {
        Some(count) => Some(
            TextureDescriptor {
                sample_count: Some(count),
                ..render_texture(
                    size,
                    if is_apple_gpu {
                        StorageMode::Memoryless
                    } else {
                        StorageMode::Private
                    },
                )
            },
        ),
        None => None,
    }
}

/// A renderer with the intermediate textures for a target of the given size. A target without
/// pixels has none: no device makes an empty texture.
pub open spec fn with_textures(r: RendererModel, size: Size<DevicePixels>) -> RendererModel {
    if is_drawable(size) {
        RendererModel {
            path_intermediate_texture: Some(render_texture(size, StorageMode::Private)),
            backdrop_blur_texture: Some(render_texture(size, StorageMode::Private)),
            path_intermediate_msaa_texture: msaa_texture(
                size,
                r.is_apple_gpu,
                r.path_sample_count,
            ),
            ..r
        }
    } else {
        RendererModel {
            path_intermediate_texture: None,
            backdrop_blur_texture: None,
            path_intermediate_msaa_texture: None,
            ..r
        }
    }
}

/// Where a scene is rendered to.
#[derive(Clone, Copy, Debug, PartialEq, Eq)]
pub enum RenderTarget {
    /// The texture of the drawable that the layer handed out.
    Drawable,
    /// A pixel buffer that is made for the occasion, wrapped as a texture of the given format and
    /// usage.
    Surface {
        pixel_format: u32,
        width: usize,
        height: usize,
        texture_format: PixelFormat,
        texture_usage: u64,
    },
    /// A texture that is made for the occasion.
    Texture(TextureDescriptor),
    /// The headless target of the renderer, which is to be made anew if `create` is set.
    Headless { descriptor: TextureDescriptor, create: bool },
}

/// A rendering that has not begun.
#[derive(Clone, Copy, Debug, PartialEq, Eq)]
pub struct RenderPlan {
    pub operation: Operation,
    pub target: RenderTarget,
    pub presents_with_transaction: bool,
    /// The surroundings of the frame. There is no instance buffer yet.
    pub context: FrameContext,
}

/// What a frame of the given size reads of the renderer, before there is an instance buffer.
pub open spec fn context_of(r: RendererModel, viewport_size: Size<DevicePixels>) -> FrameContext {
    FrameContext {
        opaque: r.opaque,
        unified_memory: r.is_unified_memory,
        path_texture: r.path_intermediate_texture is Some,
        multisample: r.path_intermediate_msaa_texture is Some,
        backdrop_texture: r.backdrop_blur_texture is Some,
        viewport_size,
        buffer_size: 0,
    }
}

/// A rendering of the given kind and size to the given target.
pub open spec fn plan_of(
    r: RendererModel,
    operation: Operation,
    target: RenderTarget,
    size: Size<DevicePixels>,
) -> RenderPlan {
    RenderPlan {
        operation,
        target,
        presents_with_transaction: r.presents_with_transaction,
        context: context_of(r, size),
    }
}

/// A rendering into the drawable of a layer.
pub open spec fn drawable_plan(
    r: RendererModel,
    operation: Operation,
    size: Size<DevicePixels>,
    has_drawable: bool,
) -> Result<RenderPlan, RenderError> {
    if r.layer is None {
        Err(RenderError::NoLayer(operation))
    } else if !has_drawable {
        Err(RenderError::NoDrawable { operation, size })
    } else {
        Ok(plan_of(r, operation, RenderTarget::Drawable, size))
    }
}

/// A rendering into a pixel buffer, and the renderer once it has begun.
pub open spec fn surface_plan(r: RendererModel, size: Size<DevicePixels>) -> (
    Result<RenderPlan, RenderError>,
    RendererModel,
) {
    let operation = Operation::RenderSceneToSurface;
    if is_drawable(size) {
        let target = RenderTarget::Surface {
            pixel_format: PIXEL_FORMAT_32BGRA,
            width: size.width.0 as usize,
            height: size.height.0 as usize,
            texture_format: PixelFormat::Bgra8Unorm,
            texture_usage: render_and_sample(),
        };
        let next = with_textures(r, size);
        (Ok(plan_of(next, operation, target, size)), next)
    } else {
        (Err(RenderError::InvalidSize { operation, size }), r)
    }
}

/// A rendering into a texture that is read back, and the renderer once it has begun.
pub open spec fn image_plan(r: RendererModel, size: Size<DevicePixels>) -> (
    Result<RenderPlan, RenderError>,
    RendererModel,
) {
    let operation = Operation::RenderSceneToImage;
    if is_drawable(size) {
        let target = RenderTarget::Texture(render_texture(size, StorageMode::Managed));
        let next = with_textures(r, size);
        (Ok(plan_of(next, operation, target, size)), next)
    } else {
        (Err(RenderError::InvalidSize { operation, size }), r)
    }
}

/// The headless target has the given size.
pub open spec fn has_headless_target(r: RendererModel, size: Size<DevicePixels>) -> bool {
    match r.headless_render_target {
        Some(texture) => texture.width == size.width.0 as u64 && texture.height
            == size.height.0 as u64,
        None => false,
    }
}

/// A rendering into the headless target, and the renderer once it has begun. The target is made
/// anew if there is none of that size.
pub open spec fn scene_plan(r: RendererModel, size: Size<DevicePixels>) -> (
    Result<RenderPlan, RenderError>,
    RendererModel,
) {
    let operation = Operation::RenderScene;
    if is_drawable(size) {
        let textured = with_textures(r, size);
        let create = !has_headless_target(r, size);
        let next = if create {
            RendererModel {
                headless_render_target: Some(render_texture(size, StorageMode::Private)),
                ..textured
            }
        } else {
            textured
        };
        let target = RenderTarget::Headless {
            descriptor: next.headless_render_target->0,
            create,
        };
        (Ok(plan_of(next, operation, target, size)), next)
    } else {
        (Err(RenderError::InvalidSize { operation, size }), r)
    }
}

/// What became of the pixel buffer of a rendering and of the texture around it.
#[derive(Clone, Copy, Debug, PartialEq, Eq)]
pub enum SurfaceOutcome {
    Ready,
    /// No pixel buffer was made.
    PixelBufferFailed(i32),
    /// The pixel buffer could not be wrapped as a texture.
    TextureFailed(i32),
    /// The texture is null.
    NullTexture,
}

impl RenderPlan {
    /// Takes in what became of the pixel buffer of a rendering into one.
    pub fn surface_made(self, outcome: SurfaceOutcome) -> (plan: Result<RenderPlan, RenderError>)
        ensures
            plan == match outcome {
                SurfaceOutcome::Ready => Ok::<RenderPlan, RenderError>(self),
                SurfaceOutcome::PixelBufferFailed(code) => Err(RenderError::PixelBuffer(code)),
                SurfaceOutcome::TextureFailed(code) => Err(RenderError::SurfaceTexture(code)),
                SurfaceOutcome::NullTexture => Err(RenderError::NullTexture),
            },
    {
        match outcome {
            SurfaceOutcome::Ready => Ok(self),
            SurfaceOutcome::PixelBufferFailed(code) => Err(RenderError::PixelBuffer(code)),
            SurfaceOutcome::TextureFailed(code) => Err(RenderError::SurfaceTexture(code)),
            SurfaceOutcome::NullTexture => Err(RenderError::NullTexture),
        }
    }
}

impl MetalRenderer {
    /// Creates a renderer for a window.
    pub fn new(device: &DeviceInfo, transparent: bool) -> (renderer: Self)
        ensures
            renderer@ == fresh_renderer(*device, Some(window_layer(transparent)), !transparent),
    {
        let layer = MetalLayer {
            pixel_format: PixelFormat::Bgra8Unorm,
            opaque: !transparent,
            maximum_drawable_count: MAXIMUM_DRAWABLE_COUNT,
            framebuffer_only: false,
            allows_next_drawable_timeout: false,
            needs_display_on_bounds_change: true,
            autoresizing: true,
            presents_with_transaction: false,
            drawable_size: None,
        };
        MetalRenderer::new_internal(device, Some(layer), !transparent)
    }

    /// Creates a renderer without a window. It clears its targets to opaque black.
    pub fn new_headless(device: &DeviceInfo) -> (renderer: Self)
        ensures
            renderer@ == fresh_renderer(*device, None, true),
    {
        MetalRenderer::new_internal(device, None, true)
    }

    fn new_internal(device: &DeviceInfo, layer: Option<MetalLayer>, opaque: bool) -> (renderer:
        Self)
        ensures
            renderer@ == fresh_renderer(*device, layer, opaque),
    {
        MetalRenderer {
            layer,
            is_apple_gpu: device.supports_apple1,
            is_unified_memory: device.has_unified_memory,
            presents_with_transaction: false,
            opaque,
            shader_pass_pipelines: ShaderPassPipelines::new(),
            path_intermediate_texture: None,
            path_intermediate_msaa_texture: None,
            backdrop_blur_texture: None,
            path_sample_count: PATH_SAMPLE_COUNT,
            headless_render_target: None,
        }
    }

    /// The layer, if the renderer has a window.
    pub fn layer(&self) -> (layer: Option<&MetalLayer>)
        ensures
            match layer {
                Some(layer) => self@.layer == Some(*layer),
                None => self@.layer is None,
            },
    {
        self.layer.as_ref()
    }

    /// Whether frames are presented together with the changes of the window.
    pub fn set_presents_with_transaction(&mut self, presents_with_transaction: bool)
        ensures
            final(self)@ == (RendererModel {
                presents_with_transaction,
                layer: match old(self)@.layer {
                    Some(layer) => Some(MetalLayer { presents_with_transaction, ..layer }),
                    None => None,
                },
                ..old(self)@
            }),
    {
        self.presents_with_transaction = presents_with_transaction;
        match self.layer {
            Some(layer) => {
                self.layer = Some(MetalLayer { presents_with_transaction, ..layer });
            },
            None => {},
        }
    }

    /// Follows a change of the size of the window.
    pub fn update_drawable_size(&mut self, size: Size<DevicePixels>)
        ensures
            final(self)@ == with_textures(
                RendererModel {
                    layer: match old(self)@.layer {
                        Some(layer) => Some(MetalLayer { drawable_size: Some(size), ..layer }),
                        None => None,
                    },
                    ..old(self)@
                },
                size,
            ),
    {
        match self.layer {
            Some(layer) => {
                self.layer = Some(MetalLayer { drawable_size: Some(size), ..layer });
            },
            None => {},
        }
        self.update_path_intermediate_textures(size);
    }

    fn update_path_intermediate_textures(&mut self, size: Size<DevicePixels>)
        ensures
            final(self)@ == with_textures(old(self)@, size),
    {
        if !size.is_drawable() {
            self.path_intermediate_texture = None;
            self.path_intermediate_msaa_texture = None;
            self.backdrop_blur_texture = None;
            return;
        }
        let texture: TextureDescriptor = TextureDescriptor::new(size, StorageMode::Private);
        self.path_intermediate_texture = Some(texture);
        self.backdrop_blur_texture = Some(texture);
        if self.path_sample_count > 1 {
            let storage_mode: StorageMode = if self.is_apple_gpu {
                StorageMode::Memoryless
            } else {
                StorageMode::Private
            };
            self.path_intermediate_msaa_texture = Some(
                TextureDescriptor {
                    sample_count: Some(self.path_sample_count as u64),
                    storage_mode,
                    ..texture
                },
            );
        } else {
            self.path_intermediate_msaa_texture = None;
        }
    }

    /// Follows a change of the transparency of the window.
    pub fn update_transparency(&mut self, transparent: bool)
        ensures
            final(self)@ == (RendererModel {
                opaque: !transparent,
                layer: match old(self)@.layer {
                    Some(layer) => Some(MetalLayer { opaque: !transparent, ..layer }),
                    None => None,
                },
                ..old(self)@
            }),
    {
        self.opaque = !transparent;
        match self.layer {
            Some(layer) => {
                self.layer = Some(MetalLayer { opaque: !transparent, ..layer });
            },
            None => {},
        }
    }

    /// Ends the use of the renderer. It holds nothing that would have to be given back.
    pub fn destroy(&self) {
    }

    fn context(&self, viewport_size: Size<DevicePixels>) -> (context: FrameContext)
        ensures
            context == context_of(self@, viewport_size),
    {
        FrameContext {
            opaque: self.opaque,
            unified_memory: self.is_unified_memory,
            path_texture: self.path_intermediate_texture.is_some(),
            multisample: self.path_intermediate_msaa_texture.is_some(),
            backdrop_texture: self.backdrop_blur_texture.is_some(),
            viewport_size,
            buffer_size: 0,
        }
    }

    fn plan(
        &self,
        operation: Operation,
        target: RenderTarget,
        viewport_size: Size<DevicePixels>,
    ) -> (plan: RenderPlan)
        ensures
            plan == plan_of(self@, operation, target, viewport_size),
    {
        RenderPlan {
            operation,
            target,
            presents_with_transaction: self.presents_with_transaction,
            context: self.context(viewport_size),
        }
    }

    /// Renders a scene to the screen. `viewport_size` is the size of the drawables of the layer,
    /// and `has_drawable` tells whether it had one to offer.
    pub fn draw(&self, viewport_size: Size<DevicePixels>, has_drawable: bool) -> (plan: Result<
        RenderPlan,
        RenderError,
    >)
        ensures
            plan == drawable_plan(self@, Operation::Draw, viewport_size, has_drawable),
    {
        if self.layer.is_none() {
            return Err(RenderError::NoLayer(Operation::Draw));
        }
        if !has_drawable {
            return Err(
                RenderError::NoDrawable { operation: Operation::Draw, size: viewport_size },
            );
        }
        Ok(self.plan(Operation::Draw, RenderTarget::Drawable, viewport_size))
    }

    /// Renders a scene into a drawable of the layer, which is read back and not shown.
    pub fn render_to_image(&self, viewport_size: Size<DevicePixels>, has_drawable: bool) -> (plan:
        Result<RenderPlan, RenderError>)
        ensures
            plan == drawable_plan(self@, Operation::RenderToImage, viewport_size, has_drawable),
    {
        let operation: Operation = Operation::RenderToImage;
        if self.layer.is_none() {
            return Err(RenderError::NoLayer(operation));
        }
        if !has_drawable {
            return Err(RenderError::NoDrawable { operation, size: viewport_size });
        }
        Ok(self.plan(operation, RenderTarget::Drawable, viewport_size))
    }

    /// Renders a scene into a pixel buffer of its own, which stays on the GPU and can be painted
    /// into another scene.
    pub fn render_scene_to_surface(&mut self, size: Size<DevicePixels>) -> (plan: Result<
        RenderPlan,
        RenderError,
    >)
        ensures
            (plan, final(self)@) == surface_plan(old(self)@, size),
    {
        let operation: Operation = Operation::RenderSceneToSurface;
        if !size.is_drawable() {
            return Err(RenderError::InvalidSize { operation, size });
        }
        self.update_path_intermediate_textures(size);
        let target = RenderTarget::Surface {
            pixel_format: PIXEL_FORMAT_32BGRA,
            width: size.width.0 as usize,
            height: size.height.0 as usize,
            texture_format: PixelFormat::Bgra8Unorm,
            texture_usage: render_texture_usage(),
        };
        Ok(self.plan(operation, target, size))
    }

    /// Renders a scene into a pixel buffer of the size of the layer.
    pub fn render_to_surface(&mut self, viewport_size: Size<DevicePixels>) -> (plan: Result<
        RenderPlan,
        RenderError,
    >)
        ensures
            (plan, final(self)@) == if old(self)@.layer is None {
                (Err(RenderError::NoLayer(Operation::RenderToSurface)), old(self)@)
            } else {
                surface_plan(old(self)@, viewport_size)
            },
    {
        if self.layer.is_none() {
            return Err(RenderError::NoLayer(Operation::RenderToSurface));
        }
        self.render_scene_to_surface(viewport_size)
    }

    /// Renders a scene into a texture of its own, which is read back.
    pub fn render_scene_to_image(&mut self, size: Size<DevicePixels>) -> (plan: Result<
        RenderPlan,
        RenderError,
    >)
        ensures
            (plan, final(self)@) == image_plan(old(self)@, size),
    {
        let operation: Operation = Operation::RenderSceneToImage;
        if !size.is_drawable() {
            return Err(RenderError::InvalidSize { operation, size });
        }
        self.update_path_intermediate_textures(size);
        let target = RenderTarget::Texture(TextureDescriptor::new(size, StorageMode::Managed));
        Ok(self.plan(operation, target, size))
    }

    /// Renders a scene into a texture that is used again and again, and does not wait for it. The
    /// work of the CPU is that of a frame for a window.
    pub fn render_scene(&mut self, size: Size<DevicePixels>) -> (plan: Result<
        RenderPlan,
        RenderError,
    >)
        ensures
            (plan, final(self)@) == scene_plan(old(self)@, size),
    {
        let operation: Operation = Operation::RenderScene;
        if !size.is_drawable() {
            return Err(RenderError::InvalidSize { operation, size });
        }
        self.update_path_intermediate_textures(size);
        let fresh: TextureDescriptor = TextureDescriptor::new(size, StorageMode::Private);
        let kept: Option<TextureDescriptor> = match self.headless_render_target {
            Some(texture) => if texture.width == size.width.0 as u64 && texture.height
                == size.height.0 as u64 {
                Some(texture)
            } else {
                None
            },
            None => None,
        };
        let target = match kept {
            Some(descriptor) => RenderTarget::Headless { descriptor, create: false },
            None => {
                self.headless_render_target = Some(fresh);
                RenderTarget::Headless { descriptor: fresh, create: true }
            },
        };
        Ok(self.plan(operation, target, size))
    }
}

/// The intermediate textures of a renderer come together, and have the same extent.
pub open spec fn textures_agree(r: RendererModel) -> bool {
    match r.path_intermediate_texture {
        None => r.backdrop_blur_texture is None && r.path_intermediate_msaa_texture is None,
        Some(texture) => {
            &&& r.backdrop_blur_texture == Some(texture)
            &&& texture.width > 0 && texture.height > 0
            &&& texture.sample_count is None
            &&& match r.path_intermediate_msaa_texture {
                None => r.path_sample_count <= 1,
                Some(multisampled) => {
                    &&& multisampled.width == texture.width
                    &&& multisampled.height == texture.height
                    &&& multisampled.pixel_format == texture.pixel_format
                    &&& multisampled.sample_count == Some(r.path_sample_count as u64)
                },
            }
        },
    }
}

/// The intermediate textures of a renderer agree from its start on, whatever the sizes that it
/// renders at.
pub proof fn textures_always_agree(
    device: DeviceInfo,
    layer: Option<MetalLayer>,
    opaque: bool,
    r: RendererModel,
    size: Size<DevicePixels>,
)
    requires
        textures_agree(r),
    ensures
        textures_agree(fresh_renderer(device, layer, opaque)),
        textures_agree(with_textures(r, size)),
        textures_agree(surface_plan(r, size).1),
        textures_agree(image_plan(r, size).1),
        textures_agree(scene_plan(r, size).1),
{
}

/// A rendering into a target of a given size has textures for its paths and its backdrop, of the
/// size of the target: it is never refused for want of one.
pub proof fn offscreen_renderings_have_textures(r: RendererModel, size: Size<DevicePixels>)
    requires
        is_drawable(size),
    ensures
        surface_plan(r, size).0 matches Ok(plan) && plan.context.path_texture
            && plan.context.backdrop_texture,
        image_plan(r, size).0 matches Ok(plan) && plan.context.path_texture
            && plan.context.backdrop_texture,
        scene_plan(r, size).0 matches Ok(plan) && plan.context.path_texture
            && plan.context.backdrop_texture,
{
}

/// The headless target is made once for each change of the size: a second rendering of the same
/// size uses the target of the first.
pub proof fn headless_targets_are_reused(r: RendererModel, size: Size<DevicePixels>)
    requires
        is_drawable(size),
    ensures
        ({
            let (first, next) = scene_plan(r, size);
            let (second, last) = scene_plan(next, size);
            match (first, second) {
                (Ok(first), Ok(second)) => match (first.target, second.target) {
                    (
                        RenderTarget::Headless { descriptor: made, .. },
                        RenderTarget::Headless { descriptor: used, create },
                    ) => !create && used == made && last == next,
                    _ => false,
                },
                _ => false,
            }
        }),
{
}

/// A plan is one of the given operation and size, and speaks of the renderer as it is then.
pub open spec fn speaks_of(
    plan: RenderPlan,
    operation: Operation,
    r: RendererModel,
    size: Size<DevicePixels>,
) -> bool {
    &&& plan.operation == operation
    &&& plan.presents_with_transaction == r.presents_with_transaction
    &&& plan.context.opaque == r.opaque
    &&& plan.context.unified_memory == r.is_unified_memory
    &&& plan.context.viewport_size == size
    &&& plan.context.path_texture <==> r.path_intermediate_texture is Some
    &&& plan.context.multisample <==> r.path_intermediate_msaa_texture is Some
    &&& plan.context.backdrop_texture <==> r.backdrop_blur_texture is Some
}

/// The second renderer is the first with other textures.
pub open spec fn differs_in_textures(before: RendererModel, after: RendererModel) -> bool {
    &&& after.layer == before.layer
    &&& after.is_apple_gpu == before.is_apple_gpu
    &&& after.is_unified_memory == before.is_unified_memory
    &&& after.presents_with_transaction == before.presents_with_transaction
    &&& after.opaque == before.opaque
    &&& after.pipelines == before.pipelines
    &&& after.path_sample_count == before.path_sample_count
}

/// A texture with the extent of a target.
pub open spec fn has_extent(texture: TextureDescriptor, size: Size<DevicePixels>) -> bool {
    texture.width == size.width.0 && texture.height == size.height.0
}

/// Every rendering of a target with pixels is planned: for the operation and the size that were
/// asked for, with a target of that size, over a renderer that has changed in nothing but its
/// textures. The target that is read back can be copied back, and the others stay on the GPU.
pub proof fn plans_are_made_as_asked(r: RendererModel, size: Size<DevicePixels>)
    requires
        is_drawable(size),
    ensures
        surface_plan(r, size).0 matches Ok(plan) && {
            &&& speaks_of(plan, Operation::RenderSceneToSurface, surface_plan(r, size).1, size)
            &&& plan.target matches RenderTarget::Surface { width, height, .. }
            &&& width == size.width.0 && height == size.height.0
        },
        image_plan(r, size).0 matches Ok(plan) && {
            &&& speaks_of(plan, Operation::RenderSceneToImage, image_plan(r, size).1, size)
            &&& plan.target matches RenderTarget::Texture(texture)
            &&& has_extent(texture, size) && texture.storage_mode == StorageMode::Managed
        },
        scene_plan(r, size).0 matches Ok(plan) && {
            &&& speaks_of(plan, Operation::RenderScene, scene_plan(r, size).1, size)
            &&& plan.target matches RenderTarget::Headless { descriptor, create }
            &&& has_extent(descriptor, size)
            &&& scene_plan(r, size).1.headless_render_target == Some(descriptor)
            &&& create ==> descriptor.storage_mode == StorageMode::Private
            &&& !create ==> r.headless_render_target == Some(descriptor)
        },
        differs_in_textures(r, surface_plan(r, size).1),
        differs_in_textures(r, image_plan(r, size).1),
        differs_in_textures(r, scene_plan(r, size).1),
        surface_plan(r, size).1.headless_render_target == r.headless_render_target,
        image_plan(r, size).1.headless_render_target == r.headless_render_target,
{
}

/// A rendering into a drawable is planned exactly if the renderer has a layer that has one, for the
/// operation and the size that were asked for.
pub proof fn drawables_are_planned_if_there_are_any(
    r: RendererModel,
    operation: Operation,
    size: Size<DevicePixels>,
    has_drawable: bool,
)
    ensures
        match drawable_plan(r, operation, size, has_drawable) {
            Ok(plan) => {
                &&& r.layer is Some && has_drawable
                &&& speaks_of(plan, operation, r, size)
                &&& plan.target == RenderTarget::Drawable
            },
            Err(RenderError::NoLayer(refused)) => r.layer is None && refused == operation,
            Err(RenderError::NoDrawable { operation: refused, size: missing }) => {
                &&& r.layer is Some && !has_drawable
                &&& refused == operation && missing == size
            },
            Err(_) => false,
        },
{
}

/// A target without pixels is refused, with the operation and the size that were asked for, and the
/// renderer stays as it is.
pub proof fn empty_targets_are_refused(r: RendererModel, size: Size<DevicePixels>)
    requires
        size.width.0 <= 0 || size.height.0 <= 0,
    ensures
        surface_plan(r, size) == (
            Err::<RenderPlan, RenderError>(
                RenderError::InvalidSize { operation: Operation::RenderSceneToSurface, size },
            ),
            r,
        ),
        image_plan(r, size) == (
            Err::<RenderPlan, RenderError>(
                RenderError::InvalidSize { operation: Operation::RenderSceneToImage, size },
            ),
            r,
        ),
        scene_plan(r, size) == (
            Err::<RenderPlan, RenderError>(
                RenderError::InvalidSize { operation: Operation::RenderScene, size },
            ),
            r,
        ),
{
}

/// The intermediate textures have the extent of the target, can be rendered to and sampled, and
/// stay on the GPU; the multisampled one, which is there exactly if there is more than one sample,
/// needs no memory on Apple GPUs.
pub proof fn textures_follow_the_target(r: RendererModel, size: Size<DevicePixels>)
    requires
        is_drawable(size),
    ensures
        with_textures(r, size).path_intermediate_texture matches Some(texture) && {
            &&& has_extent(texture, size)
            &&& texture.storage_mode == StorageMode::Private
            &&& texture.usage == 5
            &&& texture.sample_count is None
        },
        with_textures(r, size).backdrop_blur_texture
            == with_textures(r, size).path_intermediate_texture,
        match with_textures(r, size).path_intermediate_msaa_texture {
            Some(texture) => {
                &&& r.path_sample_count > 1
                &&& has_extent(texture, size)
                &&& texture.sample_count == Some(r.path_sample_count as u64)
                &&& texture.usage == 5
                &&& texture.storage_mode == if r.is_apple_gpu {
                    StorageMode::Memoryless
                } else {
                    StorageMode::Private
                }
            },
            None => r.path_sample_count <= 1,
        },
        differs_in_textures(r, with_textures(r, size)),
{
}

} // verus!
