//! Rendering without a window.

use crate::device::DeviceInfo;
use crate::error::RenderError;
use crate::geometry::{DevicePixels, Size};
use crate::pool::{empty_pool, InstanceBufferPool, INITIAL_BUFFER_SIZE};
use crate::renderer::{fresh_renderer, image_plan, scene_plan, MetalRenderer, RenderPlan};
use vstd::prelude::*;

verus! {

/// A renderer without a window, with a pool of instance buffers of its own. `B` is the handle of
/// a buffer on the GPU.
pub struct MetalHeadlessRenderer<B> {
    pub renderer: MetalRenderer,
    pub instance_buffer_pool: InstanceBufferPool<B>,
}

impl<B> MetalHeadlessRenderer<B> {
    /// Creates a renderer with a fresh pool.
    pub fn new(device: &DeviceInfo) -> (r: Self)
        ensures
            r.renderer@ == fresh_renderer(*device, None, true),
            r.instance_buffer_pool@ == empty_pool::<B>(INITIAL_BUFFER_SIZE),
    {
        MetalHeadlessRenderer {
            renderer: MetalRenderer::new_headless(device),
            instance_buffer_pool: InstanceBufferPool::default(),
        }
    }

    /// Renders a scene into a texture of its own, which is read back.
    pub fn render_scene_to_image(&mut self, size: Size<DevicePixels>) -> (plan: Result<
        RenderPlan,
        RenderError,
    >)
        ensures
            (plan, final(self).renderer@) == image_plan(old(self).renderer@, size),
            final(self).instance_buffer_pool == old(self).instance_buffer_pool,
    {
        self.renderer.render_scene_to_image(size)
    }

    /// Renders a scene into a texture that is used again and again, and does not wait for it.
    pub fn render_scene(&mut self, size: Size<DevicePixels>) -> (plan: Result<
        RenderPlan,
        RenderError,
    >)
        ensures
            (plan, final(self).renderer@) == scene_plan(old(self).renderer@, size),
            final(self).instance_buffer_pool == old(self).instance_buffer_pool,
    {
        self.renderer.render_scene(size)
    }
}

} // verus!
