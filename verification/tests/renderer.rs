use scene_renderer::descriptors::{PixelFormat, StorageMode, TextureDescriptor};
use scene_renderer::device::DeviceInfo;
use scene_renderer::encoder::FrameContext;
use scene_renderer::error::{Operation, RenderError};
use scene_renderer::geometry::{size, DevicePixels, Size};
use scene_renderer::headless::MetalHeadlessRenderer;
use scene_renderer::readback::Readback;
use scene_renderer::renderer::{
    MetalLayer, MetalRenderer, RenderPlan, RenderTarget, SurfaceOutcome,
};
use scene_renderer::scene::PIXEL_FORMAT_32BGRA;

fn apple() -> DeviceInfo {
    DeviceInfo {
        is_removable: false,
        is_low_power: true,
        has_unified_memory: true,
        supports_apple1: true,
    }
}

fn discrete() -> DeviceInfo {
    DeviceInfo {
        is_removable: false,
        is_low_power: false,
        has_unified_memory: false,
        supports_apple1: false,
    }
}

fn pixels(width: i32, height: i32) -> Size<DevicePixels> {
    size(DevicePixels(width), DevicePixels(height))
}

fn texture(width: u64, height: u64, storage_mode: StorageMode) -> TextureDescriptor {
    TextureDescriptor {
        width,
        height,
        pixel_format: PixelFormat::Bgra8Unorm,
        storage_mode,
        usage: 5,
        sample_count: None,
    }
}

#[test]
fn a_window_has_a_layer() {
    let renderer = MetalRenderer::new(&apple(), true);
    assert_eq!(
        renderer.layer(),
        Some(&MetalLayer {
            pixel_format: PixelFormat::Bgra8Unorm,
            opaque: false,
            maximum_drawable_count: 3,
            framebuffer_only: false,
            allows_next_drawable_timeout: false,
            needs_display_on_bounds_change: true,
            autoresizing: true,
            presents_with_transaction: false,
            drawable_size: None,
        })
    );
    assert!(!renderer.opaque);
    assert!(renderer.is_apple_gpu && renderer.is_unified_memory);
    assert_eq!(renderer.path_sample_count, 4);
    let opaque = MetalRenderer::new(&discrete(), false);
    assert!(opaque.opaque && opaque.layer().unwrap().opaque);
    assert!(!opaque.is_apple_gpu && !opaque.is_unified_memory);
    opaque.destroy();
}

#[test]
fn a_headless_renderer_has_no_layer() {
    let renderer = MetalRenderer::new_headless(&apple());
    assert_eq!(renderer.layer(), None);
    assert!(renderer.opaque);
    assert!(!renderer.presents_with_transaction);
    assert_eq!(renderer.headless_render_target, None);
}

#[test]
fn textures_follow_the_size() {
    let mut renderer = MetalRenderer::new(&apple(), false);
    renderer.update_drawable_size(pixels(640, 480));
    let plain = texture(640, 480, StorageMode::Private);
    assert_eq!(renderer.path_intermediate_texture, Some(plain));
    assert_eq!(renderer.backdrop_blur_texture, Some(plain));
    assert_eq!(
        renderer.path_intermediate_msaa_texture,
        Some(TextureDescriptor {
            storage_mode: StorageMode::Memoryless,
            sample_count: Some(4),
            ..plain
        })
    );
    assert_eq!(renderer.layer().unwrap().drawable_size, Some(pixels(640, 480)));
    renderer.update_drawable_size(pixels(0, 480));
    assert_eq!(renderer.path_intermediate_texture, None);
    assert_eq!(renderer.backdrop_blur_texture, None);
    assert_eq!(renderer.path_intermediate_msaa_texture, None);
    assert_eq!(renderer.layer().unwrap().drawable_size, Some(pixels(0, 480)));
}

#[test]
fn other_devices_keep_multisampled_textures_in_memory() {
    let mut renderer = MetalRenderer::new_headless(&discrete());
    renderer.update_drawable_size(pixels(2, 3));
    assert_eq!(
        renderer.path_intermediate_msaa_texture,
        Some(TextureDescriptor {
            sample_count: Some(4),
            ..texture(2, 3, StorageMode::Private)
        })
    );
    renderer.path_sample_count = 1;
    renderer.update_drawable_size(pixels(2, 3));
    assert_eq!(renderer.path_intermediate_msaa_texture, None);
    assert_eq!(
        renderer.path_intermediate_texture,
        Some(texture(2, 3, StorageMode::Private))
    );
}

#[test]
fn transparency_reaches_the_layer() {
    let mut renderer = MetalRenderer::new(&apple(), false);
    renderer.update_transparency(true);
    assert!(!renderer.opaque);
    assert!(!renderer.layer().unwrap().opaque);
    let mut headless = MetalRenderer::new_headless(&apple());
    headless.update_transparency(true);
    assert!(!headless.opaque);
    assert_eq!(headless.layer(), None);
}

#[test]
fn transactions_reach_the_layer() {
    let mut renderer = MetalRenderer::new(&apple(), false);
    renderer.set_presents_with_transaction(true);
    assert!(renderer.presents_with_transaction);
    assert!(renderer.layer().unwrap().presents_with_transaction);
    assert!(renderer.draw(pixels(1, 1), true).unwrap().presents_with_transaction);
    let mut headless = MetalRenderer::new_headless(&apple());
    headless.set_presents_with_transaction(true);
    assert!(headless.presents_with_transaction);
}

#[test]
fn drawing_takes_a_layer_and_a_drawable() {
    let mut renderer = MetalRenderer::new(&apple(), true);
    renderer.update_drawable_size(pixels(30, 20));
    let plan = RenderPlan {
        operation: Operation::Draw,
        target: RenderTarget::Drawable,
        presents_with_transaction: false,
        context: FrameContext {
            opaque: false,
            unified_memory: true,
            path_texture: true,
            multisample: true,
            backdrop_texture: true,
            viewport_size: pixels(31, 20),
            buffer_size: 0,
        },
    };
    assert_eq!(renderer.draw(pixels(31, 20), true), Ok(plan));
    assert_eq!(
        renderer.render_to_image(pixels(31, 20), true),
        Ok(RenderPlan { operation: Operation::RenderToImage, ..plan })
    );
    assert_eq!(
        renderer.draw(pixels(31, 20), false),
        Err(RenderError::NoDrawable { operation: Operation::Draw, size: pixels(31, 20) })
    );
    assert_eq!(
        renderer.render_to_image(pixels(31, 20), false),
        Err(RenderError::NoDrawable {
            operation: Operation::RenderToImage,
            size: pixels(31, 20)
        })
    );
    let mut headless = MetalRenderer::new_headless(&apple());
    assert_eq!(
        headless.draw(pixels(31, 20), true),
        Err(RenderError::NoLayer(Operation::Draw))
    );
    assert_eq!(
        headless.render_to_image(pixels(31, 20), true),
        Err(RenderError::NoLayer(Operation::RenderToImage))
    );
    assert_eq!(
        headless.render_to_surface(pixels(31, 20)),
        Err(RenderError::NoLayer(Operation::RenderToSurface))
    );
    assert_eq!(headless.path_intermediate_texture, None);
}

#[test]
fn empty_targets_are_refused() {
    for bad in [pixels(0, 5), pixels(5, 0), pixels(-1, 5), pixels(5, -1)] {
        let mut renderer = MetalRenderer::new(&apple(), false);
        renderer.update_drawable_size(pixels(9, 9));
        let kept = renderer.path_intermediate_texture;
        assert_eq!(
            renderer.render_scene_to_surface(bad),
            Err(RenderError::InvalidSize {
                operation: Operation::RenderSceneToSurface,
                size: bad
            })
        );
        assert_eq!(
            renderer.render_to_surface(bad),
            Err(RenderError::InvalidSize {
                operation: Operation::RenderSceneToSurface,
                size: bad
            })
        );
        assert_eq!(
            renderer.render_scene_to_image(bad),
            Err(RenderError::InvalidSize { operation: Operation::RenderSceneToImage, size: bad })
        );
        assert_eq!(
            renderer.render_scene(bad),
            Err(RenderError::InvalidSize { operation: Operation::RenderScene, size: bad })
        );
        assert_eq!(renderer.path_intermediate_texture, kept);
        assert_eq!(renderer.headless_render_target, None);
    }
}

#[test]
fn surfaces_are_made_for_the_occasion() {
    let mut renderer = MetalRenderer::new(&discrete(), false);
    let plan = renderer.render_to_surface(pixels(7, 6)).unwrap();
    assert_eq!(plan.operation, Operation::RenderSceneToSurface);
    assert_eq!(
        plan.target,
        RenderTarget::Surface {
            pixel_format: PIXEL_FORMAT_32BGRA,
            width: 7,
            height: 6,
            texture_format: PixelFormat::Bgra8Unorm,
            texture_usage: 5,
        }
    );
    assert!(plan.context.path_texture && plan.context.backdrop_texture);
    assert_eq!(
        renderer.path_intermediate_texture,
        Some(texture(7, 6, StorageMode::Private))
    );
    assert_eq!(plan.surface_made(SurfaceOutcome::Ready), Ok(plan));
    assert_eq!(
        plan.surface_made(SurfaceOutcome::PixelBufferFailed(-6661)),
        Err(RenderError::PixelBuffer(-6661))
    );
    assert_eq!(
        plan.surface_made(SurfaceOutcome::TextureFailed(-6660)),
        Err(RenderError::SurfaceTexture(-6660))
    );
    assert_eq!(
        plan.surface_made(SurfaceOutcome::NullTexture),
        Err(RenderError::NullTexture)
    );
}

#[test]
fn images_are_rendered_into_managed_textures() {
    let mut renderer = MetalRenderer::new_headless(&discrete());
    let plan = renderer.render_scene_to_image(pixels(12, 34)).unwrap();
    assert_eq!(plan.target, RenderTarget::Texture(texture(12, 34, StorageMode::Managed)));
    assert_eq!(plan.context.viewport_size, pixels(12, 34));
    assert!(plan.context.opaque && !plan.context.unified_memory);
}

#[test]
fn the_headless_target_is_used_again() {
    let mut renderer = MetalRenderer::new_headless(&apple());
    let descriptor = texture(8, 9, StorageMode::Private);
    let first = renderer.render_scene(pixels(8, 9)).unwrap();
    assert_eq!(first.target, RenderTarget::Headless { descriptor, create: true });
    let second = renderer.render_scene(pixels(8, 9)).unwrap();
    assert_eq!(second.target, RenderTarget::Headless { descriptor, create: false });
    let other = renderer.render_scene(pixels(8, 10)).unwrap();
    assert_eq!(
        other.target,
        RenderTarget::Headless {
            descriptor: texture(8, 10, StorageMode::Private),
            create: true
        }
    );
}

#[test]
fn a_headless_renderer_brings_its_pool() {
    let mut headless: MetalHeadlessRenderer<u32> = MetalHeadlessRenderer::new(&apple());
    assert_eq!(headless.instance_buffer_pool.buffer_size, 2 * 1024 * 1024);
    assert_eq!(headless.instance_buffer_pool.buffers, vec![]);
    assert_eq!(
        headless.render_scene_to_image(pixels(4, 5)).unwrap().operation,
        Operation::RenderSceneToImage
    );
    assert_eq!(
        headless.render_scene(pixels(4, 5)).unwrap().operation,
        Operation::RenderScene
    );
    assert_eq!(
        headless.render_scene(pixels(4, 0)),
        Err(RenderError::InvalidSize { operation: Operation::RenderScene, size: pixels(4, 0) })
    );
}

#[test]
fn the_requested_size_is_read_back() {
    let mut renderer = MetalRenderer::new(&apple(), false);
    let plan = renderer.render_scene_to_image(pixels(12, 34)).unwrap();
    assert_eq!(plan.readback(None), Some(Readback::new(12, 34)));
    assert_eq!(plan.readback(Some(size(1, 2))), Some(Readback::new(12, 34)));
    let plan = renderer.render_to_image(pixels(12, 34), true).unwrap();
    assert_eq!(plan.readback(Some(size(13, 35))), Some(Readback::new(13, 35)));
    assert_eq!(plan.readback(None), None);
    for plan in [
        renderer.draw(pixels(12, 34), true).unwrap(),
        renderer.render_scene_to_surface(pixels(12, 34)).unwrap(),
        renderer.render_scene(pixels(12, 34)).unwrap(),
    ] {
        assert_eq!(plan.readback(Some(size(13, 35))), None);
    }
}
