use scene_renderer::error::{Operation, RenderError};
use scene_renderer::geometry::{size, DevicePixels};
use scene_renderer::scene::SceneTooLarge;

#[test]
fn missing_layers_are_named_after_the_operation() {
    assert_eq!(
        RenderError::NoLayer(Operation::Draw).message(""),
        "draw() called on headless renderer - use render_scene_to_image() instead"
    );
    assert_eq!(
        RenderError::NoLayer(Operation::RenderToImage).message(""),
        "render_to_image requires a layer-backed renderer"
    );
    assert_eq!(
        RenderError::NoLayer(Operation::RenderToSurface).message(""),
        "render_to_surface requires a layer-backed renderer"
    );
}

#[test]
fn missing_drawables_are_reported() {
    let size = size(DevicePixels(800), DevicePixels(600));
    assert_eq!(
        RenderError::NoDrawable { operation: Operation::Draw, size }.message("800 by 600"),
        "failed to retrieve next drawable, drawable size: 800 by 600"
    );
    assert_eq!(
        RenderError::NoDrawable { operation: Operation::RenderToImage, size }.message(""),
        "Failed to get drawable for render_to_image"
    );
}

#[test]
fn invalid_sizes_are_spelled_out() {
    for (operation, name) in [
        (Operation::RenderSceneToSurface, "render_scene_to_surface"),
        (Operation::RenderSceneToImage, "render_scene_to_image"),
        (Operation::RenderScene, "render_scene"),
    ] {
        for (width, height) in [(0, 5), (-3, 7), (i32::MIN, 0)] {
            let size = size(DevicePixels(width), DevicePixels(height));
            assert_eq!(
                RenderError::InvalidSize { operation, size }.message(&format!("{size:?}")),
                format!("Invalid size for {name}: {size:?}")
            );
        }
    }
}

#[test]
fn the_replies_of_the_system_are_kept() {
    assert_eq!(
        RenderError::PixelBuffer(-6660).message(""),
        "CVPixelBufferCreate failed: CVReturn(-6660)"
    );
    assert_eq!(
        RenderError::SurfaceTexture(1).message(""),
        "CVMetalTextureCache create failed: CVReturn(1)"
    );
    assert_eq!(RenderError::NullTexture.message(""), "CVMetalTextureGetTexture returned null");
    assert_eq!(
        RenderError::ImageCreation.message(""),
        "Failed to create RgbaImage from pixel data"
    );
}

#[test]
fn the_limit_of_the_buffers_is_reported() {
    assert_eq!(
        RenderError::InstanceBufferTooLarge(268435456).message(""),
        "instance buffer size grew too large: 268435456"
    );
    assert_eq!(
        RenderError::InstanceBufferTooLarge(usize::MAX).message(""),
        format!("instance buffer size grew too large: {}", usize::MAX)
    );
}

#[test]
fn large_scenes_are_counted() {
    let counts = SceneTooLarge {
        paths: 1,
        shadows: 20,
        quads: 300,
        underlines: 4000,
        monochrome_sprites: 0,
        polychrome_sprites: 6,
        surfaces: 70,
    };
    assert_eq!(
        counts.message(),
        "scene too large: 1 paths, 20 shadows, 300 quads, 4000 underlines, 0 mono, 6 poly, 70 surfaces"
    );
}
