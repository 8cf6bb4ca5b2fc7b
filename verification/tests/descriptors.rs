use scene_renderer::commands::Pipeline;
use scene_renderer::descriptors::{
    build_copy_pipeline_state, build_path_rasterization_pipeline_state, fixed_pipeline_state,
    fixed_pipelines, render_texture_usage, shader_pass_pipeline_state, shader_pass_sampler,
    to_float2_bits, unit_vertices, AddressMode, BlendFactor, Blending, Filter, PipelineDescriptor,
    PixelFormat, SamplerDescriptor, StorageMode, TextureDescriptor,
};
use scene_renderer::geometry::{point, size, Bounds, DevicePixels, ScaledPixels};
use scene_renderer::scene::ShaderPass;

#[test]
fn pairs_of_floats_are_packed() {
    let pack = |x: f32, y: f32| to_float2_bits(point(x.to_bits(), y.to_bits()));
    assert_eq!(pack(0.0, 0.0), 0);
    assert_eq!(pack(1.0, 0.0), 0x0000_0000_3f80_0000);
    assert_eq!(pack(0.0, 1.0), 0x3f80_0000_0000_0000);
    assert_eq!(pack(-2.5, 1.0), 0x3f80_0000_c020_0000);
}

#[test]
fn two_triangles_cover_the_unit_square() {
    let corners: Vec<(f32, f32)> = unit_vertices()
        .into_iter()
        .map(|bits| (f32::from_bits(bits as u32), f32::from_bits((bits >> 32) as u32)))
        .collect();
    assert_eq!(
        corners,
        vec![(0.0, 0.0), (1.0, 0.0), (0.0, 1.0), (0.0, 1.0), (1.0, 0.0), (1.0, 1.0)]
    );
}

#[test]
fn textures_take_their_size_over() {
    assert_eq!(
        TextureDescriptor::new(size(DevicePixels(3), DevicePixels(4)), StorageMode::Managed),
        TextureDescriptor {
            width: 3,
            height: 4,
            pixel_format: PixelFormat::Bgra8Unorm,
            storage_mode: StorageMode::Managed,
            usage: 5,
            sample_count: None,
        }
    );
}

fn blending(
    source_rgb: BlendFactor,
    destination_alpha: BlendFactor,
) -> Option<Blending> {
    Some(Blending {
        source_rgb,
        source_alpha: BlendFactor::One,
        destination_rgb: BlendFactor::OneMinusSourceAlpha,
        destination_alpha,
    })
}

fn plain(
    label: &'static str,
    vertex_function: &'static str,
    fragment_function: &'static str,
    blending: Option<Blending>,
) -> Option<PipelineDescriptor<&'static str>> {
    Some(PipelineDescriptor {
        label,
        vertex_function,
        fragment_function,
        pixel_format: PixelFormat::Bgra8Unorm,
        raster_sample_count: None,
        blending,
    })
}

#[test]
fn the_fixed_pipelines_have_their_functions() {
    let straight = blending(BlendFactor::SourceAlpha, BlendFactor::One);
    let premultiplied = blending(BlendFactor::One, BlendFactor::One);
    let cases = [
        (Pipeline::Shadows, plain("shadows", "shadow_vertex", "shadow_fragment", straight)),
        (Pipeline::Quads, plain("quads", "quad_vertex", "quad_fragment", straight)),
        (
            Pipeline::Underlines,
            plain("underlines", "underline_vertex", "underline_fragment", straight),
        ),
        (
            Pipeline::MonochromeSprites,
            plain(
                "monochrome_sprites",
                "monochrome_sprite_vertex",
                "monochrome_sprite_fragment",
                straight,
            ),
        ),
        (
            Pipeline::PolychromeSprites,
            plain(
                "polychrome_sprites",
                "polychrome_sprite_vertex",
                "polychrome_sprite_fragment",
                straight,
            ),
        ),
        (Pipeline::Surfaces, plain("surfaces", "surface_vertex", "surface_fragment", straight)),
        (
            Pipeline::SurfacesBgra,
            plain("surfaces_bgra", "surface_vertex", "surface_fragment_bgra", straight),
        ),
        (
            Pipeline::PathSprites,
            plain("path_sprites", "path_sprite_vertex", "path_sprite_fragment", premultiplied),
        ),
        (
            Pipeline::BackdropBlur,
            plain(
                "backdrop_blur",
                "backdrop_blur_vertex",
                "backdrop_blur_fragment",
                premultiplied,
            ),
        ),
        (
            Pipeline::SceneFlip,
            plain("scene_flip", "scene_flip_vertex", "scene_flip_fragment", None),
        ),
        (Pipeline::ShaderPass(5), None),
    ];
    for (pipeline, expected) in cases {
        assert_eq!(fixed_pipeline_state(pipeline), expected);
    }
}

#[test]
fn paths_are_rasterized_with_four_samples() {
    assert_eq!(
        fixed_pipeline_state(Pipeline::PathsRasterization),
        Some(PipelineDescriptor {
            label: "paths_rasterization",
            vertex_function: "path_rasterization_vertex",
            fragment_function: "path_rasterization_fragment",
            pixel_format: PixelFormat::Bgra8Unorm,
            raster_sample_count: Some(4),
            blending: blending(BlendFactor::One, BlendFactor::OneMinusSourceAlpha),
        })
    );
    let single =
        build_path_rasterization_pipeline_state("p", "v", "f", PixelFormat::Bgra8Unorm, 1);
    assert_eq!(single.raster_sample_count, None);
}

#[test]
fn copies_do_not_blend() {
    let copy = build_copy_pipeline_state("copy", "v", "f", PixelFormat::R8Unorm);
    assert_eq!(copy.blending, None);
    assert_eq!(copy.pixel_format, PixelFormat::R8Unorm);
}

#[test]
fn shader_passes_overwrite_with_their_own_function() {
    let pass = ShaderPass {
        bounds: Bounds {
            origin: point(ScaledPixels(0), ScaledPixels(0)),
            size: size(ScaledPixels(0), ScaledPixels(0)),
        },
        shader_id: 1,
        msl: String::from("fragment float4 main_() { return 0; }"),
        fragment_entry: String::from("main_"),
        uniforms: vec![],
        samples_scene: false,
    };
    let descriptor = shader_pass_pipeline_state(&pass);
    assert_eq!(descriptor.label, "shader_pass");
    assert_eq!(descriptor.vertex_function, "shader_pass_vertex");
    assert_eq!(descriptor.fragment_function, "main_");
    assert_eq!(descriptor.pixel_format, PixelFormat::Bgra8Unorm);
    assert_eq!(descriptor.blending, None);
}

#[test]
fn scenes_are_sampled_smoothly() {
    assert_eq!(
        shader_pass_sampler(),
        SamplerDescriptor {
            min_filter: Filter::Linear,
            mag_filter: Filter::Linear,
            address_mode_s: AddressMode::ClampToEdge,
            address_mode_t: AddressMode::ClampToEdge,
        }
    );
}

#[test]
fn every_fixed_pipeline_is_built_once() {
    let drawn = fixed_pipelines();
    assert_eq!(drawn.len(), 11);
    assert_eq!(drawn[0], Pipeline::PathsRasterization);
    assert_eq!(drawn[10], Pipeline::SceneFlip);
    for (i, pipeline) in drawn.iter().enumerate() {
        assert!(fixed_pipeline_state(*pipeline).is_some());
        assert!(!drawn[..i].contains(pipeline));
    }
    assert!(!drawn.contains(&Pipeline::ShaderPass(0)));
}

#[test]
fn textures_are_rendered_to_and_sampled() {
    assert_eq!(render_texture_usage(), 5);
}
