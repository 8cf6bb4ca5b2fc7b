//! Whole renderings on a device made of software. It runs the commands of a frame on the CPU, with
//! a layout of its own for quads: their bounds, then four bytes of color.

use scene_renderer::commands::{
    BufferSlot, Command, LoadAction, Pipeline, TextureSlot, VertexConstant,
};
use scene_renderer::descriptors::PixelFormat;
use scene_renderer::device::DeviceInfo;
use scene_renderer::geometry::{
    point, size, Bounds, ContentMask, DevicePixels, ScaledPixels, Size,
};
use scene_renderer::pool::InstanceBufferPool;
use scene_renderer::readback::finish_image;
use scene_renderer::renderer::{MetalRenderer, RenderPlan, RenderTarget, SurfaceOutcome};
use scene_renderer::rendering::{Progress, SubmitStep, Submission};
use scene_renderer::scene::{
    ImageBuffer, Instances, PaintSurface, PlaneSize, PrimitiveBatch, Scene, ShaderPass, Span,
    PIXEL_FORMAT_32BGRA, PIXEL_FORMAT_420_BIPLANAR_FULL_RANGE,
};
use std::collections::HashMap;

const QUAD_BYTES: usize = 20;
const SURFACE_STRIDE: usize = 36;

/// Pixels in BGRA order, row by row.
#[derive(Clone)]
struct Pixels {
    width: usize,
    height: usize,
    bgra: Vec<[u8; 4]>,
}

impl Pixels {
    fn new(width: usize, height: usize) -> Self {
        Pixels { width, height, bgra: vec![[0; 4]; width * height] }
    }

    fn sample(&self, u: f32, v: f32) -> [u8; 4] {
        let x = ((u * self.width as f32) as usize).min(self.width - 1);
        let y = ((v * self.height as f32) as usize).min(self.height - 1);
        self.bgra[y * self.width + x]
    }
}

/// The image buffer of a painted surface.
#[derive(Clone)]
enum SurfaceImage {
    Bgra(Pixels),
    Yuv { luma: Vec<u8>, chroma: Vec<(u8, u8)>, width: usize, height: usize },
}

impl SurfaceImage {
    fn plane(&self, plane: usize, format: PixelFormat, u: f32, v: f32) -> [u8; 4] {
        let at = |w: usize, h: usize| {
            let x = ((u * w as f32) as usize).min(w - 1);
            let y = ((v * h as f32) as usize).min(h - 1);
            y * w + x
        };
        match (self, plane, format) {
            (SurfaceImage::Bgra(pixels), 0, PixelFormat::Bgra8Unorm) => pixels.sample(u, v),
            (SurfaceImage::Yuv { luma, width, height, .. }, 0, PixelFormat::R8Unorm) => {
                [luma[at(*width, *height)], 0, 0, 0]
            }
            (SurfaceImage::Yuv { chroma, width, height, .. }, 1, PixelFormat::Rg8Unorm) => {
                let (cb, cr) = chroma[at(*width / 2, *height / 2)];
                [cb, cr, 0, 0]
            }
            _ => panic!("plane {plane} has no format {format:?}"),
        }
    }
}

type Fragment = fn(&[u8], &dyn Fn(f32, f32) -> [u8; 4], f32, f32) -> [u8; 4];

/// The device: its buffers, the shaders that it can compile, and the surfaces of the scene.
struct Device {
    buffers: Vec<Vec<u8>>,
    fragments: Vec<Fragment>,
    surfaces: Vec<SurfaceImage>,
    compiled: usize,
}

fn float(bytes: &[u8], at: usize) -> f32 {
    f32::from_le_bytes([bytes[at], bytes[at + 1], bytes[at + 2], bytes[at + 3]])
}

fn rectangle(bytes: &[u8], at: usize) -> [f32; 4] {
    [float(bytes, at), float(bytes, at + 4), float(bytes, at + 8), float(bytes, at + 12)]
}

fn rectangle_of(bounds: Bounds<ScaledPixels>) -> [f32; 4] {
    [
        f32::from_bits(bounds.origin.x.0),
        f32::from_bits(bounds.origin.y.0),
        f32::from_bits(bounds.size.width.0),
        f32::from_bits(bounds.size.height.0),
    ]
}

/// Every pixel whose center lies in a rectangle, with its place in it from zero to one.
fn covered(target: &Pixels, [x, y, w, h]: [f32; 4]) -> Vec<(usize, usize, f32, f32)> {
    let mut pixels = Vec::new();
    for row in 0..target.height {
        for column in 0..target.width {
            let u = (column as f32 + 0.5 - x) / w;
            let v = (row as f32 + 0.5 - y) / h;
            if (0.0..1.0).contains(&u) && (0.0..1.0).contains(&v) {
                pixels.push((column, row, u, v));
            }
        }
    }
    pixels
}

fn luma_chroma_to_bgra(y: u8, cb: u8, cr: u8) -> [u8; 4] {
    let (y, cb, cr) = (y as f32, cb as f32 - 128.0, cr as f32 - 128.0);
    let channel = |value: f32| value.round().clamp(0.0, 255.0) as u8;
    [
        channel(y + 1.772 * cb),
        channel(y - 0.344 * cb - 0.714 * cr),
        channel(y + 1.402 * cr),
        255,
    ]
}

/// What is bound in an open render pass.
#[derive(Default)]
struct Bindings {
    pipeline: Option<Pipeline>,
    instances: HashMap<u64, usize>,
    bounds: Option<Bounds<ScaledPixels>>,
    uniforms: Vec<u8>,
    textures: HashMap<u64, TextureSlot>,
}

impl Device {
    fn new() -> Self {
        Device { buffers: vec![], fragments: vec![], surfaces: vec![], compiled: 0 }
    }

    /// Runs the commands of a submission and returns the target. The CPU has written all
    /// instances before the GPU starts.
    fn run(&mut self, submission: &Submission<usize>, width: usize, height: usize) -> Pixels {
        let memory = &mut self.buffers[submission.buffer.metal_buffer];
        for command in &submission.commands.commands {
            if let Command::WriteInstances { offset, bytes } = command {
                memory[*offset..*offset + bytes.len()].copy_from_slice(bytes);
            }
        }
        let mut target = Pixels::new(width, height);
        let mut backdrop = Pixels::new(width, height);
        let mut color = None;
        let mut bound = Bindings::default();
        for command in &submission.commands.commands {
            match command {
                Command::BeginPass(pass) => {
                    assert!(color.is_none());
                    color = Some(pass.color);
                    bound = Bindings::default();
                    if let LoadAction::Clear { opaque } = pass.load {
                        let alpha = if opaque { 255 } else { 0 };
                        assert_eq!(pass.color, TextureSlot::Target);
                        target.bgra.fill([0, 0, 0, alpha]);
                    }
                }
                Command::EndEncoding => assert!(color.take().is_some()),
                Command::CopyTargetToBackdrop { .. } => backdrop = target.clone(),
                Command::SetPipeline(pipeline) => bound.pipeline = Some(*pipeline),
                Command::SetVertexBuffer { index, buffer, offset } => {
                    if *buffer == BufferSlot::Instances {
                        bound.instances.insert(*index, *offset as usize);
                    }
                }
                Command::SetVertexBytes { value, .. } => {
                    if let VertexConstant::Bounds(bounds) = value {
                        bound.bounds = Some(*bounds);
                    }
                }
                Command::SetFragmentBytes { bytes, .. } => bound.uniforms = bytes.clone(),
                Command::SetFragmentTexture { index, texture } => {
                    bound.textures.insert(*index, *texture);
                }
                Command::DrawInstanced { vertex_count, instance_count } => {
                    assert_eq!(*vertex_count, 6);
                    assert_eq!(bound.pipeline, Some(Pipeline::Quads));
                    let start = bound.instances[&1];
                    for i in 0..*instance_count as usize {
                        let quad = &self.buffers[submission.buffer.metal_buffer]
                            [start + i * QUAD_BYTES..start + (i + 1) * QUAD_BYTES];
                        let fill = [quad[16], quad[17], quad[18], quad[19]];
                        for (x, y, ..) in covered(&target, rectangle(quad, 0)) {
                            target.bgra[y * width + x] = fill;
                        }
                    }
                }
                Command::Draw { vertex_count } => {
                    assert_eq!(*vertex_count, 6);
                    self.draw(submission, &bound, color.unwrap(), &mut target, &mut backdrop);
                }
                _ => {}
            }
        }
        assert!(color.is_none());
        target
    }

    fn draw(
        &self,
        submission: &Submission<usize>,
        bound: &Bindings,
        color: TextureSlot,
        target: &mut Pixels,
        backdrop: &mut Pixels,
    ) {
        match bound.pipeline.unwrap() {
            Pipeline::SceneFlip => {
                assert_eq!(color, TextureSlot::Backdrop);
                assert_eq!(bound.textures[&0], TextureSlot::Target);
                for row in 0..target.height {
                    let from = (target.height - 1 - row) * target.width;
                    let line = target.bgra[from..from + target.width].to_vec();
                    backdrop.bgra[row * target.width..(row + 1) * target.width]
                        .copy_from_slice(&line);
                }
            }
            Pipeline::ShaderPass(handle) => {
                assert_eq!(color, TextureSlot::Target);
                let fragment = self.fragments[handle as usize];
                let scene = backdrop.clone();
                let sample = |u: f32, v: f32| scene.sample(u, v);
                for (x, y, ..) in covered(target, rectangle_of(bound.bounds.unwrap())) {
                    target.bgra[y * target.width + x] =
                        fragment(&bound.uniforms, &sample, x as f32 + 0.5, y as f32 + 0.5);
                }
            }
            pipeline => {
                assert_eq!(color, TextureSlot::Target);
                let memory = &self.buffers[submission.buffer.metal_buffer];
                let start = bound.instances[&1];
                let plane = |index: u64, u: f32, v: f32| match bound.textures[&index] {
                    TextureSlot::Surface(plane) => {
                        self.surfaces[plane.surface].plane(plane.plane, plane.pixel_format, u, v)
                    }
                    texture => panic!("{texture:?} is no surface"),
                };
                for (x, y, u, v) in covered(target, rectangle(memory, start)) {
                    target.bgra[y * target.width + x] = match pipeline {
                        Pipeline::SurfacesBgra => plane(4, u, v),
                        Pipeline::Surfaces => {
                            let chroma = plane(5, u, v);
                            luma_chroma_to_bgra(plane(4, u, v)[0], chroma[0], chroma[1])
                        }
                        other => panic!("{other:?} draws no surface"),
                    };
                }
            }
        }
    }

    /// Provides whatever a rendering needs, up to its submission.
    fn render(
        &mut self,
        renderer: &mut MetalRenderer,
        pool: &mut InstanceBufferPool<usize>,
        plan: RenderPlan,
        scene: &Scene,
        fragments: &HashMap<&str, Fragment>,
    ) -> Submission<usize> {
        assert!(scene.is_wf());
        let mut progress = plan.acquire(pool);
        loop {
            progress = match progress {
                Progress::AllocateBuffer(request) => {
                    self.buffers.push(vec![0; request.allocation.size]);
                    request.provide(self.buffers.len() - 1)
                }
                Progress::Encode(ready) => renderer.draw_primitives_to_texture(ready, scene),
                Progress::CompileShader(request) => {
                    let pass = &scene.shader_passes[request.pass];
                    self.compiled += 1;
                    let pipeline = fragments.get(pass.fragment_entry.as_str()).map(|fragment| {
                        self.fragments.push(*fragment);
                        self.fragments.len() as u64 - 1
                    });
                    renderer.provide_pipeline(request, scene, pipeline)
                }
                Progress::Retry(request) => request.retry(pool),
                Progress::Submit(submission) => return submission,
                Progress::Failed(error) => panic!("{error:?}"),
            };
        }
    }

    /// Reads the target of a plan back as an image.
    fn read_back(&self, plan: RenderPlan, target: &Pixels) -> image::RgbaImage {
        let readback = plan.readback(None).unwrap();
        assert_eq!(readback.width as usize, target.width);
        assert_eq!(readback.height as usize, target.height);
        let pixels: Vec<u8> = target.bgra.iter().flatten().copied().collect();
        assert_eq!(pixels.len(), readback.buffer_size);
        let image = finish_image(readback.width, readback.height, pixels).unwrap();
        image::RgbaImage::from_raw(image.width, image.height, image.pixels).unwrap()
    }
}

fn px_bounds(x: f32, y: f32, w: f32, h: f32) -> Bounds<ScaledPixels> {
    Bounds {
        origin: point(ScaledPixels(x.to_bits()), ScaledPixels(y.to_bits())),
        size: size(ScaledPixels(w.to_bits()), ScaledPixels(h.to_bits())),
    }
}

fn device_size(width: i32, height: i32) -> Size<DevicePixels> {
    size(DevicePixels(width), DevicePixels(height))
}

/// Hue, saturation, lightness and alpha, each from zero to one, as BGRA.
fn hsla(h: f32, s: f32, l: f32, a: f32) -> [u8; 4] {
    let chroma = (1.0 - (2.0 * l - 1.0).abs()) * s;
    let sector = h * 6.0;
    let x = chroma * (1.0 - (sector % 2.0 - 1.0).abs());
    let (r, g, b) = match sector as u32 {
        0 => (chroma, x, 0.0),
        1 => (x, chroma, 0.0),
        2 => (0.0, chroma, x),
        3 => (0.0, x, chroma),
        4 => (x, 0.0, chroma),
        _ => (chroma, 0.0, x),
    };
    let m = l - chroma / 2.0;
    let channel = |value: f32| (value * 255.0).round() as u8;
    [channel(b + m), channel(g + m), channel(r + m), channel(a)]
}

fn solid_quad(quads: &mut Instances, b: Bounds<ScaledPixels>, color: [u8; 4]) {
    quads.stride = QUAD_BYTES;
    quads.count += 1;
    for value in rectangle_of(b) {
        quads.bytes.extend_from_slice(&value.to_le_bytes());
    }
    quads.bytes.extend_from_slice(&color);
}

fn headless() -> (MetalRenderer, InstanceBufferPool<usize>) {
    let device = DeviceInfo {
        is_removable: false,
        is_low_power: true,
        has_unified_memory: true,
        supports_apple1: true,
    };
    (MetalRenderer::new_headless(&device), InstanceBufferPool::default())
}

/// The source frame is red on the left and blue on the right. Painted at half its size into a box,
/// the whole of it is there, with black around it.
#[test]
fn renders_scene_to_bgra_surface_then_paints_it_scaled_down() {
    let (mut renderer, mut pool) = headless();
    let mut device = Device::new();

    let frame = device_size(256, 256);
    let red = hsla(0.0, 1.0, 0.5, 1.0);
    let blue = hsla(240.0 / 360.0, 1.0, 0.5, 1.0);

    let mut source = Scene::new(SURFACE_STRIDE);
    solid_quad(&mut source.quads, px_bounds(0.0, 0.0, 128.0, 256.0), red);
    solid_quad(&mut source.quads, px_bounds(128.0, 0.0, 128.0, 256.0), blue);
    source.batches.push(PrimitiveBatch::Quads(Span { start: 0, end: 2 }));

    let plan = renderer
        .render_scene_to_surface(frame)
        .expect("render_scene_to_surface should produce a BGRA surface");
    let RenderTarget::Surface { pixel_format, width, height, .. } = plan.target else {
        panic!("{:?} is no surface", plan.target);
    };
    assert_eq!(pixel_format, PIXEL_FORMAT_32BGRA);
    assert_eq!(width, 256);
    assert_eq!(height, 256);
    let plan = plan.surface_made(SurfaceOutcome::Ready).unwrap();
    let submission = device.render(&mut renderer, &mut pool, plan, &source, &HashMap::new());
    assert!(!submission.steps.contains(&SubmitStep::ReadPixels));
    let surface = device.run(&submission, width, height);
    pool.release(submission.buffer);

    let box_bounds = px_bounds(64.0, 64.0, 128.0, 128.0);
    let mut composed = Scene::new(SURFACE_STRIDE);
    composed.surfaces.push(PaintSurface {
        bounds: box_bounds,
        content_mask: ContentMask { bounds: box_bounds },
        image_buffer: ImageBuffer {
            pixel_format,
            width,
            height,
            luma: PlaneSize { width: 0, height: 0 },
            chroma: PlaneSize { width: 0, height: 0 },
        },
    });
    composed.batches.push(PrimitiveBatch::Surfaces(Span { start: 0, end: 1 }));
    device.surfaces = vec![SurfaceImage::Bgra(surface)];

    let plan = renderer
        .render_scene_to_image(frame)
        .expect("render_scene_to_image should composite the painted surface");
    let submission = device.render(&mut renderer, &mut pool, plan, &composed, &HashMap::new());
    assert!(submission.steps.contains(&SubmitStep::ReadPixels));
    let target = device.run(&submission, 256, 256);
    let rendered = device.read_back(plan, &target);

    let is_red = |p: &image::Rgba<u8>| p.0[0] > 180 && p.0[1] < 80 && p.0[2] < 80;
    let is_blue = |p: &image::Rgba<u8>| p.0[2] > 180 && p.0[0] < 80 && p.0[1] < 80;
    let is_black = |p: &image::Rgba<u8>| p.0[0] < 40 && p.0[1] < 40 && p.0[2] < 40;

    let box_left = rendered.get_pixel(80, 128);
    let box_right = rendered.get_pixel(176, 128);
    assert!(
        is_red(box_left),
        "box-left should sample the frame's red half, got {box_left:?}"
    );
    assert!(
        is_blue(box_right),
        "box-right should sample the frame's blue half, got {box_right:?}"
    );

    let outside_tl = rendered.get_pixel(20, 20);
    let outside_br = rendered.get_pixel(236, 236);
    assert!(
        is_black(outside_tl),
        "top-left outside the box should be black, got {outside_tl:?}"
    );
    assert!(
        is_black(outside_br),
        "bottom-right outside the box should be black, got {outside_br:?}"
    );
}

/// `fragColor = 1.0 - texture(iChannel0, uv)`, with the origin of `fragCoord` at the lower left.
fn invert(
    uniforms: &[u8],
    scene: &dyn Fn(f32, f32) -> [u8; 4],
    position_x: f32,
    position_y: f32,
) -> [u8; 4] {
    let resolution = (float(uniforms, 0), float(uniforms, 4));
    let frag_coord = (position_x, resolution.1 - position_y);
    let [b, g, r, _] = scene(frag_coord.0 / resolution.0, frag_coord.1 / resolution.1);
    [255 - b, 255 - g, 255 - r, 255]
}

/// A pass that inverts the scene that it samples: a red over blue frame comes back cyan over
/// yellow. If the capture were not flipped the two would be swapped, and if the pass were skipped
/// the raw colors would show.
#[test]
fn scene_sampling_shader_pass_is_not_vertically_flipped() {
    let (mut renderer, mut pool) = headless();
    let mut device = Device::new();
    let frame = device_size(256, 256);

    let red = hsla(0.0, 1.0, 0.5, 1.0);
    let blue = hsla(240.0 / 360.0, 1.0, 0.5, 1.0);

    let mut scene = Scene::new(SURFACE_STRIDE);
    solid_quad(&mut scene.quads, px_bounds(0.0, 0.0, 256.0, 128.0), red);
    solid_quad(&mut scene.quads, px_bounds(0.0, 128.0, 256.0, 128.0), blue);
    scene.batches.push(PrimitiveBatch::Quads(Span { start: 0, end: 2 }));
    let full = px_bounds(0.0, 0.0, 256.0, 256.0);
    let mut uniforms = Vec::new();
    uniforms.extend_from_slice(&256.0f32.to_le_bytes());
    uniforms.extend_from_slice(&256.0f32.to_le_bytes());
    uniforms.extend_from_slice(&1.0f32.to_le_bytes());
    scene.shader_passes.push(ShaderPass {
        bounds: full,
        shader_id: 0xF11A,
        msl: String::from("fragment Out main_(...)"),
        fragment_entry: String::from("main_"),
        uniforms,
        samples_scene: true,
    });
    scene.batches.push(PrimitiveBatch::ShaderPasses(Span { start: 0, end: 1 }));

    let mut fragments: HashMap<&str, Fragment> = HashMap::new();
    fragments.insert("main_", invert);
    let plan = renderer
        .render_scene_to_image(frame)
        .expect("render_scene_to_image should composite the scene-sampling pass");
    let submission = device.render(&mut renderer, &mut pool, plan, &scene, &fragments);
    let target = device.run(&submission, 256, 256);
    let rendered = device.read_back(plan, &target);

    let is_cyan = |p: &image::Rgba<u8>| p.0[0] < 80 && p.0[1] > 180 && p.0[2] > 180;
    let is_yellow = |p: &image::Rgba<u8>| p.0[0] > 180 && p.0[1] > 180 && p.0[2] < 80;

    let top = rendered.get_pixel(128, 64);
    let bottom = rendered.get_pixel(128, 192);
    assert!(
        is_cyan(top),
        "top should be inverted red (cyan) with an upright scene capture, got {top:?}"
    );
    assert!(
        is_yellow(bottom),
        "bottom should be inverted blue (yellow) with an upright scene capture, got {bottom:?}"
    );

    // The shader is compiled once for all frames.
    let plan = renderer.render_scene_to_image(frame).unwrap();
    device.render(&mut renderer, &mut pool, plan, &scene, &fragments);
    assert_eq!(device.compiled, 1);
}

/// A surface in two planes with a known luma and a neutral chroma shows as a light gray box.
#[test]
fn paints_a_yuv_biplanar_surface_through_the_yuv_branch() {
    let (mut renderer, mut pool) = headless();
    let mut device = Device::new();

    let (w, h) = (64usize, 64usize);
    device.surfaces = vec![SurfaceImage::Yuv {
        luma: vec![180; w * h],
        chroma: vec![(128, 128); (w / 2) * (h / 2)],
        width: w,
        height: h,
    }];

    let frame = device_size(128, 128);
    let box_bounds = px_bounds(32.0, 32.0, 64.0, 64.0);
    let mut scene = Scene::new(SURFACE_STRIDE);
    scene.surfaces.push(PaintSurface {
        bounds: box_bounds,
        content_mask: ContentMask { bounds: box_bounds },
        image_buffer: ImageBuffer {
            pixel_format: PIXEL_FORMAT_420_BIPLANAR_FULL_RANGE,
            width: w,
            height: h,
            luma: PlaneSize { width: w, height: h },
            chroma: PlaneSize { width: w / 2, height: h / 2 },
        },
    });
    scene.batches.push(PrimitiveBatch::Surfaces(Span { start: 0, end: 1 }));

    let plan =
        renderer.render_scene_to_image(frame).expect("render the painted nv12 surface");
    let submission = device.render(&mut renderer, &mut pool, plan, &scene, &HashMap::new());
    let target = device.run(&submission, 128, 128);
    let rendered = device.read_back(plan, &target);

    let inside = rendered.get_pixel(64, 64);
    let [r, g, b, _] = inside.0;
    let lo = r.min(g).min(b);
    let hi = r.max(g).max(b);
    assert!(lo > 100, "box should be a light gray, got {inside:?}");
    assert!(
        hi - lo < 50,
        "box should be roughly neutral, got {inside:?}"
    );
    let outside = rendered.get_pixel(8, 8);
    assert!(
        outside.0[0] < 40 && outside.0[1] < 40 && outside.0[2] < 40,
        "outside the box should be black, got {outside:?}"
    );
}

/// A shader that does not compile is skipped: what is below it shows through, and it is tried
/// again in the next frame.
#[test]
fn a_broken_shader_leaves_the_scene_as_it_was() {
    let (mut renderer, mut pool) = headless();
    let mut device = Device::new();
    let frame = device_size(8, 8);
    let red = hsla(0.0, 1.0, 0.5, 1.0);
    let mut scene = Scene::new(SURFACE_STRIDE);
    solid_quad(&mut scene.quads, px_bounds(0.0, 0.0, 8.0, 8.0), red);
    scene.batches.push(PrimitiveBatch::Quads(Span { start: 0, end: 1 }));
    scene.shader_passes.push(ShaderPass {
        bounds: px_bounds(0.0, 0.0, 8.0, 8.0),
        shader_id: 9,
        msl: String::new(),
        fragment_entry: String::from("missing"),
        uniforms: vec![],
        samples_scene: false,
    });
    scene.batches.push(PrimitiveBatch::ShaderPasses(Span { start: 0, end: 1 }));
    for attempt in 1..3 {
        let plan = renderer.render_scene_to_image(frame).unwrap();
        let submission = device.render(&mut renderer, &mut pool, plan, &scene, &HashMap::new());
        let target = device.run(&submission, 8, 8);
        assert_eq!(device.read_back(plan, &target).get_pixel(4, 4).0, [255, 0, 0, 255]);
        assert_eq!(device.compiled, attempt);
    }
}

/// A scene that needs more than the first buffer is encoded anew in a larger one, and shows the
/// same.
#[test]
fn a_large_scene_is_drawn_after_the_buffers_grew() {
    let (mut renderer, mut pool) = headless();
    let mut device = Device::new();
    pool.reset(1024);
    let frame = device_size(16, 16);
    let blue = hsla(240.0 / 360.0, 1.0, 0.5, 1.0);
    let mut scene = Scene::new(SURFACE_STRIDE);
    for i in 0..100 {
        solid_quad(&mut scene.quads, px_bounds((i % 16) as f32, 0.0, 1.0, 16.0), blue);
    }
    scene.batches.push(PrimitiveBatch::Quads(Span { start: 0, end: 60 }));
    scene.batches.push(PrimitiveBatch::Quads(Span { start: 60, end: 100 }));
    let plan = renderer.render_scene_to_image(frame).unwrap();
    let submission = device.render(&mut renderer, &mut pool, plan, &scene, &HashMap::new());
    assert_eq!(pool.buffer_size, 4096);
    assert_eq!(submission.buffer.size, 4096);
    let target = device.run(&submission, 16, 16);
    let rendered = device.read_back(plan, &target);
    for x in 0..16 {
        assert_eq!(rendered.get_pixel(x, 7).0, [0, 0, 255, 255]);
    }
}
