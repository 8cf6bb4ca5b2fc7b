//! A scene: the primitives of one frame and the order in which they are drawn.

use crate::commands::AtlasTextureId;
use crate::geometry::{
    bounds_words, push_bounds, push_words, words_bytes, Bounds, ContentMask, Point, ScaledPixels,
};
use vstd::prelude::*;

verus! {

/// The code of a single-plane pixel format with eight bits for each of blue, green, red and alpha:
/// the characters `BGRA`.
pub const PIXEL_FORMAT_32BGRA: u32 = 0x4247_5241;

/// The code of the two-plane, full-range YUV format with halved chroma: the characters `420f`.
pub const PIXEL_FORMAT_420_BIPLANAR_FULL_RANGE: u32 = 0x3432_3066;

/// The bytes of a [`SurfaceBounds`] in memory.
pub const SURFACE_BOUNDS_BYTES: usize = 32;

/// A run of primitives, from `start` up to `end`.
#[derive(Clone, Copy, Debug, PartialEq, Eq)]
pub struct Span {
    pub start: usize,
    pub end: usize,
}

impl Span {
    /// Whether the run lies among `len` primitives.
    pub open spec fn within(self, len: nat) -> bool {
        self.start <= self.end <= len
    }

    /// The number of primitives in the run.
    pub open spec fn count(self) -> int {
        self.end - self.start
    }

    fn is_within(&self, len: usize) -> (r: bool)
        ensures
            r == self.within(len as nat),
    {
        self.start <= self.end && self.end <= len
    }
}

/// Primitives of one kind as they lie in memory: `count` of them, each of `stride` bytes.
#[derive(Debug, PartialEq, Eq)]
pub struct Instances {
    pub count: usize,
    pub stride: usize,
    pub bytes: Vec<u8>,
}

impl Instances {
    /// The bytes are those of `count` primitives.
    pub open spec fn wf(self) -> bool {
        self.bytes@.len() == self.count * self.stride
    }

    /// The bytes of a run of primitives.
    pub open spec fn run(self, span: Span) -> Seq<u8> {
        self.bytes@.subrange(span.start * self.stride, span.end * self.stride)
    }

    /// No primitives.
    pub fn empty() -> (r: Self)
        ensures
            r.wf(),
            r.count == 0,
            r.stride == 0,
            r.bytes@ == Seq::<u8>::empty(),
    {
        Instances { count: 0, stride: 0, bytes: Vec::new() }
    }

    /// Copies the bytes of a run of primitives.
    pub fn copy_run(&self, span: Span) -> (bytes: Vec<u8>)
        requires
            self.wf(),
            span.within(self.count as nat),
        ensures
            bytes@ == self.run(span),
            bytes@.len() == span.count() * self.stride,
    {
        let total: usize = self.bytes.len();
        proof {
            lemma_run_in_bounds(
                span.start as int,
                span.end as int,
                self.count as int,
                self.stride as int,
            );
            assert(span.end * self.stride <= total);
        }
        let from: usize = span.start * self.stride;
        let to: usize = span.end * self.stride;
        let run: &[u8] = vstd::slice::slice_subrange(self.bytes.as_slice(), from, to);
        vstd::slice::slice_to_vec(run)
    }
}

proof fn lemma_run_in_bounds(start: int, end: int, count: int, stride: int)
    requires
        0 <= start <= end <= count,
        0 <= stride,
    ensures
        0 <= start * stride <= end * stride <= count * stride,
        end * stride - start * stride == (end - start) * stride,
{
    assert(0 <= start * stride <= end * stride <= count * stride && end * stride - start * stride
        == (end - start) * stride) by (nonlinear_arith)
        requires
            0 <= start <= end <= count,
            0 <= stride,
    ;
}

/// The fill of a path, as the 32-bit words that it takes in memory.
#[derive(Debug, PartialEq, Eq)]
pub struct Background {
    pub words: Vec<u32>,
}

/// A vertex of a path. `st_position` holds the bit patterns of its coordinates.
#[derive(Clone, Copy, Debug, PartialEq, Eq)]
pub struct PathVertex {
    pub xy_position: Point<ScaledPixels>,
    pub st_position: Point<u32>,
}

/// A filled path.
#[derive(Debug, PartialEq, Eq)]
pub struct Path {
    pub order: u32,
    pub vertices: Vec<PathVertex>,
    pub color: Background,
    /// The bounds of the path, intersected with its content mask.
    pub clipped_bounds: Bounds<ScaledPixels>,
}

/// A vertex of a path as the path rasterization pipeline reads it.
#[derive(Clone, Copy, Debug, PartialEq, Eq)]
pub struct PathRasterizationVertex<'a> {
    pub xy_position: Point<ScaledPixels>,
    pub st_position: Point<u32>,
    pub color: &'a Background,
    pub bounds: Bounds<ScaledPixels>,
}

impl<'a> PathRasterizationVertex<'a> {
    /// The words of the vertex in memory.
    pub open spec fn words(self) -> Seq<u32> {
        seq![
            self.xy_position.x.0,
            self.xy_position.y.0,
            self.st_position.x,
            self.st_position.y,
        ] + self.color.words@ + bounds_words(self.bounds)
    }

    /// Writes the vertex behind `out`.
    pub fn push_to(&self, out: &mut Vec<u8>)
        ensures
            final(out)@ == old(out)@ + words_bytes(self.words()),
    {
        let positions: [u32; 4] = [
            self.xy_position.x.0,
            self.xy_position.y.0,
            self.st_position.x,
            self.st_position.y,
        ];
        push_words(out, &positions);
        push_words(out, self.color.words.as_slice());
        push_bounds(out, self.bounds);
        proof {
            let head = seq![
                self.xy_position.x.0,
                self.xy_position.y.0,
                self.st_position.x,
                self.st_position.y,
            ];
            assert(positions@ == head);
            crate::geometry::lemma_words_bytes_concat(head, self.color.words@);
            crate::geometry::lemma_words_bytes_concat(
                head + self.color.words@,
                bounds_words(self.bounds),
            );
        }
    }
}

impl Path {
    /// Vertex `i` as the path rasterization pipeline reads it.
    pub open spec fn rasterization_vertex(self, i: int) -> PathRasterizationVertex<'static> {
        PathRasterizationVertex {
            xy_position: self.vertices@[i].xy_position,
            st_position: self.vertices@[i].st_position,
            color: &self.color,
            bounds: self.clipped_bounds,
        }
    }

    /// The bytes of the first `n` vertices.
    pub open spec fn vertex_bytes(self, n: int) -> Seq<u8>
        decreases n,
    {
        if n <= 0 {
            Seq::empty()
        } else {
            self.vertex_bytes(n - 1) + words_bytes(self.rasterization_vertex(n - 1).words())
        }
    }

    /// Writes the vertices of the path behind `out`.
    pub fn push_vertices(&self, out: &mut Vec<u8>)
        ensures
            final(out)@ == old(out)@ + self.vertex_bytes(self.vertices@.len() as int),
    {
        let mut i: usize = 0;
        while i < self.vertices.len()
            invariant
                i <= self.vertices@.len(),
                out@ == old(out)@ + self.vertex_bytes(i as int),
            decreases self.vertices.len() - i,
        {
            let vertex = PathRasterizationVertex {
                xy_position: self.vertices[i].xy_position,
                st_position: self.vertices[i].st_position,
                color: &self.color,
                bounds: self.clipped_bounds,
            };
            vertex.push_to(out);
            i += 1;
        }
    }
}

/// The bytes of the vertices of the paths `start..end`, one path behind the other.
pub open spec fn path_vertex_bytes(paths: Seq<Path>, start: int, end: int) -> Seq<u8>
    decreases end - start,
{
    if end <= start {
        Seq::empty()
    } else {
        path_vertex_bytes(paths, start, end - 1) + paths[end - 1].vertex_bytes(
            paths[end - 1].vertices@.len() as int,
        )
    }
}

/// The number of vertices of the paths `start..end`.
pub open spec fn path_vertex_count(paths: Seq<Path>, start: int, end: int) -> int
    decreases end - start,
{
    if end <= start {
        0
    } else {
        path_vertex_count(paths, start, end - 1) + paths[end - 1].vertices@.len()
    }
}

/// Every vertex takes up bytes, so there are no more vertices than bytes.
pub proof fn lemma_path_vertex_count_bounded(paths: Seq<Path>, start: int, end: int)
    ensures
        0 <= path_vertex_count(paths, start, end) <= path_vertex_bytes(paths, start, end).len(),
    decreases end - start,
{
    if end > start {
        lemma_path_vertex_count_bounded(paths, start, end - 1);
        lemma_vertex_count_bounded(paths[end - 1], paths[end - 1].vertices@.len() as int);
    }
}

proof fn lemma_vertex_count_bounded(path: Path, n: int)
    ensures
        n <= path.vertex_bytes(n).len(),
    decreases n,
{
    if n > 0 {
        lemma_vertex_count_bounded(path, n - 1);
        crate::geometry::lemma_words_bytes_len(path.rasterization_vertex(n - 1).words());
    }
}

/// The bytes of a path vertex whose fill takes up the given number of words.
pub open spec fn path_vertex_stride(fill_words: nat) -> int {
    4 * (8 + fill_words as int)
}

proof fn lemma_vertex_bytes_len(path: Path, n: int)
    requires
        0 <= n,
    ensures
        path.vertex_bytes(n).len() == n * path_vertex_stride(path.color.words@.len()),
    decreases n,
{
    let stride = path_vertex_stride(path.color.words@.len());
    if n > 0 {
        lemma_vertex_bytes_len(path, n - 1);
        crate::geometry::lemma_words_bytes_len(path.rasterization_vertex(n - 1).words());
        assert((n - 1) * stride + stride == n * stride) by (nonlinear_arith);
    } else {
        assert(n * stride == 0) by (nonlinear_arith)
            requires
                n == 0,
        ;
    }
}

/// Where the fills of the paths `start..end` take up the same number of words, all their vertices
/// take up the same number of bytes: together, as many times that as there are vertices.
pub proof fn path_vertices_have_one_stride(
    paths: Seq<Path>,
    start: int,
    end: int,
    fill_words: nat,
)
    requires
        forall|i: int|
            start <= i < end ==> (#[trigger] paths[i]).color.words@.len() == fill_words,
    ensures
        path_vertex_bytes(paths, start, end).len() == path_vertex_count(paths, start, end)
            * path_vertex_stride(fill_words),
    decreases end - start,
{
    let stride = path_vertex_stride(fill_words);
    if end > start {
        path_vertices_have_one_stride(paths, start, end - 1, fill_words);
        let n = paths[end - 1].vertices@.len() as int;
        let before = path_vertex_count(paths, start, end - 1);
        lemma_vertex_bytes_len(paths[end - 1], n);
        assert(before * stride + n * stride == (before + n) * stride) by (nonlinear_arith);
    } else {
        assert(path_vertex_count(paths, start, end) * stride == 0) by (nonlinear_arith)
            requires
                path_vertex_count(paths, start, end) == 0,
        ;
    }
}

/// A rectangle of the path picture that is copied to the target.
#[derive(Clone, Copy, Debug, PartialEq, Eq)]
pub struct PathSprite {
    pub bounds: Bounds<ScaledPixels>,
}

impl PathSprite {
    /// The words of the sprite in memory.
    pub open spec fn words(self) -> Seq<u32> {
        bounds_words(self.bounds)
    }

    /// Writes the sprite behind `out`.
    pub fn push_to(&self, out: &mut Vec<u8>)
        ensures
            final(out)@ == old(out)@ + words_bytes(self.words()),
    {
        push_bounds(out, self.bounds);
    }
}

/// The placement of a painted surface.
#[derive(Clone, Copy, Debug, PartialEq, Eq)]
pub struct SurfaceBounds {
    pub bounds: Bounds<ScaledPixels>,
    pub content_mask: ContentMask<ScaledPixels>,
}

impl SurfaceBounds {
    /// The words of the placement in memory.
    pub open spec fn words(self) -> Seq<u32> {
        bounds_words(self.bounds) + bounds_words(self.content_mask.bounds)
    }

    /// The bytes of the placement in memory.
    pub fn to_bytes(&self) -> (bytes: Vec<u8>)
        ensures
            bytes@ == words_bytes(self.words()),
            bytes@.len() == SURFACE_BOUNDS_BYTES,
    {
        let mut bytes: Vec<u8> = Vec::new();
        push_bounds(&mut bytes, self.bounds);
        push_bounds(&mut bytes, self.content_mask.bounds);
        proof {
            crate::geometry::lemma_words_bytes_concat(
                bounds_words(self.bounds),
                bounds_words(self.content_mask.bounds),
            );
            crate::geometry::lemma_words_bytes_len(self.words());
            assert(bytes@ =~= words_bytes(self.words()));
        }
        bytes
    }
}

/// The extent of one plane of an image buffer, in pixels.
#[derive(Clone, Copy, Debug, PartialEq, Eq)]
pub struct PlaneSize {
    pub width: usize,
    pub height: usize,
}

/// What the renderer reads of the image buffer of a surface.
#[derive(Clone, Copy, Debug, PartialEq, Eq)]
pub struct ImageBuffer {
    pub pixel_format: u32,
    pub width: usize,
    pub height: usize,
    /// The extent of plane zero.
    pub luma: PlaneSize,
    /// The extent of plane one.
    pub chroma: PlaneSize,
}

/// A surface painted into the scene.
#[derive(Clone, Copy, Debug, PartialEq, Eq)]
pub struct PaintSurface {
    pub bounds: Bounds<ScaledPixels>,
    pub content_mask: ContentMask<ScaledPixels>,
    pub image_buffer: ImageBuffer,
}

impl PaintSurface {
    /// One of the surface pipelines can sample the image buffer.
    pub open spec fn supported(self) -> bool {
        self.image_buffer.pixel_format == PIXEL_FORMAT_32BGRA || self.image_buffer.pixel_format
            == PIXEL_FORMAT_420_BIPLANAR_FULL_RANGE
    }

    fn is_supported(&self) -> (r: bool)
        ensures
            r == self.supported(),
    {
        self.image_buffer.pixel_format == PIXEL_FORMAT_32BGRA || self.image_buffer.pixel_format
            == PIXEL_FORMAT_420_BIPLANAR_FULL_RANGE
    }
}

/// A rectangle filled by a fragment shader that the scene brings along as Metal source.
#[derive(Debug, PartialEq, Eq)]
pub struct ShaderPass {
    pub bounds: Bounds<ScaledPixels>,
    /// Names the shader: two passes with one identifier share a pipeline.
    pub shader_id: u64,
    pub msl: String,
    pub fragment_entry: String,
    /// The packed uniform block of the fragment function.
    pub uniforms: Vec<u8>,
    /// Whether the shader reads what was drawn before it.
    pub samples_scene: bool,
}

/// A texture of the sprite atlas with its extent.
#[derive(Clone, Copy, Debug, PartialEq, Eq)]
pub struct AtlasTexture {
    pub id: AtlasTextureId,
    pub width: u64,
    pub height: u64,
}

/// Primitives of one kind that are drawn together.
#[derive(Clone, Copy, Debug, PartialEq, Eq)]
pub enum PrimitiveBatch {
    Shadows(Span),
    BackdropBlurs(Span),
    Quads(Span),
    Paths {
        range: Span,
        /// The least rectangle around the clipped bounds of the paths.
        spanning_bounds: Bounds<ScaledPixels>,
    },
    Underlines(Span),
    MonochromeSprites { texture: AtlasTexture, range: Span },
    PolychromeSprites { texture: AtlasTexture, range: Span },
    /// This renderer does not draw subpixel text.
    SubpixelSprites { texture: AtlasTexture, range: Span },
    Surfaces(Span),
    ShaderPasses(Span),
}

/// The primitives of one frame, and the batches in drawing order.
#[derive(Debug, PartialEq, Eq)]
pub struct Scene {
    pub shadows: Instances,
    pub backdrop_blurs: Instances,
    pub quads: Instances,
    pub paths: Vec<Path>,
    pub underlines: Instances,
    pub monochrome_sprites: Instances,
    pub polychrome_sprites: Instances,
    pub surfaces: Vec<PaintSurface>,
    /// How many bytes of the instance buffer one surface takes up.
    pub surface_stride: usize,
    pub shader_passes: Vec<ShaderPass>,
    pub batches: Vec<PrimitiveBatch>,
}

impl Scene {
    /// The batch speaks of primitives that the scene has and that the renderer can draw.
    pub open spec fn batch_wf(self, batch: PrimitiveBatch) -> bool {
        match batch {
            PrimitiveBatch::Shadows(range) => range.within(self.shadows.count as nat),
            PrimitiveBatch::BackdropBlurs(range) => range.within(self.backdrop_blurs.count as nat),
            PrimitiveBatch::Quads(range) => range.within(self.quads.count as nat),
            PrimitiveBatch::Paths { range, .. } => range.within(self.paths@.len()),
            PrimitiveBatch::Underlines(range) => range.within(self.underlines.count as nat),
            PrimitiveBatch::MonochromeSprites { range, .. } => range.within(
                self.monochrome_sprites.count as nat,
            ),
            PrimitiveBatch::PolychromeSprites { range, .. } => range.within(
                self.polychrome_sprites.count as nat,
            ),
            PrimitiveBatch::SubpixelSprites { .. } => false,
            PrimitiveBatch::Surfaces(range) => {
                &&& range.within(self.surfaces@.len())
                &&& forall|i: int|
                    range.start <= i < range.end ==> (#[trigger] self.surfaces@[i]).supported()
            },
            PrimitiveBatch::ShaderPasses(range) => range.within(self.shader_passes@.len()),
        }
    }

    /// Every run of bytes has the length that it claims, and every batch can be drawn.
    pub open spec fn wf(self) -> bool {
        &&& self.shadows.wf()
        &&& self.backdrop_blurs.wf()
        &&& self.quads.wf()
        &&& self.underlines.wf()
        &&& self.monochrome_sprites.wf()
        &&& self.polychrome_sprites.wf()
        &&& self.surface_stride >= SURFACE_BOUNDS_BYTES
        &&& forall|i: int|
            0 <= i < self.batches@.len() ==> self.batch_wf(#[trigger] self.batches@[i])
    }

    /// An empty scene whose surfaces take up `surface_stride` bytes each.
    pub fn new(surface_stride: usize) -> (scene: Self)
        requires
            surface_stride >= SURFACE_BOUNDS_BYTES,
        ensures
            scene.wf(),
            scene.batches@.len() == 0,
            scene.surface_stride == surface_stride,
            scene.shadows.count == 0,
            scene.backdrop_blurs.count == 0,
            scene.quads.count == 0,
            scene.paths@.len() == 0,
            scene.underlines.count == 0,
            scene.monochrome_sprites.count == 0,
            scene.polychrome_sprites.count == 0,
            scene.surfaces@.len() == 0,
            scene.shader_passes@.len() == 0,
    {
        Scene {
            shadows: Instances::empty(),
            backdrop_blurs: Instances::empty(),
            quads: Instances::empty(),
            paths: Vec::new(),
            underlines: Instances::empty(),
            monochrome_sprites: Instances::empty(),
            polychrome_sprites: Instances::empty(),
            surfaces: Vec::new(),
            surface_stride,
            shader_passes: Vec::new(),
            batches: Vec::new(),
        }
    }

    fn batch_is_wf(&self, batch: PrimitiveBatch) -> (r: bool)
        ensures
            r == self.batch_wf(batch),
    {
        match batch {
            PrimitiveBatch::Shadows(range) => range.is_within(self.shadows.count),
            PrimitiveBatch::BackdropBlurs(range) => range.is_within(self.backdrop_blurs.count),
            PrimitiveBatch::Quads(range) => range.is_within(self.quads.count),
            PrimitiveBatch::Paths { range, .. } => range.is_within(self.paths.len()),
            PrimitiveBatch::Underlines(range) => range.is_within(self.underlines.count),
            PrimitiveBatch::MonochromeSprites { range, .. } => range.is_within(
                self.monochrome_sprites.count,
            ),
            PrimitiveBatch::PolychromeSprites { range, .. } => range.is_within(
                self.polychrome_sprites.count,
            ),
            PrimitiveBatch::SubpixelSprites { .. } => false,
            PrimitiveBatch::Surfaces(range) => {
                if !range.is_within(self.surfaces.len()) {
                    return false;
                }
                let mut i: usize = range.start;
                while i < range.end
                    invariant
                        batch == PrimitiveBatch::Surfaces(range),
                        range.start <= i <= range.end <= self.surfaces@.len(),
                        forall|j: int|
                            range.start <= j < i ==> (#[trigger] self.surfaces@[j]).supported(),
                    decreases range.end - i,
                {
                    if !self.surfaces[i].is_supported() {
                        return false;
                    }
                    i += 1;
                }
                true
            },
            PrimitiveBatch::ShaderPasses(range) => range.is_within(self.shader_passes.len()),
        }
    }

    /// Whether the scene can be drawn: every run of bytes has the length that it claims, and every
    /// batch speaks of primitives that are there and that the renderer draws.
    pub fn is_wf(&self) -> (r: bool)
        ensures
            r == self.wf(),
    {
        if !(instances_are_wf(&self.shadows) && instances_are_wf(&self.backdrop_blurs)
            && instances_are_wf(&self.quads) && instances_are_wf(&self.underlines)
            && instances_are_wf(&self.monochrome_sprites) && instances_are_wf(
            &self.polychrome_sprites,
        ) && self.surface_stride >= SURFACE_BOUNDS_BYTES) {
            return false;
        }
        let mut i: usize = 0;
        while i < self.batches.len()
            invariant
                i <= self.batches@.len(),
                forall|j: int| 0 <= j < i ==> self.batch_wf(#[trigger] self.batches@[j]),
            decreases self.batches.len() - i,
        {
            if !self.batch_is_wf(self.batches[i]) {
                return false;
            }
            i += 1;
        }
        true
    }

    /// The counts that are reported when the scene does not fit into its instance buffer.
    pub open spec fn counts(self) -> SceneTooLarge {
        SceneTooLarge {
            paths: self.paths@.len() as usize,
            shadows: self.shadows.count,
            quads: self.quads.count,
            underlines: self.underlines.count,
            monochrome_sprites: self.monochrome_sprites.count,
            polychrome_sprites: self.polychrome_sprites.count,
            surfaces: self.surfaces@.len() as usize,
        }
    }

    /// The counts that are reported when the scene does not fit into its instance buffer.
    pub fn too_large(&self) -> (r: SceneTooLarge)
        ensures
            r == self.counts(),
    {
        SceneTooLarge {
            paths: self.paths.len(),
            shadows: self.shadows.count,
            quads: self.quads.count,
            underlines: self.underlines.count,
            monochrome_sprites: self.monochrome_sprites.count,
            polychrome_sprites: self.polychrome_sprites.count,
            surfaces: self.surfaces.len(),
        }
    }
}

fn instances_are_wf(instances: &Instances) -> (r: bool)
    ensures
        r == instances.wf(),
{
    let len: usize = instances.bytes.len();
    match instances.count.checked_mul(instances.stride) {
        Some(total) => total == len,
        None => false,
    }
}

/// A scene whose primitives do not fit into the instance buffer, with the number of each kind.
#[derive(Clone, Copy, Debug, PartialEq, Eq)]
pub struct SceneTooLarge {
    pub paths: usize,
    pub shadows: usize,
    pub quads: usize,
    pub underlines: usize,
    pub monochrome_sprites: usize,
    pub polychrome_sprites: usize,
    pub surfaces: usize,
}

/// A scene can be drawn exactly if every kind of primitive has the bytes that its count and its
/// stride ask for, there is room for the placement of a surface, and every batch is a run of
/// primitives that are there, of a kind that is drawn, with image buffers of one of two formats.
pub proof fn scenes_are_drawn_if_they_are_sound(scene: Scene)
    ensures
        scene.wf() <==> {
            &&& scene.shadows.bytes@.len() == scene.shadows.count * scene.shadows.stride
            &&& scene.backdrop_blurs.bytes@.len() == scene.backdrop_blurs.count
                * scene.backdrop_blurs.stride
            &&& scene.quads.bytes@.len() == scene.quads.count * scene.quads.stride
            &&& scene.underlines.bytes@.len() == scene.underlines.count * scene.underlines.stride
            &&& scene.monochrome_sprites.bytes@.len() == scene.monochrome_sprites.count
                * scene.monochrome_sprites.stride
            &&& scene.polychrome_sprites.bytes@.len() == scene.polychrome_sprites.count
                * scene.polychrome_sprites.stride
            &&& 32 <= scene.surface_stride
            &&& forall|b: int|
                0 <= b < scene.batches@.len() ==> match #[trigger] scene.batches@[b] {
                    PrimitiveBatch::Shadows(range) => range.start <= range.end
                        <= scene.shadows.count,
                    PrimitiveBatch::BackdropBlurs(range) => range.start <= range.end
                        <= scene.backdrop_blurs.count,
                    PrimitiveBatch::Quads(range) => range.start <= range.end <= scene.quads.count,
                    PrimitiveBatch::Paths { range, .. } => range.start <= range.end
                        <= scene.paths@.len(),
                    PrimitiveBatch::Underlines(range) => range.start <= range.end
                        <= scene.underlines.count,
                    PrimitiveBatch::MonochromeSprites { range, .. } => range.start <= range.end
                        <= scene.monochrome_sprites.count,
                    PrimitiveBatch::PolychromeSprites { range, .. } => range.start <= range.end
                        <= scene.polychrome_sprites.count,
                    PrimitiveBatch::SubpixelSprites { .. } => false,
                    PrimitiveBatch::Surfaces(range) => {
                        &&& range.start <= range.end <= scene.surfaces@.len()
                        &&& forall|i: int|
                            range.start <= i < range.end ==> {
                                let format = (
                                #[trigger] scene.surfaces@[i]).image_buffer.pixel_format;
                                format == 0x4247_5241 || format == 0x3432_3066
                            }
                    },
                    PrimitiveBatch::ShaderPasses(range) => range.start <= range.end
                        <= scene.shader_passes@.len(),
                }
        },
{
    if scene.wf() {
        assert forall|b: int| 0 <= b < scene.batches@.len() implies scene.batch_wf(
            #[trigger] scene.batches@[b],
        ) by {}
    }
}

/// What is reported of a scene that does not fit counts each kind of its primitives.
pub proof fn reports_count_the_primitives(scene: Scene)
    ensures
        scene.counts().paths == scene.paths@.len(),
        scene.counts().shadows == scene.shadows.count,
        scene.counts().quads == scene.quads.count,
        scene.counts().underlines == scene.underlines.count,
        scene.counts().monochrome_sprites == scene.monochrome_sprites.count,
        scene.counts().polychrome_sprites == scene.polychrome_sprites.count,
        scene.counts().surfaces == scene.surfaces@.len(),
{
    assert(scene.paths.len() == scene.paths@.len());
    assert(scene.surfaces.len() == scene.surfaces@.len());
}

} // verus!
