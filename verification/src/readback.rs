//! Reading rendered pixels back from the GPU.

use crate::error::{Operation, RenderError};
use crate::geometry::{is_drawable, DevicePixels, Size};
use crate::renderer::{
    drawable_plan, image_plan, scene_plan, surface_plan, RenderPlan, RenderTarget, RendererModel,
};
use crate::rendering::{submissions_end_as_they_should, submit_steps, SubmitStep};
use crate::animation::{ImageModel, RgbaImage};
use vstd::prelude::*;

verus! {

/// The memory that takes up the pixels of a texture, row by row.
#[derive(Clone, Copy, Debug, PartialEq, Eq)]
pub struct Readback {
    pub width: u32,
    pub height: u32,
    pub bytes_per_row: usize,
    pub buffer_size: usize,
}

/// The bytes of the pixels of a texture fit into memory.
pub open spec fn readback_fits(width: u32, height: u32) -> bool {
    height * (width * 4) <= usize::MAX && width * 4 <= usize::MAX
}

/// The memory for a texture with four bytes for each pixel.
pub open spec fn readback_of(width: u32, height: u32) -> Readback {
    Readback {
        width,
        height,
        bytes_per_row: (width * 4) as usize,
        buffer_size: (height * (width * 4)) as usize,
    }
}

impl Readback {
    /// The memory for a texture with four bytes for each pixel.
    pub fn new(width: u32, height: u32) -> (r: Self)
        requires
            readback_fits(width, height),
        ensures
            r == readback_of(width, height),
            r.bytes_per_row == width * 4,
            r.buffer_size == height * (width * 4),
    {
        let bytes_per_row: usize = width as usize * 4;
        let buffer_size: usize = height as usize * bytes_per_row;
        Readback { width, height, bytes_per_row, buffer_size }
    }

    /// Whether the bytes of the pixels of a texture fit into memory.
    pub fn fits(width: u32, height: u32) -> (r: bool)
        ensures
            r == readback_fits(width, height),
    {
        match (width as usize).checked_mul(4) {
            Some(bytes_per_row) => (height as usize).checked_mul(bytes_per_row).is_some(),
            None => false,
        }
    }
}

/// The extent of the pixels that a rendering reads back: that of the drawable, or that of its own
/// texture. The other renderings read nothing back.
pub open spec fn readback_extent(plan: RenderPlan, drawable: Option<Size<u64>>) -> Option<
    (u32, u32),
> {
    match (plan.operation, plan.target) {
        (Operation::RenderToImage, RenderTarget::Drawable) => match drawable {
            Some(texture) => Some((texture.width as u32, texture.height as u32)),
            None => None,
        },
        (Operation::RenderSceneToImage, RenderTarget::Texture(texture)) => Some(
            (texture.width as u32, texture.height as u32),
        ),
        _ => None,
    }
}

impl RenderPlan {
    /// The memory for the pixels that a rendering reads back, if it reads any and they fit.
    /// `drawable` is the extent of the texture of the drawable, if the rendering has one.
    pub fn readback(&self, drawable: Option<Size<u64>>) -> (r: Option<Readback>)
        ensures
            r == match readback_extent(*self, drawable) {
                Some((width, height)) => if readback_fits(width, height) {
                    Some(readback_of(width, height))
                } else {
                    None
                },
                None => None,
            },
    {
        let (width, height): (u32, u32) = match (self.operation, self.target) {
            (Operation::RenderToImage, RenderTarget::Drawable) => match drawable {
                Some(texture) => (texture.width as u32, texture.height as u32),
                None => {
                    return None;
                },
            },
            (Operation::RenderSceneToImage, RenderTarget::Texture(texture)) => (
                texture.width as u32,
                texture.height as u32,
            ),
            _ => {
                return None;
            },
        };
        if Readback::fits(width, height) {
            Some(Readback::new(width, height))
        } else {
            None
        }
    }
}

/// The channels of a pixel in another order: the first and the third of every four bytes swap
/// their places. Bytes behind the last four stay.
pub open spec fn channels_swapped(pixels: Seq<u8>) -> Seq<u8> {
    Seq::new(
        pixels.len(),
        |i: int|
            if i - i % 4 + 4 > pixels.len() {
                pixels[i]
            } else if i % 4 == 0 {
                pixels[i + 2]
            } else if i % 4 == 2 {
                pixels[i - 2]
            } else {
                pixels[i]
            },
    )
}

/// Converts pixels from BGRA to RGBA.
pub fn bgra_to_rgba(pixels: &mut Vec<u8>)
    ensures
        final(pixels)@ == channels_swapped(old(pixels)@),
{
    let len: usize = pixels.len();
    let mut i: usize = 0;
    while len - i >= 4
        invariant
            i % 4 == 0,
            i <= len == pixels@.len() == old(pixels)@.len(),
            forall|j: int| i <= j < len ==> pixels@[j] == old(pixels)@[j],
            forall|j: int| 0 <= j < i ==> pixels@[j] == channels_swapped(old(pixels)@)[j],
        decreases len - i,
    {
        let blue: u8 = pixels[i];
        let red: u8 = pixels[i + 2];
        pixels.set(i, red);
        pixels.set(i + 2, blue);
        i += 4;
    }
    assert(pixels@ =~= channels_swapped(old(pixels)@));
}

/// Swapping the channels twice gives the pixels back.
pub proof fn swapping_channels_twice_is_nothing(pixels: Seq<u8>)
    ensures
        channels_swapped(channels_swapped(pixels)) == pixels,
{
    assert(channels_swapped(channels_swapped(pixels)) =~= pixels);
}

/// An image of `width` times `height` pixels can be made of `len` bytes.
pub open spec fn image_fits(width: u32, height: u32, len: nat) -> bool {
    4 * width <= usize::MAX && 4 * width * height <= len
}

/// Calls `image::RgbaImage::from_raw` and takes the image apart again, with `width`, `height` and
/// `into_raw`. The claim is that an image is made exactly if its pixels, of four bytes each, take
/// up no more bytes than are given, and that it keeps its extent and all the bytes.
#[verifier::external_body]
fn image_from_raw(width: u32, height: u32, pixels: Vec<u8>) -> (image: Option<RgbaImage>)
    ensures
        match image {
            Some(image) => {
                &&& image_fits(width, height, pixels@.len())
                &&& image.width == width
                &&& image.height == height
                &&& image.pixels@ == pixels@
            },
            None => !image_fits(width, height, pixels@.len()),
        },
{
    match image::RgbaImage::from_raw(width, height, pixels) {
        Some(image) => Some(
            RgbaImage {
                width: image.width(),
                height: image.height(),
                pixels: image.into_raw(),
            },
        ),
        None => None,
    }
}

/// The image of BGRA pixels that were read back, if they make one.
pub open spec fn finished(width: u32, height: u32, pixels: Seq<u8>) -> Result<
    ImageModel,
    RenderError,
> {
    if image_fits(width, height, pixels.len()) {
        Ok(ImageModel { width, height, pixels: channels_swapped(pixels) })
    } else {
        Err(RenderError::ImageCreation)
    }
}

/// Makes an image of BGRA pixels that were read back.
pub fn finish_image(width: u32, height: u32, pixels: Vec<u8>) -> (image: Result<
    RgbaImage,
    RenderError,
>)
    ensures
        match image {
            Ok(image) => finished(width, height, pixels@) == Ok::<ImageModel, RenderError>(
                image@,
            ),
            Err(error) => finished(width, height, pixels@) == Err::<ImageModel, RenderError>(
                error,
            ),
        },
{
    let mut pixels: Vec<u8> = pixels;
    bgra_to_rgba(&mut pixels);
    match image_from_raw(width, height, pixels) {
        Some(image) => Ok(image),
        None => Err(RenderError::ImageCreation),
    }
}

/// The memory that is set aside for reading a texture back always makes an image.
pub proof fn full_readbacks_make_images(width: u32, height: u32)
    requires
        readback_fits(width, height),
    ensures
        image_fits(width, height, (height * (width * 4)) as nat),
{
    assert(4 * width * height == height * (width * 4)) by (nonlinear_arith);
    assert(height * (width * 4) >= 0) by (nonlinear_arith);
}

/// An image that a scene is rendered to has the requested size: the pixels that are read back make
/// one, and it is that large. This takes only that they fit into memory.
pub proof fn images_have_the_requested_size(
    r: RendererModel,
    size: Size<DevicePixels>,
    pixels: Seq<u8>,
)
    requires
        is_drawable(size),
        readback_fits(size.width.0 as u32, size.height.0 as u32),
        pixels.len() == size.height.0 * (size.width.0 * 4),
    ensures
        image_plan(r, size).0 matches Ok(plan) && {
            &&& readback_extent(plan, None) == Some((size.width.0 as u32, size.height.0 as u32))
            &&& readback_of(size.width.0 as u32, size.height.0 as u32).buffer_size == pixels.len()
            &&& finished(size.width.0 as u32, size.height.0 as u32, pixels) == Ok::<
                ImageModel,
                RenderError,
            >(
                ImageModel {
                    width: size.width.0 as u32,
                    height: size.height.0 as u32,
                    pixels: channels_swapped(pixels),
                },
            )
        },
{
    full_readbacks_make_images(size.width.0 as u32, size.height.0 as u32);
}

/// Every whole pixel keeps its second and its fourth channel and swaps the first and the third: the
/// red, green, blue and alpha of the result are those of the pixel. Nothing is added or lost.
pub proof fn pixels_keep_their_colors(pixels: Seq<u8>, pixel: int)
    requires
        0 <= pixel,
        4 * pixel + 4 <= pixels.len(),
    ensures
        channels_swapped(pixels).len() == pixels.len(),
        channels_swapped(pixels)[4 * pixel] == pixels[4 * pixel + 2],
        channels_swapped(pixels)[4 * pixel + 1] == pixels[4 * pixel + 1],
        channels_swapped(pixels)[4 * pixel + 2] == pixels[4 * pixel],
        channels_swapped(pixels)[4 * pixel + 3] == pixels[4 * pixel + 3],
{
}

/// There is memory for pixels exactly where the submission reads them: a rendering reads its pixels
/// back if and only if it has a texture whose extent is known.
pub proof fn pixels_are_read_where_there_is_memory(
    r: RendererModel,
    size: Size<DevicePixels>,
    drawable: Size<u64>,
)
    requires
        is_drawable(size),
    ensures
        drawable_plan(r, Operation::Draw, size, true) matches Ok(plan) ==> readback_extent(
            plan,
            Some(drawable),
        ) is None && !submit_steps(plan).contains(SubmitStep::ReadPixels),
        drawable_plan(r, Operation::RenderToImage, size, true) matches Ok(plan)
            ==> readback_extent(plan, Some(drawable)) == Some(
            (drawable.width as u32, drawable.height as u32),
        ) && submit_steps(plan).contains(SubmitStep::ReadPixels),
        surface_plan(r, size).0 matches Ok(plan) ==> readback_extent(plan, Some(drawable)) is None
            && !submit_steps(plan).contains(SubmitStep::ReadPixels),
        image_plan(r, size).0 matches Ok(plan) ==> readback_extent(plan, Some(drawable)) == Some(
            (size.width.0 as u32, size.height.0 as u32),
        ) && submit_steps(plan).contains(SubmitStep::ReadPixels),
        scene_plan(r, size).0 matches Ok(plan) ==> readback_extent(plan, Some(drawable)) is None
            && !submit_steps(plan).contains(SubmitStep::ReadPixels),
{
    match drawable_plan(r, Operation::Draw, size, true) {
        Ok(plan) => submissions_end_as_they_should(plan),
        Err(_) => {},
    }
    match drawable_plan(r, Operation::RenderToImage, size, true) {
        Ok(plan) => submissions_end_as_they_should(plan),
        Err(_) => {},
    }
    match surface_plan(r, size).0 {
        Ok(plan) => submissions_end_as_they_should(plan),
        Err(_) => {},
    }
    match image_plan(r, size).0 {
        Ok(plan) => submissions_end_as_they_should(plan),
        Err(_) => {},
    }
    match scene_plan(r, size).0 {
        Ok(plan) => submissions_end_as_they_should(plan),
        Err(_) => {},
    }
}

} // verus!
