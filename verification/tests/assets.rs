use scene_renderer::assets::{
    dropped_images_pending, is_image_release_pending, take_dropped_images, AssetSource,
    DroppedImages, ImageId, ImageIds, RenderImage, RenderImageParams,
};
use scene_renderer::animation::{Delay, Frame, FrameList, RgbaImage};
use scene_renderer::geometry::{size, DevicePixels};
use smallvec::SmallVec;

/// A frame as the decoder hands it out.
fn frame_of(frame: image::Frame) -> Frame {
    let (numer, denom) = frame.delay().numer_denom_ms();
    let buffer = frame.into_buffer();
    Frame {
        buffer: RgbaImage {
            width: buffer.width(),
            height: buffer.height(),
            pixels: buffer.into_raw(),
        },
        delay: Delay { numer, denom },
    }
}

fn frameless() -> FrameList {
    let frames: SmallVec<[Frame; 1]> = SmallVec::new();
    FrameList::from_vec(frames.into_vec())
}

#[test]
fn dropping_a_render_image_queues_its_atlas_release() {
    let mut ids = ImageIds::new();
    let mut dropped = DroppedImages::new();
    let frame = frame_of(image::Frame::new(image::RgbaImage::new(1, 1)));
    let image = RenderImage::new(FrameList::from_vec(vec![frame]), &mut ids);
    let id = image.id;
    assert!(!is_image_release_pending(&dropped, id));
    image.release(&mut dropped);
    assert!(is_image_release_pending(&dropped, id));
    assert!(take_dropped_images(&mut dropped).contains(&(id, 1)));
    assert!(!is_image_release_pending(&dropped, id));
}

#[test]
fn dropping_a_frameless_render_image_queues_nothing() {
    let mut ids = ImageIds::new();
    let mut dropped = DroppedImages::new();
    let image = RenderImage::new(frameless(), &mut ids);
    let id = image.id;
    image.release(&mut dropped);
    assert!(!is_image_release_pending(&dropped, id));
}

#[test]
fn empty_render_image_does_not_panic() {
    let mut ids = ImageIds::new();
    let image = RenderImage::new(frameless(), &mut ids);
    assert_eq!(image.frame_count(), 0);
    assert_eq!(image.size(0), size(DevicePixels(0), DevicePixels(0)));
    assert_eq!(image.as_bytes(0), None);
    assert_eq!(image.delay(0), Delay::from_numer_denom_ms(100, 1));
    let _ = image.debug_string();
}

#[test]
fn missing_frames_last_a_tenth_of_a_second() {
    let mut ids = ImageIds::new();
    let image = RenderImage::new(frameless(), &mut ids);
    assert_eq!(image.delay(3), Delay { numer: 100, denom: 1 });
}

#[test]
fn frames_are_found_by_their_index() {
    let mut ids = ImageIds::new();
    let first = frame_of(image::Frame::from_parts(
        image::RgbaImage::from_pixel(2, 1, image::Rgba([1, 2, 3, 4])),
        0,
        0,
        image::Delay::from_numer_denom_ms(40, 1),
    ));
    let second = frame_of(image::Frame::from_parts(
        image::RgbaImage::from_pixel(1, 3, image::Rgba([5, 6, 7, 8])),
        0,
        0,
        image::Delay::from_numer_denom_ms(100, 3),
    ));
    let image = RenderImage::new(FrameList::from_vec(vec![first, second]), &mut ids);
    assert_eq!(image.frame_count(), 2);
    assert_eq!(f32::from_bits(image.scale_factor), 1.0);
    assert_eq!(image.size(0), size(DevicePixels(2), DevicePixels(1)));
    assert_eq!(image.size(1), size(DevicePixels(1), DevicePixels(3)));
    assert_eq!(image.size(2), size(DevicePixels(0), DevicePixels(0)));
    assert_eq!(image.as_bytes(0), Some(&[1u8, 2, 3, 4, 1, 2, 3, 4][..]));
    assert_eq!(image.as_bytes(1), Some(&[5u8, 6, 7, 8, 5, 6, 7, 8, 5, 6, 7, 8][..]));
    assert_eq!(image.as_bytes(2), None);
    assert_eq!(image.delay(0), Delay { numer: 40, denom: 1 });
    assert_eq!(image.delay(1), Delay { numer: 100, denom: 3 });
}

#[test]
fn delays_are_reduced() {
    assert_eq!(Delay::from_numer_denom_ms(100, 10), Delay { numer: 10, denom: 1 });
    assert_eq!(Delay::from_numer_denom_ms(6, 4), Delay { numer: 3, denom: 2 });
    assert_eq!(Delay::from_numer_denom_ms(0, 7), Delay { numer: 0, denom: 1 });
    assert_eq!(Delay::from_numer_denom_ms(u32::MAX, 1), Delay { numer: u32::MAX, denom: 1 });
}

#[test]
fn identifiers_count_up() {
    let mut ids = ImageIds::new();
    assert_eq!(ids.allocate(), ImageId(0));
    assert_eq!(ids.allocate(), ImageId(1));
    let first = RenderImage::new(frameless(), &mut ids);
    let second = RenderImage::new(frameless(), &mut ids);
    assert_eq!(first.id, ImageId(2));
    assert_eq!(second.id, ImageId(3));
    assert!(first != second);
    assert!(first == first);
}

#[test]
fn dropped_images_are_handed_out_in_order() {
    let mut ids = ImageIds::new();
    let mut dropped = DroppedImages::new();
    let frame = || frame_of(image::Frame::new(image::RgbaImage::new(1, 1)));
    let one = RenderImage::new(FrameList::from_vec(vec![frame()]), &mut ids);
    let two = RenderImage::new(FrameList::from_vec(vec![frame(), frame()]), &mut ids);
    let kept = RenderImage::new(FrameList::from_vec(vec![frame()]), &mut ids);
    let (first, second) = (one.id, two.id);
    two.release(&mut dropped);
    one.release(&mut dropped);
    assert_eq!(dropped_images_pending(&dropped), 2);
    assert!(!is_image_release_pending(&dropped, kept.id));
    assert_eq!(take_dropped_images(&mut dropped), vec![(second, 2), (first, 1)]);
    assert_eq!(dropped_images_pending(&dropped), 0);
    assert_eq!(take_dropped_images(&mut dropped), vec![]);
}

#[test]
fn images_read_well_in_a_log() {
    let mut ids = ImageIds::new();
    let empty = RenderImage::new(frameless(), &mut ids);
    assert_eq!(empty.debug_string(), "ImageData { id: ImageId(0), size: None }");
    for _ in 0..11 {
        ids.allocate();
    }
    let frame = frame_of(image::Frame::new(image::RgbaImage::new(640, 48)));
    let image = RenderImage::new(FrameList::from_vec(vec![frame]), &mut ids);
    assert_eq!(image.debug_string(), "ImageData { id: ImageId(12), size: Some((640, 48)) }");
}

#[test]
fn the_empty_source_has_no_assets() {
    assert_eq!(().load("icons/close.svg"), Ok(None));
    assert_eq!(().list("icons"), Ok(vec![]));
}

#[test]
fn frames_of_images_are_told_apart() {
    let params = RenderImageParams { image_id: ImageId(4), frame_index: 1 };
    assert_eq!(params, RenderImageParams { image_id: ImageId(4), frame_index: 1 });
    assert_ne!(params, RenderImageParams { image_id: ImageId(4), frame_index: 2 });
}
