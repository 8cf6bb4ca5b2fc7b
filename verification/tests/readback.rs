use scene_renderer::error::RenderError;
use scene_renderer::readback::{bgra_to_rgba, finish_image, Readback};

#[test]
fn four_bytes_are_set_aside_for_each_pixel() {
    assert_eq!(
        Readback::new(640, 3),
        Readback { width: 640, height: 3, bytes_per_row: 2560, buffer_size: 7680 }
    );
    assert_eq!(
        Readback::new(0, 7),
        Readback { width: 0, height: 7, bytes_per_row: 0, buffer_size: 0 }
    );
    assert!(Readback::fits(16384, 16384));
    assert_eq!(Readback::fits(u32::MAX, u32::MAX), usize::BITS > 64);
}

#[test]
fn the_first_and_third_channel_are_swapped() {
    let mut pixels = vec![1, 2, 3, 4, 5, 6, 7, 8];
    bgra_to_rgba(&mut pixels);
    assert_eq!(pixels, vec![3, 2, 1, 4, 7, 6, 5, 8]);
    bgra_to_rgba(&mut pixels);
    assert_eq!(pixels, vec![1, 2, 3, 4, 5, 6, 7, 8]);
}

#[test]
fn a_broken_last_pixel_stays() {
    let mut pixels = vec![1, 2, 3, 4, 5, 6, 7];
    bgra_to_rgba(&mut pixels);
    assert_eq!(pixels, vec![3, 2, 1, 4, 5, 6, 7]);
    let mut none: Vec<u8> = vec![];
    bgra_to_rgba(&mut none);
    assert_eq!(none, vec![]);
}

#[test]
fn read_back_pixels_make_an_image() {
    let image = finish_image(2, 1, vec![1, 2, 3, 4, 5, 6, 7, 8]).unwrap();
    assert_eq!((image.width, image.height), (2, 1));
    assert_eq!(image.pixels, vec![3, 2, 1, 4, 7, 6, 5, 8]);
    let longer = finish_image(1, 1, vec![1, 2, 3, 4, 5]).unwrap();
    assert_eq!(longer.pixels, vec![3, 2, 1, 4, 5]);
    let empty = finish_image(0, 9, vec![]).unwrap();
    assert_eq!((empty.width, empty.height, empty.pixels), (0, 9, vec![]));
}

#[test]
fn a_full_readback_always_makes_an_image() {
    for (width, height) in [(1, 1), (3, 5), (17, 2), (0, 0)] {
        let readback = Readback::new(width, height);
        let image = finish_image(width, height, vec![7; readback.buffer_size]).unwrap();
        assert_eq!((image.width, image.height), (width, height));
    }
}

#[test]
fn too_few_pixels_make_no_image() {
    assert_eq!(finish_image(2, 1, vec![0; 7]), Err(RenderError::ImageCreation));
    assert_eq!(finish_image(u32::MAX, u32::MAX, vec![0; 64]), Err(RenderError::ImageCreation));
}
