use scene_renderer::packing::{align_offset, place, try_align, INSTANCE_ALIGNMENT};

fn aligned(offset: usize) -> usize {
    let mut offset = offset;
    align_offset(&mut offset);
    offset
}

#[test]
fn offsets_move_up_to_multiples_of_the_alignment() {
    assert_eq!(INSTANCE_ALIGNMENT, 256);
    assert_eq!(aligned(0), 0);
    assert_eq!(aligned(1), 256);
    assert_eq!(aligned(255), 256);
    assert_eq!(aligned(256), 256);
    assert_eq!(aligned(257), 512);
    assert_eq!(aligned(aligned(1000)), 1024);
    assert_eq!(aligned(usize::MAX - 255), usize::MAX - 255);
}

#[test]
fn runs_are_placed_where_they_fit() {
    assert_eq!(place(0, 100, 100), Some(0));
    assert_eq!(place(0, 100, 101), None);
    assert_eq!(place(1, 300, 44), Some(256));
    assert_eq!(place(1, 300, 45), None);
    assert_eq!(place(1, 255, 0), None);
    assert_eq!(place(256, 256, 0), Some(256));
    assert_eq!(place(300, 256, 0), None);
    assert_eq!(place(usize::MAX, usize::MAX, 0), None);
}

#[test]
fn offsets_that_cannot_be_aligned_stay() {
    let mut offset = usize::MAX - 254;
    assert!(!try_align(&mut offset));
    assert_eq!(offset, usize::MAX - 254);
    let mut offset = 300;
    assert!(try_align(&mut offset));
    assert_eq!(offset, 512);
}
