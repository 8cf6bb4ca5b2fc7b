//! The frames of an image, and how long each is shown.

use vstd::prelude::*;

verus! {

/// Pixels with eight bits for each of four channels, row by row.
#[derive(Debug, PartialEq, Eq)]
pub struct RgbaImage {
    pub width: u32,
    pub height: u32,
    pub pixels: Vec<u8>,
}

/// An image as a value.
pub struct ImageModel {
    pub width: u32,
    pub height: u32,
    pub pixels: Seq<u8>,
}

impl View for RgbaImage {
    type V = ImageModel;

    open spec fn view(&self) -> ImageModel {
        ImageModel { width: self.width, height: self.height, pixels: self.pixels@ }
    }
}

/// The delay of a frame relative to the previous one: a ratio of milliseconds in lowest terms.
#[derive(Clone, Copy, Debug, PartialEq, Eq, Structural)]
pub struct Delay {
    pub numer: u32,
    pub denom: u32,
}

/// `numer / denom` is the ratio `a / b` in lowest terms: both come from `a` and `b` by dividing
/// out one factor, and no larger factor divides `a` and `b`.
pub open spec fn lowest_terms(numer: int, denom: int, a: int, b: int) -> bool {
    exists|factor: int|
        {
            &&& factor > 0
            &&& #[trigger] (numer * factor) == a
            &&& denom * factor == b
            &&& forall|other: int|
                other > 0 && #[trigger] (a % other) == 0 && b % other == 0 ==> other <= factor
        }
}

/// Calls `image::Delay::from_numer_denom_ms` and reads the delay back with
/// `image::Delay::numer_denom_ms`. The claim is that the ratio is reduced: the outside function
/// divides both numbers by their greatest common divisor. It panics on a denominator of zero.
#[verifier::external_body]
fn reduced_delay(numer: u32, denom: u32) -> (ratio: (u32, u32))
    requires
        denom != 0,
    ensures
        lowest_terms(ratio.0 as int, ratio.1 as int, numer as int, denom as int),
{
    image::Delay::from_numer_denom_ms(numer, denom).numer_denom_ms()
}

impl Delay {
    /// Creates a delay from a ratio of milliseconds.
    pub fn from_numer_denom_ms(numer: u32, denom: u32) -> (delay: Self)
        requires
            denom != 0,
        ensures
            lowest_terms(delay.numer as int, delay.denom as int, numer as int, denom as int),
    {
        let ratio: (u32, u32) = reduced_delay(numer, denom);
        Delay { numer: ratio.0, denom: ratio.1 }
    }
}

/// A ratio with a denominator of one is in lowest terms as it stands.
pub proof fn whole_milliseconds_are_lowest_terms(numer: int, denom: int, a: int)
    requires
        denom >= 0,
        lowest_terms(numer, denom, a, 1),
    ensures
        numer == a,
        denom == 1,
{
    let factor = choose|factor: int|
        factor > 0 && #[trigger] (numer * factor) == a && denom * factor == 1;
    assert(factor == 1 && denom == 1) by (nonlinear_arith)
        requires
            factor > 0,
            denom >= 0,
            denom * factor == 1,
    ;
    assert(numer * 1 == numer);
}

/// A single frame.
#[derive(Debug, PartialEq, Eq)]
pub struct Frame {
    pub buffer: RgbaImage,
    pub delay: Delay,
}

/// A list of frames that keeps a single frame inline.
#[verifier::external_body]
pub struct FrameList {
    frames: smallvec::SmallVec<[Frame; 1]>,
}

/// The frames that a list holds, in order.
pub uninterp spec fn frames_in(list: FrameList) -> Seq<Frame>;

impl FrameList {
    /// Calls `smallvec::SmallVec::from_vec`: the vector holds the items that it is made of, in
    /// order.
    #[verifier::external_body]
    fn wrap(frames: Vec<Frame>) -> (list: Self)
        ensures
            frames_in(list) == frames@,
    {
        FrameList { frames: smallvec::SmallVec::from_vec(frames) }
    }

    /// Calls `smallvec::SmallVec::len`: the number of items.
    #[verifier::external_body]
    pub(crate) fn len(&self) -> (n: usize)
        ensures
            n == frames_in(*self).len(),
    {
        self.frames.len()
    }

    /// Calls `get` on the slice that `smallvec::SmallVec` dereferences to, which holds the items
    /// in order: the item at `index`, if there is one.
    #[verifier::external_body]
    pub(crate) fn get(&self, index: usize) -> (frame: Option<&Frame>)
        ensures
            match frame {
                Some(frame) => index < frames_in(*self).len() && *frame == frames_in(
                    *self,
                )[index as int],
                None => index >= frames_in(*self).len(),
            },
    {
        self.frames.get(index)
    }

    /// A list of the given frames.
    pub fn from_vec(frames: Vec<Frame>) -> (list: Self)
        ensures
            frames_in(list) == frames@,
    {
        FrameList::wrap(frames)
    }
}

} // verus!
