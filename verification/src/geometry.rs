//! Plane geometry in the two pixel units of the renderer.

use vstd::bytes::u32_to_le_bytes;
use vstd::prelude::*;

verus! {

/// A length in physical pixels of a device.
#[derive(Clone, Copy, Debug, PartialEq, Eq, Structural)]
pub struct DevicePixels(pub i32);

/// A length in scaled pixels, held as the bit pattern of its IEEE-754 single-precision value.
///
/// The renderer never computes with these lengths: it hands them on to the GPU bit for bit.
#[derive(Clone, Copy, Debug, PartialEq, Eq, Structural)]
pub struct ScaledPixels(pub u32);

/// A point in the plane.
#[derive(Clone, Copy, Debug, PartialEq, Eq)]
pub struct Point<T> {
    pub x: T,
    pub y: T,
}

/// An extent in the plane.
#[derive(Clone, Copy, Debug, PartialEq, Eq)]
pub struct Size<T> {
    pub width: T,
    pub height: T,
}

/// An axis-aligned rectangle.
#[derive(Clone, Copy, Debug, PartialEq, Eq)]
pub struct Bounds<T> {
    pub origin: Point<T>,
    pub size: Size<T>,
}

/// The rectangle that a primitive is clipped to.
#[derive(Clone, Copy, Debug, PartialEq, Eq)]
pub struct ContentMask<T> {
    pub bounds: Bounds<T>,
}

/// Makes a point.
pub fn point<T>(x: T, y: T) -> (p: Point<T>)
    ensures
        p == (Point { x, y }),
{
    Point { x, y }
}

/// Makes a size.
pub fn size<T>(width: T, height: T) -> (s: Size<T>)
    ensures
        s == (Size { width, height }),
{
    Size { width, height }
}

/// Whether both sides of `size` are at least one pixel.
pub open spec fn is_drawable(size: Size<DevicePixels>) -> bool {
    size.width.0 > 0 && size.height.0 > 0
}

impl Size<DevicePixels> {
    /// Whether both sides are at least one pixel.
    pub fn is_drawable(&self) -> (r: bool)
        ensures
            r == is_drawable(*self),
    {
        self.width.0 > 0 && self.height.0 > 0
    }
}

/// The four bytes of a 32-bit word in memory, least significant first.
pub open spec fn word_bytes(word: u32) -> Seq<u8> {
    vstd::bytes::spec_u32_to_le_bytes(word)
}

/// The bytes of a run of words in memory, one word behind the other.
pub open spec fn words_bytes(words: Seq<u32>) -> Seq<u8>
    decreases words.len(),
{
    if words.len() == 0 {
        Seq::empty()
    } else {
        words_bytes(words.drop_last()) + word_bytes(words.last())
    }
}

/// The four words of a rectangle in memory: origin, then size.
pub open spec fn bounds_words(bounds: Bounds<ScaledPixels>) -> Seq<u32> {
    seq![bounds.origin.x.0, bounds.origin.y.0, bounds.size.width.0, bounds.size.height.0]
}

/// A sequence of words takes four bytes for each.
pub proof fn lemma_words_bytes_len(words: Seq<u32>)
    ensures
        words_bytes(words).len() == 4 * words.len(),
    decreases words.len(),
{
    vstd::bytes::lemma_auto_spec_u32_to_from_le_bytes();
    if words.len() > 0 {
        lemma_words_bytes_len(words.drop_last());
    }
}

/// The bytes of two runs of words are the bytes of both, one behind the other.
pub proof fn lemma_words_bytes_concat(a: Seq<u32>, b: Seq<u32>)
    ensures
        words_bytes(a + b) == words_bytes(a) + words_bytes(b),
    decreases b.len(),
{
    if b.len() == 0 {
        assert(a + b == a);
        assert(words_bytes(a) + words_bytes(b) == words_bytes(a));
    } else {
        lemma_words_bytes_concat(a, b.drop_last());
        assert((a + b).drop_last() == a + b.drop_last());
        assert((a + b).last() == b.last());
    }
}

/// Writes one word behind `out`.
pub fn push_word(out: &mut Vec<u8>, word: u32)
    ensures
        final(out)@ == old(out)@ + word_bytes(word),
{
    let mut bytes: Vec<u8> = u32_to_le_bytes(word);
    out.append(&mut bytes);
}

/// Writes the words of `words` behind `out`, in order.
pub fn push_words(out: &mut Vec<u8>, words: &[u32])
    ensures
        final(out)@ == old(out)@ + words_bytes(words@),
{
    let mut i: usize = 0;
    assert(words@.take(0) == Seq::<u32>::empty());
    while i < words.len()
        invariant
            i <= words.len(),
            out@ == old(out)@ + words_bytes(words@.take(i as int)),
        decreases words.len() - i,
    {
        push_word(out, words[i]);
        proof {
            assert(words@.take(i + 1).drop_last() == words@.take(i as int));
            assert(words@.take(i + 1).last() == words@[i as int]);
        }
        i += 1;
    }
    assert(words@.take(i as int) == words@);
}

/// Writes a rectangle behind `out`: its origin, then its size.
pub fn push_bounds(out: &mut Vec<u8>, bounds: Bounds<ScaledPixels>)
    ensures
        final(out)@ == old(out)@ + words_bytes(bounds_words(bounds)),
{
    let words: [u32; 4] = [
        bounds.origin.x.0,
        bounds.origin.y.0,
        bounds.size.width.0,
        bounds.size.height.0,
    ];
    assert(words@ == bounds_words(bounds));
    push_words(out, &words);
}

/// A target has pixels exactly if each of its sides is at least one.
pub proof fn targets_with_pixels_are_drawable(size: Size<DevicePixels>)
    ensures
        is_drawable(size) <==> 1 <= size.width.0 && 1 <= size.height.0,
{
}

} // verus!
