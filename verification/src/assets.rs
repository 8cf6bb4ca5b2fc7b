//! Images as they are drawn, and the release of what they hold on the GPU.

use crate::animation::{
    frames_in, whole_milliseconds_are_lowest_terms, Delay, Frame, FrameList,
};
use crate::descriptors::ONE_BITS;
use crate::geometry::{size, DevicePixels, Size};
use crate::text::{append_decimal, decimal};
use vstd::prelude::*;
use vstd::string::StringExecFns;

verus! {

/// Why an asset could not be loaded or listed.
#[derive(Debug, PartialEq, Eq)]
pub struct AssetError {
    pub message: String,
}

/// The contents of an asset: built into the program, or read at run time.
#[derive(Debug, PartialEq, Eq)]
pub enum AssetData {
    Borrowed(&'static [u8]),
    Owned(Vec<u8>),
}

/// A source of assets for an app to use.
pub trait AssetSource: 'static + Send + Sync {
    /// Loads the given asset from the source path.
    fn load(&self, path: &str) -> Result<Option<AssetData>, AssetError>;

    /// Lists the assets at the given path.
    fn list(&self, path: &str) -> Result<Vec<String>, AssetError>;
}

impl AssetSource for () {
    fn load(&self, _path: &str) -> (r: Result<Option<AssetData>, AssetError>)
        ensures
            r == Ok::<Option<AssetData>, AssetError>(None),
    {
        Ok(None)
    }

    fn list(&self, _path: &str) -> (r: Result<Vec<String>, AssetError>)
        ensures
            r matches Ok(names) && names@.len() == 0,
    {
        Ok(Vec::new())
    }
}

/// A unique identifier for the image cache.
#[derive(Copy, Clone, Debug, Eq, PartialEq, Ord, PartialOrd, Hash, Structural)]
pub struct ImageId(pub usize);

/// One frame of one image.
#[derive(Copy, Clone, Debug, Eq, PartialEq, Hash, Structural)]
pub struct RenderImageParams {
    pub image_id: ImageId,
    pub frame_index: usize,
}

/// Hands out image identifiers.
pub struct ImageIds {
    next: usize,
}

impl ImageIds {
    /// The identifier that is handed out next.
    pub closed spec fn next_id(self) -> usize {
        self.next
    }

    /// Starts at zero.
    pub fn new() -> (ids: Self)
        ensures
            ids.next_id() == 0,
    {
        ImageIds { next: 0 }
    }

    /// Hands out the next identifier. After the last one it starts over at zero.
    pub fn allocate(&mut self) -> (id: ImageId)
        ensures
            id == ImageId(old(self).next_id()),
            final(self).next_id() == after(old(self).next_id(), 1),
    {
        let id = ImageId(self.next);
        proof {
            let m: int = usize::MAX + 1;
            if self.next == usize::MAX {
                vstd::arithmetic::div_mod::lemma_mod_self_0(m);
            } else {
                vstd::arithmetic::div_mod::lemma_small_mod((self.next + 1) as nat, m as nat);
            }
        }
        self.next = self.next.wrapping_add(1);
        id
    }
}

/// The identifier that comes `n` steps behind `id`.
pub open spec fn after(id: usize, n: nat) -> usize {
    ((id + n) % (usize::MAX + 1)) as usize
}

/// The identifiers that are handed out `i` and `j` steps behind one another differ, as long as no
/// more than all values of the identifier lie between them.
pub proof fn image_ids_are_distinct(first: usize, i: nat, j: nat)
    requires
        i < j <= i + usize::MAX,
    ensures
        after(first, i) != after(first, j),
{
    let m: int = usize::MAX + 1;
    let a: int = first + i;
    let b: int = first + j;
    assert(a % m != b % m) by (nonlinear_arith)
        requires
            m > 0,
            0 < b - a < m,
    {
        let q: int = a / m;
        let p: int = b / m;
        assert(a == m * q + a % m);
        assert(b == m * p + b % m);
        if a % m == b % m {
            assert(b - a == m * (p - q));
            assert(p - q >= 1 || p - q <= 0);
        }
    }
}

/// Handing out identifiers one after the other counts up.
pub proof fn after_is_iterated(id: usize, n: nat)
    ensures
        after(after(id, n), 1) == after(id, n + 1),
        after(id, 0) == id,
{
    let m: int = usize::MAX + 1;
    vstd::arithmetic::div_mod::lemma_add_mod_noop(id + n, 1, m);
    vstd::arithmetic::div_mod::lemma_small_mod(id as nat, m as nat);
    vstd::arithmetic::div_mod::lemma_small_mod(1, m as nat);
    assert(((id + n) % m + 1) % m == (id + n + 1) % m);
}

/// An image whose frames are ready to be drawn, in BGRA format.
pub struct RenderImage {
    /// The identifier of this image.
    pub id: ImageId,
    /// The scale factor of this image when it is drawn, held as the bit pattern of its
    /// single-precision value.
    pub scale_factor: u32,
    pub data: FrameList,
}

impl PartialEq for RenderImage {
    fn eq(&self, other: &Self) -> (r: bool) {
        self.id.0 == other.id.0
    }
}

impl vstd::std_specs::cmp::PartialEqSpecImpl for RenderImage {
    open spec fn obeys_eq_spec() -> bool {
        true
    }

    open spec fn eq_spec(&self, other: &Self) -> bool {
        self.id.0 == other.id.0
    }
}

impl Eq for RenderImage {

}

/// The bytes of frame `i`, if there is one.
pub open spec fn frame_bytes(frames: Seq<Frame>, i: int) -> Option<Seq<u8>> {
    if 0 <= i < frames.len() {
        Some(frames[i].buffer.pixels@)
    } else {
        None
    }
}

/// The size of frame `i` in pixels, or zero if there is none.
pub open spec fn frame_size(frames: Seq<Frame>, i: int) -> Size<DevicePixels> {
    if 0 <= i < frames.len() {
        Size {
            width: DevicePixels(frames[i].buffer.width as i32),
            height: DevicePixels(frames[i].buffer.height as i32),
        }
    } else {
        Size { width: DevicePixels(0), height: DevicePixels(0) }
    }
}

/// The delay of frame `i`, or 100 milliseconds if there is none.
pub open spec fn frame_delay(frames: Seq<Frame>, i: int) -> Delay {
    if 0 <= i < frames.len() {
        frames[i].delay
    } else {
        Delay { numer: 100, denom: 1 }
    }
}

/// An image that was created from some frames.
pub open spec fn created_from(image: RenderImage, id: ImageId, data: FrameList) -> bool {
    &&& image.id == id
    &&& image.scale_factor == ONE_BITS
    &&& image.frames() == frames_in(data)
}

/// How an image of the given identifier and first frame reads in a debug log.
pub open spec fn debug_text(id: ImageId, first: Option<(u32, u32)>) -> Seq<char> {
    "ImageData { id: ImageId("@ + decimal(id.0 as int) + "), size: "@ + match first {
        Some(dimensions) => "Some(("@ + decimal(dimensions.0 as int) + ", "@ + decimal(
            dimensions.1 as int,
        ) + "))"@,
        None => "None"@,
    } + " }"@
}

impl RenderImage {
    /// The frames of the image.
    pub open spec fn frames(self) -> Seq<Frame> {
        frames_in(self.data)
    }

    /// Creates an image from the given frames, under an identifier of its own and with a scale
    /// factor of one.
    pub fn new(data: FrameList, ids: &mut ImageIds) -> (image: Self)
        ensures
            created_from(image, ImageId(old(ids).next_id()), data),
            final(ids).next_id() == after(old(ids).next_id(), 1),
    {
        RenderImage { id: ids.allocate(), scale_factor: ONE_BITS, data }
    }

    /// The bytes of a frame, if the image has that frame.
    pub fn as_bytes(&self, frame_index: usize) -> (bytes: Option<&[u8]>)
        ensures
            match bytes {
                Some(bytes) => frame_bytes(self.frames(), frame_index as int) == Some(bytes@),
                None => frame_bytes(self.frames(), frame_index as int) is None,
            },
    {
        match self.data.get(frame_index) {
            Some(frame) => Some(frame.buffer.pixels.as_slice()),
            None => None,
        }
    }

    /// The size of a frame in pixels, or zero if the image does not have that frame.
    pub fn size(&self, frame_index: usize) -> (r: Size<DevicePixels>)
        ensures
            r == frame_size(self.frames(), frame_index as int),
    {
        match self.data.get(frame_index) {
            Some(frame) => size(
                DevicePixels(frame.buffer.width as i32),
                DevicePixels(frame.buffer.height as i32),
            ),
            None => size(DevicePixels(0), DevicePixels(0)),
        }
    }

    /// The delay of a frame from the previous one, or 100 milliseconds if the image does not have
    /// that frame.
    pub fn delay(&self, frame_index: usize) -> (r: Delay)
        ensures
            r == frame_delay(self.frames(), frame_index as int),
    {
        match self.data.get(frame_index) {
            Some(frame) => frame.delay,
            None => {
                let delay = Delay::from_numer_denom_ms(100, 1);
                proof {
                    whole_milliseconds_are_lowest_terms(
                        delay.numer as int,
                        delay.denom as int,
                        100,
                    );
                }
                delay
            },
        }
    }

    /// The number of frames.
    pub fn frame_count(&self) -> (n: usize)
        ensures
            n == self.frames().len(),
    {
        self.data.len()
    }

    /// The identifier and the extent of the first frame, for a debug log.
    pub fn debug_string(&self) -> (text: String)
        ensures
            text@ == debug_text(
                self.id,
                if self.frames().len() == 0 {
                    None
                } else {
                    Some((self.frames()[0].buffer.width, self.frames()[0].buffer.height))
                },
            ),
    {
        let mut text = String::new();
        text.append("ImageData { id: ImageId(");
        append_decimal(&mut text, self.id.0 as u64);
        text.append("), size: ");
        match self.data.get(0) {
            Some(frame) => {
                let mut dimensions = String::new();
                dimensions.append("Some((");
                append_decimal(&mut dimensions, frame.buffer.width as u64);
                dimensions.append(", ");
                append_decimal(&mut dimensions, frame.buffer.height as u64);
                dimensions.append("))");
                text.append(dimensions.as_str());
                assert(dimensions@ =~= "Some(("@ + decimal(frame.buffer.width as int) + ", "@
                    + decimal(frame.buffer.height as int) + "))"@);
            },
            None => {
                text.append("None");
            },
        }
        text.append(" }");
        text
    }

    /// Ends the life of the image: its pixels are freed, and its tiles in the sprite atlas are
    /// queued for release. An image without frames has no tiles.
    pub fn release(self, dropped: &mut DroppedImages)
        ensures
            final(dropped)@ == queued(old(dropped)@, self.id, self.frames().len() as usize),
    {
        let frame_count: usize = self.frame_count();
        if frame_count != 0 {
            dropped.images.push((self.id, frame_count));
        }
    }
}

/// Images that are gone and whose tiles in the sprite atlas are still to be released, each with
/// its number of frames.
pub struct DroppedImages {
    images: Vec<(ImageId, usize)>,
}

impl View for DroppedImages {
    type V = Seq<(ImageId, usize)>;

    closed spec fn view(&self) -> Seq<(ImageId, usize)> {
        self.images@
    }
}

/// The images that are waiting after one more was dropped. One without frames does not wait.
pub open spec fn queued(
    dropped: Seq<(ImageId, usize)>,
    id: ImageId,
    frame_count: usize,
) -> Seq<(ImageId, usize)> {
    if frame_count == 0 {
        dropped
    } else {
        dropped.push((id, frame_count))
    }
}

/// Whether an image of that identifier is among those waiting.
pub open spec fn release_pending(dropped: Seq<(ImageId, usize)>, id: ImageId) -> bool {
    exists|i: int| 0 <= i < dropped.len() && (#[trigger] dropped[i]).0 == id
}

impl DroppedImages {
    /// No image is waiting.
    pub fn new() -> (dropped: Self)
        ensures
            dropped@ == Seq::<(ImageId, usize)>::empty(),
    {
        DroppedImages { images: Vec::new() }
    }
}

/// Takes every image dropped since the previous call, for the release of its tiles.
pub fn take_dropped_images(dropped: &mut DroppedImages) -> (images: Vec<(ImageId, usize)>)
    ensures
        images@ == old(dropped)@,
        final(dropped)@ == Seq::<(ImageId, usize)>::empty(),
{
    let mut images: Vec<(ImageId, usize)> = Vec::new();
    std::mem::swap(&mut images, &mut dropped.images);
    images
}

/// How many dropped images still await the release of their tiles.
pub fn dropped_images_pending(dropped: &DroppedImages) -> (n: usize)
    ensures
        n == dropped@.len(),
{
    dropped.images.len()
}

/// Whether the image with `id` has been dropped and still awaits the release of its tiles.
pub fn is_image_release_pending(dropped: &DroppedImages, id: ImageId) -> (r: bool)
    ensures
        r == release_pending(dropped@, id),
{
    let mut i: usize = 0;
    while i < dropped.images.len()
        invariant
            i <= dropped.images@.len(),
            forall|j: int| 0 <= j < i ==> (#[trigger] dropped.images@[j]).0 != id,
        decreases dropped.images.len() - i,
    {
        if dropped.images[i].0 == id {
            assert(dropped@[i as int].0 == id);
            return true;
        }
        i += 1;
    }
    false
}

/// An image gives back what it was created from: as many frames, and of each of them its own size,
/// bytes and delay. Its scale factor is one.
pub proof fn images_give_back_their_frames(image: RenderImage, id: ImageId, data: FrameList)
    requires
        created_from(image, id, data),
    ensures
        image.frames().len() == frames_in(data).len(),
        image.scale_factor == ONE_BITS,
        forall|i: int|
            0 <= i < frames_in(data).len() ==> {
                let frame = #[trigger] frames_in(data)[i];
                &&& frame_bytes(image.frames(), i) == Some(frame.buffer.pixels@)
                &&& frame_size(image.frames(), i) == (Size {
                    width: DevicePixels(frame.buffer.width as i32),
                    height: DevicePixels(frame.buffer.height as i32),
                })
                &&& frame_delay(image.frames(), i) == frame.delay
            },
{
}

/// What happens to images.
pub enum ImageEvent {
    /// An image is created with so many frames.
    Created(usize),
    /// The last handle of an image is dropped.
    Dropped(ImageId),
    /// The images that wait are taken.
    Taken,
}

/// The images after some events.
pub struct ImageHistory {
    /// How many images were created.
    pub created: nat,
    /// The identifier that is handed out next.
    pub next_id: usize,
    /// The images that are alive, with their numbers of frames.
    pub live: Map<ImageId, usize>,
    /// The images that wait for their release.
    pub queue: Seq<(ImageId, usize)>,
}

/// The images after one more event.
pub open spec fn image_step(h: ImageHistory, event: ImageEvent) -> ImageHistory {
    match event {
        ImageEvent::Created(frame_count) => ImageHistory {
            created: h.created + 1,
            next_id: after(h.next_id, 1),
            live: h.live.insert(ImageId(h.next_id), frame_count),
            queue: h.queue,
        },
        ImageEvent::Dropped(id) => ImageHistory {
            live: h.live.remove(id),
            queue: queued(h.queue, id, h.live[id]),
            ..h
        },
        ImageEvent::Taken => ImageHistory { queue: Seq::empty(), ..h },
    }
}

/// The images after all of `events`, from none.
pub open spec fn image_history(events: Seq<ImageEvent>) -> ImageHistory
    decreases events.len(),
{
    if events.len() == 0 {
        ImageHistory { created: 0, next_id: 0, live: Map::empty(), queue: Seq::empty() }
    } else {
        image_step(image_history(events.drop_last()), events.last())
    }
}

/// Only images that are alive are dropped.
pub open spec fn image_events_possible(events: Seq<ImageEvent>) -> bool
    decreases events.len(),
{
    events.len() > 0 ==> {
        &&& image_events_possible(events.drop_last())
        &&& match events.last() {
            ImageEvent::Dropped(id) => image_history(events.drop_last()).live.contains_key(id),
            _ => true,
        }
    }
}

/// Every identifier waits at most once, none of those waiting is of an image that is alive, and
/// every image that waits has frames.
pub open spec fn queue_is_sound(h: ImageHistory) -> bool {
    &&& forall|i: int, j: int|
        0 <= i < j < h.queue.len() ==> (#[trigger] h.queue[i]).0 != (#[trigger] h.queue[j]).0
    &&& forall|i: int|
        0 <= i < h.queue.len() ==> !h.live.contains_key((#[trigger] h.queue[i]).0)
            && h.queue[i].1 >= 1
}

/// Creating an image leaves the queue of dropped images as it is.
pub proof fn creating_queues_nothing(h: ImageHistory, frame_count: usize)
    ensures
        image_step(h, ImageEvent::Created(frame_count)).queue == h.queue,
{
}

/// Whatever images are created, dropped and taken, the queue is sound, as long as no identifier
/// was handed out twice.
pub proof fn queues_of_dropped_images_are_sound(events: Seq<ImageEvent>)
    requires
        image_events_possible(events),
        image_history(events).created <= usize::MAX + 1,
    ensures
        queue_is_sound(image_history(events)),
{
    lemma_image_history(events);
}

proof fn lemma_image_history(events: Seq<ImageEvent>)
    requires
        image_events_possible(events),
        image_history(events).created <= usize::MAX + 1,
    ensures
        ({
            let h = image_history(events);
            &&& queue_is_sound(h)
            &&& h.next_id == after(0, h.created)
            &&& forall|id: ImageId| #[trigger] h.live.contains_key(id) ==> id.0 < h.created
            &&& forall|i: int| 0 <= i < h.queue.len() ==> (#[trigger] h.queue[i]).0.0 < h.created
        }),
    decreases events.len(),
{
    let m: int = usize::MAX + 1;
    if events.len() == 0 {
        vstd::arithmetic::div_mod::lemma_small_mod(0, m as nat);
    } else {
        let before = image_history(events.drop_last());
        lemma_image_history(events.drop_last());
        after_is_iterated(0, before.created);
        if events.last() is Created {
            vstd::arithmetic::div_mod::lemma_small_mod(before.created, m as nat);
            assert(before.next_id == before.created);
        }
    }
}

/// An image with frames awaits its release from its drop until the next taking, which hands it
/// out with its number of frames; then nothing awaits release.
pub proof fn dropping_queues_until_taken(
    before: Seq<(ImageId, usize)>,
    id: ImageId,
    frame_count: usize,
)
    ensures
        release_pending(before.push((id, frame_count)), id),
        before.push((id, frame_count)).contains((id, frame_count)),
        !release_pending(Seq::<(ImageId, usize)>::empty(), id),
        forall|other: ImageId|
            other != id ==> #[trigger] release_pending(before.push((id, frame_count)), other)
                == release_pending(before, other),
{
    let queue = before.push((id, frame_count));
    assert(queue[before.len() as int] == (id, frame_count));
    assert forall|other: ImageId| other != id implies #[trigger] release_pending(queue, other)
        == release_pending(before, other) by {
        if release_pending(before, other) {
            let i = choose|i: int| 0 <= i < before.len() && (#[trigger] before[i]).0 == other;
            assert(queue[i].0 == other);
        }
        if release_pending(queue, other) {
            let i = choose|i: int| 0 <= i < queue.len() && (#[trigger] queue[i]).0 == other;
            assert(before[i].0 == other);
        }
    }
}

/// An image that is dropped joins the end of the queue, once, with all its frames, and those that
/// wait stay as they are. An image without frames does not wait.
pub proof fn dropped_images_wait_with_all_their_frames(
    dropped: Seq<(ImageId, usize)>,
    id: ImageId,
    frame_count: usize,
)
    ensures
        queued(dropped, id, 0) == dropped,
        frame_count > 0 ==> {
            &&& queued(dropped, id, frame_count).len() == dropped.len() + 1
            &&& queued(dropped, id, frame_count).last() == (id, frame_count)
            &&& queued(dropped, id, frame_count).drop_last() == dropped
            &&& release_pending(queued(dropped, id, frame_count), id)
        },
{
    if frame_count > 0 {
        let queue = queued(dropped, id, frame_count);
        assert(queue.drop_last() =~= dropped);
        assert(queue[dropped.len() as int].0 == id);
    }
}

/// A frame that an image does not have has no bytes and no extent, and lasts a tenth of a second.
pub proof fn missing_frames_are_empty(frames: Seq<Frame>, i: int)
    requires
        i >= frames.len(),
    ensures
        frame_bytes(frames, i) is None,
        frame_size(frames, i).width.0 == 0,
        frame_size(frames, i).height.0 == 0,
        frame_delay(frames, i).numer == 100 * frame_delay(frames, i).denom,
        frame_delay(frames, i).denom > 0,
{
}

} // verus!
