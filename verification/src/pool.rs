//! The pool of instance buffers, and how their size grows when a scene does not fit.

use crate::descriptors::ResourceOptions;
use vstd::prelude::*;

verus! {

/// The size of the instance buffers of a fresh pool: two mebibytes.
pub const INITIAL_BUFFER_SIZE: usize = 2_097_152;

/// Instance buffers of this size or larger are not grown any more: 256 mebibytes.
pub const MAX_BUFFER_SIZE: usize = 268_435_456;

/// An instance buffer in use. `B` is the handle of the buffer on the GPU.
#[derive(Debug, PartialEq, Eq)]
pub struct InstanceBuffer<B> {
    pub metal_buffer: B,
    pub size: usize,
}

/// Instance buffers that are not in use, all of one size.
#[derive(Debug, PartialEq, Eq)]
pub struct InstanceBufferPool<B> {
    pub buffer_size: usize,
    pub buffers: Vec<B>,
}

/// A buffer that is to be allocated.
#[derive(Clone, Copy, Debug, PartialEq, Eq)]
pub struct BufferAllocation {
    pub size: usize,
    pub options: ResourceOptions,
}

/// What an acquisition comes to: a buffer of the pool, or a buffer that is to be allocated.
#[derive(Debug, PartialEq, Eq)]
pub enum Acquired<B> {
    Pooled(InstanceBuffer<B>),
    Allocate(BufferAllocation),
}

/// The storage options of a buffer that the CPU writes and the GPU reads.
pub open spec fn write_only_options(unified_memory: bool) -> ResourceOptions {
    if unified_memory {
        ResourceOptions::SharedWriteCombined
    } else {
        ResourceOptions::Managed
    }
}

/// The storage options of a buffer that the CPU writes and the GPU reads. Storage can be shared
/// only if both share their memory.
pub fn write_only_buffer_options(unified_memory: bool) -> (options: ResourceOptions)
    ensures
        options == write_only_options(unified_memory),
{
    if unified_memory {
        ResourceOptions::SharedWriteCombined
    } else {
        ResourceOptions::Managed
    }
}

/// The buffer size after a scene did not fit: twice as much, or none if the size has reached its
/// limit.
pub open spec fn grown(buffer_size: int) -> Option<int> {
    if buffer_size >= MAX_BUFFER_SIZE {
        None
    } else {
        Some(buffer_size * 2)
    }
}

/// A pool as a value.
pub struct PoolModel<B> {
    pub buffer_size: usize,
    pub buffers: Seq<B>,
}

impl<B> View for InstanceBufferPool<B> {
    type V = PoolModel<B>;

    open spec fn view(&self) -> PoolModel<B> {
        PoolModel { buffer_size: self.buffer_size, buffers: self.buffers@ }
    }
}

/// A pool of buffers of the given size, with none in it.
pub open spec fn empty_pool<B>(buffer_size: usize) -> PoolModel<B> {
    PoolModel { buffer_size, buffers: Seq::empty() }
}

/// What an acquisition comes to, and the pool afterwards: the buffer that came back last, or the
/// allocation of one.
pub open spec fn acquired<B>(pool: PoolModel<B>, unified_memory: bool) -> (
    Acquired<B>,
    PoolModel<B>,
) {
    if pool.buffers.len() > 0 {
        (
            Acquired::Pooled(
                InstanceBuffer { metal_buffer: pool.buffers.last(), size: pool.buffer_size },
            ),
            PoolModel { buffer_size: pool.buffer_size, buffers: pool.buffers.drop_last() },
        )
    } else {
        (
            Acquired::Allocate(
                BufferAllocation {
                    size: pool.buffer_size,
                    options: write_only_options(unified_memory),
                },
            ),
            pool,
        )
    }
}

/// A pool after a buffer came back.
pub open spec fn released<B>(pool: PoolModel<B>, buffer: InstanceBuffer<B>) -> PoolModel<B> {
    if buffer.size == pool.buffer_size {
        PoolModel {
            buffer_size: pool.buffer_size,
            buffers: pool.buffers.push(buffer.metal_buffer),
        }
    } else {
        pool
    }
}

impl<B> Default for InstanceBufferPool<B> {
    fn default() -> (pool: Self)
        ensures
            pool@ == empty_pool::<B>(INITIAL_BUFFER_SIZE),
    {
        InstanceBufferPool { buffer_size: INITIAL_BUFFER_SIZE, buffers: Vec::new() }
    }
}

impl<B> InstanceBufferPool<B> {
    /// Changes the size of the buffers. Those in the pool are given up.
    pub fn reset(&mut self, buffer_size: usize)
        ensures
            final(self)@ == empty_pool::<B>(buffer_size),
    {
        self.buffer_size = buffer_size;
        self.buffers.clear();
    }

    /// Takes a buffer from the pool, the one that came back last, or says which to allocate.
    pub fn acquire(&mut self, unified_memory: bool) -> (r: Acquired<B>)
        ensures
            (r, final(self)@) == acquired(old(self)@, unified_memory),
    {
        match self.buffers.pop() {
            Some(buffer) => Acquired::Pooled(
                InstanceBuffer { metal_buffer: buffer, size: self.buffer_size },
            ),
            None => Acquired::Allocate(
                BufferAllocation {
                    size: self.buffer_size,
                    options: write_only_buffer_options(unified_memory),
                },
            ),
        }
    }

    /// Puts a buffer back into the pool. One that is not of the pool's size any more is given up.
    pub fn release(&mut self, buffer: InstanceBuffer<B>)
        ensures
            final(self)@ == released(old(self)@, buffer),
    {
        if buffer.size == self.buffer_size {
            self.buffers.push(buffer.metal_buffer);
        }
    }

    /// Doubles the size of the buffers after a scene did not fit. Returns the size that was too
    /// large to be doubled, if it was.
    pub fn grow(&mut self) -> (r: Result<(), usize>)
        ensures
            match grown(old(self).buffer_size as int) {
                Some(size) => {
                    &&& r is Ok
                    &&& final(self)@ == empty_pool::<B>(size as usize)
                    &&& final(self).buffer_size == size
                },
                None => {
                    &&& r == Err::<(), usize>(old(self).buffer_size)
                    &&& final(self)@ == old(self)@
                },
            },
    {
        let buffer_size: usize = self.buffer_size;
        if buffer_size >= MAX_BUFFER_SIZE {
            return Err(buffer_size);
        }
        self.reset(buffer_size * 2);
        Ok(())
    }
}

/// How many times a buffer size can be doubled before the limit is reached.
pub open spec fn growths_left(buffer_size: int) -> nat
    decreases
            if buffer_size >= MAX_BUFFER_SIZE {
                0
            } else {
                MAX_BUFFER_SIZE - buffer_size
            },
    when buffer_size > 0
{
    match grown(buffer_size) {
        None => 0,
        Some(size) => 1 + growths_left(size),
    }
}

/// A buffer size after `n` doublings.
pub open spec fn doubled(buffer_size: int, n: nat) -> int
    decreases n,
{
    if n == 0 {
        buffer_size
    } else {
        doubled(buffer_size * 2, (n - 1) as nat)
    }
}

/// Growing comes to an end: from any size but zero, after at most 28 doublings, at a size that is
/// not below the limit and, where something was doubled at all, below twice the limit.
pub proof fn growing_ends(buffer_size: int)
    requires
        buffer_size > 0,
    ensures
        growths_left(buffer_size) <= 28,
        grown(doubled(buffer_size, growths_left(buffer_size))) is None,
        doubled(buffer_size, growths_left(buffer_size)) < 2 * MAX_BUFFER_SIZE || growths_left(
            buffer_size,
        ) == 0,
{
    growing_ends_within(buffer_size, 28);
}

proof fn growing_ends_within(buffer_size: int, n: nat)
    requires
        buffer_size > 0,
        doubled(buffer_size, n) >= MAX_BUFFER_SIZE || n == 28,
    ensures
        growths_left(buffer_size) <= n,
        grown(doubled(buffer_size, growths_left(buffer_size))) is None,
        doubled(buffer_size, growths_left(buffer_size)) < 2 * MAX_BUFFER_SIZE || growths_left(
            buffer_size,
        ) == 0,
    decreases n,
{
    if n == 28 {
        reveal_with_fuel(doubled, 29);
        assert(doubled(buffer_size, 28) == buffer_size * 268435456);
    }
    if buffer_size < MAX_BUFFER_SIZE {
        growing_ends_within(buffer_size * 2, (n - 1) as nat);
    }
}

/// A buffer that comes back to a pool of its size is the one that is handed out next, and the
/// pool is then as it was before.
pub proof fn released_buffer_is_acquired_next<B>(
    pool: PoolModel<B>,
    buffer: InstanceBuffer<B>,
    unified_memory: bool,
)
    requires
        buffer.size == pool.buffer_size,
    ensures
        acquired(released(pool, buffer), unified_memory) == (Acquired::Pooled(buffer), pool),
{
    assert(pool.buffers.push(buffer.metal_buffer).drop_last() =~= pool.buffers);
}

/// Every buffer in the pool has the size that the pool says, where `size_of` tells the size of a
/// buffer.
pub open spec fn sizes_agree<B>(pool: PoolModel<B>, size_of: spec_fn(B) -> usize) -> bool {
    forall|i: int|
        0 <= i < pool.buffers.len() ==> size_of(#[trigger] pool.buffers[i]) == pool.buffer_size
}

/// A pool holds only buffers of its size, whatever is acquired, released and reset: so a buffer
/// that is handed out is as large as it is said to be. This takes only that buffers come back
/// with the size that they have.
pub proof fn pools_hold_buffers_of_their_size<B>(
    pool: PoolModel<B>,
    size_of: spec_fn(B) -> usize,
    buffer: InstanceBuffer<B>,
    buffer_size: usize,
    unified_memory: bool,
)
    requires
        sizes_agree(pool, size_of),
        size_of(buffer.metal_buffer) == buffer.size,
    ensures
        sizes_agree(empty_pool::<B>(buffer_size), size_of),
        sizes_agree(released(pool, buffer), size_of),
        sizes_agree(acquired(pool, unified_memory).1, size_of),
        match acquired(pool, unified_memory).0 {
            Acquired::Pooled(taken) => size_of(taken.metal_buffer) == taken.size,
            Acquired::Allocate(allocation) => allocation.size == pool.buffer_size,
        },
{
}

/// What happens to the buffers of a pool.
pub enum PoolEvent<B> {
    /// A buffer is acquired. `fresh` is the one that is allocated if the pool has none.
    Acquired { unified_memory: bool, fresh: B },
    /// A buffer comes back from its holder.
    Released(InstanceBuffer<B>),
    /// A buffer is given up by its holder.
    GivenUp(InstanceBuffer<B>),
    /// The size of the buffers changes.
    Reset(usize),
}

/// A pool and the buffers that were handed out and are still held.
#[verifier::reject_recursive_types(B)]
pub struct PoolHistory<B> {
    pub pool: PoolModel<B>,
    pub held: Set<InstanceBuffer<B>>,
}

/// The buffer that an acquisition hands out.
pub open spec fn handed_out<B>(
    pool: PoolModel<B>,
    unified_memory: bool,
    fresh: B,
) -> InstanceBuffer<B> {
    match acquired(pool, unified_memory).0 {
        Acquired::Pooled(buffer) => buffer,
        Acquired::Allocate(allocation) => InstanceBuffer {
            metal_buffer: fresh,
            size: allocation.size,
        },
    }
}

/// A pool and its holders after one more event.
pub open spec fn pool_step<B>(h: PoolHistory<B>, event: PoolEvent<B>) -> PoolHistory<B> {
    match event {
        PoolEvent::Acquired { unified_memory, fresh } => PoolHistory {
            pool: acquired(h.pool, unified_memory).1,
            held: h.held.insert(handed_out(h.pool, unified_memory, fresh)),
        },
        PoolEvent::Released(buffer) => PoolHistory {
            pool: released(h.pool, buffer),
            held: h.held.remove(buffer),
        },
        PoolEvent::GivenUp(buffer) => PoolHistory {
            pool: h.pool,
            held: h.held.remove(buffer),
        },
        PoolEvent::Reset(buffer_size) => PoolHistory {
            pool: empty_pool(buffer_size),
            held: h.held,
        },
    }
}

/// A pool and its holders after all of `events`, from a fresh pool.
pub open spec fn pool_history<B>(events: Seq<PoolEvent<B>>) -> PoolHistory<B>
    decreases events.len(),
{
    if events.len() == 0 {
        PoolHistory { pool: empty_pool(INITIAL_BUFFER_SIZE), held: Set::empty() }
    } else {
        pool_step(pool_history(events.drop_last()), events.last())
    }
}

/// A buffer is held by somebody.
pub open spec fn is_held<B>(h: PoolHistory<B>, metal_buffer: B) -> bool {
    exists|buffer: InstanceBuffer<B>|
        #[trigger] h.held.contains(buffer) && buffer.metal_buffer == metal_buffer
}

/// An allocation makes a buffer of the size that was asked for, and not one that somebody holds.
/// Only what was handed out comes back or is given up.
pub open spec fn pool_event_possible<B>(
    h: PoolHistory<B>,
    size_of: spec_fn(B) -> usize,
    event: PoolEvent<B>,
) -> bool {
    match event {
        PoolEvent::Acquired { fresh, .. } => h.pool.buffers.len() == 0 ==> size_of(fresh)
            == h.pool.buffer_size && !is_held(h, fresh),
        PoolEvent::Released(buffer) => h.held.contains(buffer),
        PoolEvent::GivenUp(buffer) => h.held.contains(buffer),
        PoolEvent::Reset(_) => true,
    }
}

/// Each of `events` was possible when it happened.
pub open spec fn pool_events_possible<B>(
    events: Seq<PoolEvent<B>>,
    size_of: spec_fn(B) -> usize,
) -> bool
    decreases events.len(),
{
    events.len() > 0 ==> {
        &&& pool_events_possible(events.drop_last(), size_of)
        &&& pool_event_possible(pool_history(events.drop_last()), size_of, events.last())
    }
}

/// No buffer lies in the pool twice, none that is held lies in the pool, no two holders have the
/// same buffer, and every buffer is as large as it is said to be.
pub open spec fn pool_is_sound<B>(h: PoolHistory<B>, size_of: spec_fn(B) -> usize) -> bool {
    &&& h.pool.buffers.no_duplicates()
    &&& sizes_agree(h.pool, size_of)
    &&& forall|buffer: InstanceBuffer<B>| #[trigger]
        h.held.contains(buffer) ==> size_of(buffer.metal_buffer) == buffer.size
            && !h.pool.buffers.contains(buffer.metal_buffer)
    &&& forall|a: InstanceBuffer<B>, b: InstanceBuffer<B>| #[trigger]
        h.held.contains(a) && #[trigger] h.held.contains(b) && a.metal_buffer == b.metal_buffer
            ==> a == b
}

proof fn lemma_pool_step<B>(h: PoolHistory<B>, size_of: spec_fn(B) -> usize, event: PoolEvent<B>)
    requires
        pool_is_sound(h, size_of),
        pool_event_possible(h, size_of, event),
    ensures
        pool_is_sound(pool_step(h, event), size_of),
{
    let next = pool_step(h, event);
    let buffers = h.pool.buffers;
    match event {
        PoolEvent::Acquired { unified_memory, fresh } => {
            let taken = handed_out(h.pool, unified_memory, fresh);
            if buffers.len() > 0 {
                assert(buffers[buffers.len() - 1] == taken.metal_buffer);
                assert(buffers.contains(taken.metal_buffer));
                let left = next.pool.buffers;
                assert forall|b: B| #[trigger] left.contains(b) implies buffers.contains(b) && b
                    != taken.metal_buffer by {
                    let i = choose|i: int|
                        0 <= i < next.pool.buffers.len() && next.pool.buffers[i] == b;
                    assert(buffers[i] == b);
                }
            }
        },
        PoolEvent::Released(buffer) => {
            assert forall|b: B| #[trigger] next.pool.buffers.contains(b) implies buffers.contains(b)
                || b == buffer.metal_buffer by {
                let i = choose|i: int|
                    0 <= i < next.pool.buffers.len() && next.pool.buffers[i] == b;
                if i < buffers.len() {
                    assert(buffers[i] == b);
                }
            }
            assert forall|i: int, j: int|
                0 <= i < next.pool.buffers.len() && 0 <= j < next.pool.buffers.len() && i
                    != j implies next.pool.buffers[i] != next.pool.buffers[j] by {
                if i < buffers.len() {
                    assert(buffers.contains(buffers[i]));
                }
                if j < buffers.len() {
                    assert(buffers.contains(buffers[j]));
                }
            }
        },
        _ => {},
    }
}

proof fn lemma_pool_history<B>(events: Seq<PoolEvent<B>>, size_of: spec_fn(B) -> usize)
    requires
        pool_events_possible(events, size_of),
    ensures
        pool_is_sound(pool_history(events), size_of),
    decreases events.len(),
{
    if events.len() > 0 {
        lemma_pool_history(events.drop_last(), size_of);
        lemma_pool_step(pool_history(events.drop_last()), size_of, events.last());
    }
}

/// Whatever is acquired, released, given up and reset, a buffer that a pool hands out is held by
/// nobody else, and is as large as it is said to be, as is every buffer in the pool.
pub proof fn buffers_have_one_holder<B>(
    events: Seq<PoolEvent<B>>,
    size_of: spec_fn(B) -> usize,
    unified_memory: bool,
    fresh: B,
)
    requires
        pool_events_possible(events, size_of),
        pool_event_possible(
            pool_history(events),
            size_of,
            PoolEvent::Acquired { unified_memory, fresh },
        ),
    ensures
        ({
            let h = pool_history(events);
            let taken = handed_out(h.pool, unified_memory, fresh);
            &&& size_of(taken.metal_buffer) == taken.size
            &&& taken.size == h.pool.buffer_size
            &&& sizes_agree(h.pool, size_of)
            &&& !is_held(h, taken.metal_buffer)
        }),
{
    lemma_pool_history(events, size_of);
    let h = pool_history(events);
    if h.pool.buffers.len() > 0 {
        assert(h.pool.buffers.contains(h.pool.buffers[h.pool.buffers.len() - 1]));
    }
}

} // verus!
