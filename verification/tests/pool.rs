use scene_renderer::descriptors::ResourceOptions;
use scene_renderer::pool::{
    write_only_buffer_options, Acquired, BufferAllocation, InstanceBuffer, InstanceBufferPool,
    INITIAL_BUFFER_SIZE, MAX_BUFFER_SIZE,
};

fn allocation(size: usize, options: ResourceOptions) -> Acquired<u32> {
    Acquired::Allocate(BufferAllocation { size, options })
}

#[test]
fn a_fresh_pool_asks_for_two_mebibytes() {
    let mut pool: InstanceBufferPool<u32> = InstanceBufferPool::default();
    assert_eq!(INITIAL_BUFFER_SIZE, 2 * 1024 * 1024);
    assert_eq!(
        pool.acquire(true),
        allocation(2 * 1024 * 1024, ResourceOptions::SharedWriteCombined)
    );
    assert_eq!(pool.acquire(false), allocation(2 * 1024 * 1024, ResourceOptions::Managed));
}

#[test]
fn storage_is_shared_only_with_unified_memory() {
    assert_eq!(write_only_buffer_options(true), ResourceOptions::SharedWriteCombined);
    assert_eq!(write_only_buffer_options(false), ResourceOptions::Managed);
}

#[test]
fn the_buffer_that_came_back_last_goes_out_first() {
    let mut pool: InstanceBufferPool<u32> = InstanceBufferPool::default();
    let size = pool.buffer_size;
    pool.release(InstanceBuffer { metal_buffer: 1, size });
    pool.release(InstanceBuffer { metal_buffer: 2, size });
    assert_eq!(pool.acquire(true), Acquired::Pooled(InstanceBuffer { metal_buffer: 2, size }));
    assert_eq!(pool.acquire(true), Acquired::Pooled(InstanceBuffer { metal_buffer: 1, size }));
    assert_eq!(pool.acquire(true), allocation(size, ResourceOptions::SharedWriteCombined));
}

#[test]
fn buffers_of_an_old_size_are_given_up() {
    let mut pool: InstanceBufferPool<u32> = InstanceBufferPool::default();
    let size = pool.buffer_size;
    pool.release(InstanceBuffer { metal_buffer: 1, size });
    pool.reset(512);
    assert_eq!(pool.buffers, vec![]);
    pool.release(InstanceBuffer { metal_buffer: 2, size });
    assert_eq!(pool.acquire(false), allocation(512, ResourceOptions::Managed));
}

#[test]
fn a_fresh_pool_can_grow_seven_times() {
    let mut pool: InstanceBufferPool<u32> = InstanceBufferPool::default();
    let mut growths = 0;
    while pool.grow().is_ok() {
        growths += 1;
    }
    assert_eq!(growths, 7);
    assert_eq!(pool.buffer_size, 256 * 1024 * 1024);
    assert_eq!(pool.grow(), Err(MAX_BUFFER_SIZE));
}

#[test]
fn growing_ends_at_the_limit_or_just_above() {
    let mut pool: InstanceBufferPool<u32> = InstanceBufferPool::default();
    pool.reset(MAX_BUFFER_SIZE - 1);
    pool.buffers.push(9);
    assert_eq!(pool.grow(), Ok(()));
    assert_eq!(pool.buffer_size, 2 * MAX_BUFFER_SIZE - 2);
    assert_eq!(pool.buffers, vec![]);
    pool.buffers.push(9);
    assert_eq!(pool.grow(), Err(2 * MAX_BUFFER_SIZE - 2));
    assert_eq!(pool.buffers, vec![9]);
    pool.reset(1);
    let mut growths = 0;
    while pool.grow().is_ok() {
        growths += 1;
    }
    assert_eq!(growths, 28);
}

/// Every buffer that is out has one holder, and what comes back goes out again.
#[test]
fn buffers_that_are_out_are_not_handed_out_again() {
    let mut pool: InstanceBufferPool<u32> = InstanceBufferPool::default();
    let mut allocated = 0;
    let mut take = |pool: &mut InstanceBufferPool<u32>| match pool.acquire(true) {
        Acquired::Pooled(buffer) => buffer,
        Acquired::Allocate(allocation) => {
            allocated += 1;
            InstanceBuffer { metal_buffer: allocated, size: allocation.size }
        }
    };
    let first = take(&mut pool);
    let second = take(&mut pool);
    pool.release(first);
    let third = take(&mut pool);
    let fourth = take(&mut pool);
    assert_eq!(second.metal_buffer, 2);
    assert_eq!(third.metal_buffer, 1);
    assert_eq!(fourth.metal_buffer, 3);
}
