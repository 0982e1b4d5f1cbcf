//! Slab and buffer pool tests.

use mytunnel::pool::{BufferPool, BufferSize};
use mytunnel::slab::ConnectionSlab;

#[test]
fn test_slab_insert_remove() {
    let mut slab: ConnectionSlab<u64> = ConnectionSlab::new(100);

    let h1 = slab.insert(42).unwrap();
    let h2 = slab.insert(100).unwrap();

    assert_eq!(slab.len(), 2);
    assert_eq!(*slab.get(h1).unwrap(), 42);
    assert_eq!(*slab.get(h2).unwrap(), 100);

    assert_eq!(slab.remove(h1), Some(42));
    assert_eq!(slab.len(), 1);
    assert!(slab.get(h1).is_none());
}

#[test]
fn test_slab_reuse() {
    let mut slab: ConnectionSlab<u64> = ConnectionSlab::new(2);

    let h1 = slab.insert(1).unwrap();
    let _h2 = slab.insert(2).unwrap();
    assert!(slab.insert(3).is_none());

    slab.remove(h1);
    let h3 = slab.insert(3).unwrap();
    assert_eq!(h3.index(), h1.index());
}

#[test]
fn test_slab_capacity_boundary() {
    // fill to capacity - 1, then capacity, then one more
    let capacity = 70usize;
    let mut slab: ConnectionSlab<usize> = ConnectionSlab::new(capacity);
    for v in 0..capacity - 1 {
        assert!(slab.insert(v).is_some());
    }
    assert_eq!(slab.len(), capacity - 1);
    assert!(!slab.is_full());

    assert!(slab.insert(capacity - 1).is_some());
    assert_eq!(slab.len(), capacity);
    assert!(slab.is_full());

    assert!(slab.insert(capacity).is_none());
    assert_eq!(slab.len(), capacity);
}

#[test]
fn test_slab_lowest_slot_first() {
    let mut slab: ConnectionSlab<u8> = ConnectionSlab::new(130);
    let mut handles = Vec::new();
    for v in 0..130u8 {
        let h = slab.insert(v).unwrap();
        assert_eq!(h.index(), v as usize);
        handles.push(h);
    }
    // free two slots in different bitset words; the lower one is reused first
    slab.remove(handles[100]);
    slab.remove(handles[3]);
    assert_eq!(slab.insert(200).unwrap().index(), 3);
    assert_eq!(slab.insert(201).unwrap().index(), 100);
}

#[test]
fn test_buffer_pool_acquire_release() {
    let mut pool = BufferPool::new(10, 5, 2);

    let buf = pool.acquire(BufferSize::Small).unwrap();
    assert_eq!(buf.capacity(), 4096);

    let stats = pool.stats();
    assert_eq!(stats.small_in_use, 1);

    pool.release(buf);

    let stats = pool.stats();
    assert_eq!(stats.small_in_use, 0);
}

#[test]
fn test_buffer_pool_exhaustion() {
    let mut pool = BufferPool::new(2, 1, 1);

    let _b1 = pool.acquire(BufferSize::Small).unwrap();
    let _b2 = pool.acquire(BufferSize::Small).unwrap();

    assert!(pool.acquire(BufferSize::Small).is_none());

    let b3 = pool.acquire_or_alloc(BufferSize::Small);
    assert_eq!(b3.capacity(), 4096);
}

#[test]
fn test_buffer_pool_conservation() {
    // in_use + free + overflow stays equal to allocated through a workload
    let mut pool = BufferPool::new(2, 1, 1);
    let b1 = pool.acquire(BufferSize::Small).unwrap();
    let b2 = pool.acquire_or_alloc(BufferSize::Small);
    let b3 = pool.acquire_or_alloc(BufferSize::Small);
    let stats = pool.stats();
    // two from the queue, one overflow
    assert_eq!(stats.small_allocated, 3);
    assert_eq!(stats.small_in_use, 2);

    // releases refill the queue by exactly one each, within its bound
    pool.release(b1);
    pool.release(b2);
    let queued_third = pool.release(b3);
    // the queue holds two slots, so the third region is surplus and freed
    assert!(!queued_third);
    let stats = pool.stats();
    assert_eq!(stats.small_allocated, 2);
    assert_eq!(stats.small_in_use, 0);
}

#[test]
fn test_buffer_tiers() {
    assert_eq!(BufferSize::Small.as_usize(), 4096);
    assert_eq!(BufferSize::Medium.as_usize(), 16384);
    assert_eq!(BufferSize::Large.as_usize(), 65536);

    let mut pool = BufferPool::new(1, 1, 1);
    let m = pool.acquire(BufferSize::Medium).unwrap();
    assert_eq!(m.capacity(), 16384);
    assert_eq!(m.size_tier(), BufferSize::Medium);
    let l = pool.acquire(BufferSize::Large).unwrap();
    assert_eq!(l.capacity(), 65536);
    pool.release(m);
    pool.release(l);
    let stats = pool.stats();
    assert_eq!(stats.medium_in_use, 0);
    assert_eq!(stats.large_in_use, 0);
}

#[test]
fn test_buffer_write_read() {
    let mut pool = BufferPool::new(1, 1, 1);
    let mut buf = pool.acquire(BufferSize::Small).unwrap();
    {
        let slice = buf.as_mut_slice();
        slice[0] = 0xaa;
        slice[4095] = 0x55;
    }
    assert_eq!(buf.as_slice()[0], 0xaa);
    assert_eq!(buf.as_slice()[4095], 0x55);
    pool.release(buf);
}
