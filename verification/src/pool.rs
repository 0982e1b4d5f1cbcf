//! Fixed-size buffer pool.
//!
//! Three bounded lock-free queues, one per size tier, filled with
//! pre-allocated byte buffers. `acquire` pops a buffer and `release` pushes it
//! back, so the forwarding hot path allocates nothing. `acquire_or_alloc`
//! falls back to a fresh allocation when a tier is drained; such an overflow
//! buffer also returns to the queue on release, within the queue's capacity
//! bound.

use vstd::prelude::*;

verus! {

/// What a bounded queue of byte buffers currently holds, front first.
pub uninterp spec fn queue_contents(q: crossbeam::queue::ArrayQueue<Vec<u8>>) -> Seq<Seq<u8>>;

/// The fixed capacity a bounded queue was created with.
pub uninterp spec fn queue_capacity(q: crossbeam::queue::ArrayQueue<Vec<u8>>) -> nat;

#[verifier::external_type_specification]
#[verifier::external_body]
#[verifier::reject_recursive_types(T)]
pub struct ExArrayQueue<T>(crossbeam::queue::ArrayQueue<T>);

/// Relies on crossbeam's `ArrayQueue::new`: an empty bounded queue of the
/// given capacity. The call panics on a zero capacity and on one so large
/// that no power of two exceeds it, so those are excluded here.
#[verifier::external_body]
fn queue_new(cap: usize) -> (q: crossbeam::queue::ArrayQueue<Vec<u8>>)
    requires
        0 < cap,
        cap + 1 <= 0x8000_0000_0000_0000,
    ensures
        queue_contents(q) == Seq::<Seq<u8>>::empty(),
        queue_capacity(q) == cap,
{
    crossbeam::queue::ArrayQueue::new(cap)
}

/// Relies on crossbeam's `ArrayQueue::push`: appends at the tail, or hands
/// the value back unchanged when the queue is full.
#[verifier::external_body]
fn queue_push(q: &mut crossbeam::queue::ArrayQueue<Vec<u8>>, value: Vec<u8>) -> (r: Result<
    (),
    Vec<u8>,
>)
    ensures
        queue_capacity(*final(q)) == queue_capacity(*old(q)),
        match r {
            Ok(()) => queue_contents(*old(q)).len() < queue_capacity(*old(q))
                && queue_contents(*final(q)) == queue_contents(*old(q)).push(value@),
            Err(v) => queue_contents(*old(q)).len() == queue_capacity(*old(q))
                && queue_contents(*final(q)) == queue_contents(*old(q)) && v@ == value@,
        },
{
    q.push(value)
}

/// Relies on crossbeam's `ArrayQueue::pop`: takes the element at the head,
/// or `None` when the queue is empty.
#[verifier::external_body]
fn queue_pop(q: &mut crossbeam::queue::ArrayQueue<Vec<u8>>) -> (r: Option<Vec<u8>>)
    ensures
        queue_capacity(*final(q)) == queue_capacity(*old(q)),
        match r {
            Some(v) => queue_contents(*old(q)).len() > 0 && v@ == queue_contents(*old(q))[0]
                && queue_contents(*final(q)) == queue_contents(*old(q)).subrange(
                1,
                queue_contents(*old(q)).len() as int,
            ),
            None => queue_contents(*old(q)).len() == 0 && queue_contents(*final(q))
                == queue_contents(*old(q)),
        },
{
    q.pop()
}

/// Buffer size tiers.
#[derive(Debug, Clone, Copy, PartialEq, Eq, Structural)]
pub enum BufferSize {
    /// 4 KB, for small packets and headers.
    Small,
    /// 16 KB, for typical data transfers.
    Medium,
    /// 64 KB, for large transfers and batching.
    Large,
}

impl BufferSize {
    /// The tier's byte size.
    pub open spec fn spec_size(self) -> int {
        match self {
            BufferSize::Small => 4096,
            BufferSize::Medium => 16384,
            BufferSize::Large => 65536,
        }
    }

    /// The tier's byte size.
    pub fn as_usize(self) -> (r: usize)
        ensures
            r == self.spec_size(),
    {
        match self {
            BufferSize::Small => 4096,
            BufferSize::Medium => 16384,
            BufferSize::Large => 65536,
        }
    }
}

/// A byte buffer handed out by the pool. Its backing region never shrinks and
/// never reallocates; give it back with [`BufferPool::release`].
pub struct Buffer {
    data: Vec<u8>,
    size: BufferSize,
    from_overflow: bool,
}

impl View for Buffer {
    type V = Seq<u8>;

    closed spec fn view(&self) -> Seq<u8> {
        self.data@
    }
}

impl Buffer {
    /// The size tier the buffer belongs to.
    pub closed spec fn spec_tier(&self) -> BufferSize {
        self.size
    }

    /// Whether the buffer was allocated past the tier's pre-allocated stock.
    pub closed spec fn spec_overflow(&self) -> bool {
        self.from_overflow
    }

    /// A buffer is whole while its region still has its tier's full size.
    pub open spec fn wf(&self) -> bool {
        self@.len() == self.spec_tier().spec_size()
    }

    /// The buffer's capacity in bytes.
    pub fn capacity(&self) -> (r: usize)
        ensures
            r == self@.len(),
    {
        self.data.len()
    }

    /// The buffer's size tier.
    pub fn size_tier(&self) -> (r: BufferSize)
        ensures
            r == self.spec_tier(),
    {
        self.size
    }

    /// Read access to the bytes.
    pub fn as_slice(&self) -> (r: &[u8])
        ensures
            r@ == self@,
    {
        self.data.as_slice()
    }

    /// Write access to the bytes. A slice cannot change its length, so the
    /// buffer keeps its size.
    pub fn as_mut_slice(&mut self) -> (r: &mut [u8])
        ensures
            r@ == old(self)@,
            final(self)@ == final(r)@,
            final(self).spec_tier() == old(self).spec_tier(),
            final(self).spec_overflow() == old(self).spec_overflow(),
    {
        self.data.as_mut_slice()
    }
}

/// A byte vector of the given length.
fn zero_vec(n: usize) -> (v: Vec<u8>)
    ensures
        v@.len() == n,
{
    let mut v: Vec<u8> = Vec::with_capacity(n);
    let mut i: usize = 0;
    while i < n
        invariant
            i <= n,
            v@.len() == i,
        decreases n - i,
    {
        v.push(0u8);
        i += 1;
    }
    v
}

/// One size tier: a bounded free queue plus its accounting counters.
struct Tier {
    queue: crossbeam::queue::ArrayQueue<Vec<u8>>,
    size: BufferSize,
    /// Buffers this tier accounts for: outstanding plus queued.
    allocated: usize,
    /// Outstanding buffers that came out of the free queue.
    in_use: usize,
    /// Outstanding buffers allocated past the pre-allocated stock.
    overflow: usize,
}

impl Tier {
    /// Conservation: outstanding buffers plus the free queue's length plus
    /// outstanding overflow equals the allocated count, and every queued
    /// region has the tier's size.
    spec fn wf(&self) -> bool {
        &&& self.in_use + queue_contents(self.queue).len() + self.overflow == self.allocated
        &&& queue_contents(self.queue).len() <= queue_capacity(self.queue)
        &&& queue_capacity(self.queue) >= 1
        &&& forall|i: int|
            0 <= i < queue_contents(self.queue).len() ==> #[trigger] queue_contents(
                self.queue,
            )[i].len() == self.size.spec_size()
    }

    fn new(size: BufferSize, count: usize) -> (r: Self)
        requires
            0 < count,
            count + 1 <= 0x8000_0000_0000_0000,
        ensures
            r.wf(),
            r.size == size,
            r.allocated == count,
            r.in_use == 0,
            r.overflow == 0,
            queue_contents(r.queue).len() == count,
            queue_capacity(r.queue) == count,
    {
        let mut queue = queue_new(count);
        let byte_len = size.as_usize();
        let mut i: usize = 0;
        while i < count
            invariant
                i <= count,
                queue_contents(queue).len() == i,
                queue_capacity(queue) == count,
                byte_len == size.spec_size(),
                forall|j: int|
                    0 <= j < i ==> #[trigger] queue_contents(queue)[j].len() == size.spec_size(),
            decreases count - i,
        {
            let buf = zero_vec(byte_len);
            let pushed = queue_push(&mut queue, buf);
            proof {
                // the queue was created with capacity `count` and holds `i < count`
                assert(pushed is Ok);
            }
            i += 1;
        }
        Tier { queue, size, allocated: count, in_use: 0, overflow: 0 }
    }

    fn acquire(&mut self) -> (r: Option<Buffer>)
        requires
            old(self).wf(),
        ensures
            final(self).wf(),
            final(self).size == old(self).size,
            final(self).allocated == old(self).allocated,
            final(self).overflow == old(self).overflow,
            queue_capacity(final(self).queue) == queue_capacity(old(self).queue),
            match r {
                Some(buf) => queue_contents(old(self).queue).len() > 0 && buf.wf()
                    && buf.spec_tier() == old(self).size && !buf.spec_overflow()
                    && final(self).in_use == old(self).in_use + 1 && queue_contents(
                    final(self).queue,
                ).len() == queue_contents(old(self).queue).len() - 1,
                None => queue_contents(old(self).queue).len() == 0 && final(self).in_use == old(
                    self,
                ).in_use && queue_contents(final(self).queue) == queue_contents(old(self).queue),
            },
    {
        match queue_pop(&mut self.queue) {
            Some(data) => {
                proof {
                    assert(queue_contents(old(self).queue)[0].len() == old(
                        self,
                    ).size.spec_size());
                    assert forall|i: int|
                        0 <= i < queue_contents(self.queue).len() implies #[trigger] queue_contents(
                        self.queue,
                    )[i].len() == self.size.spec_size() by {
                        assert(queue_contents(self.queue)[i] == queue_contents(old(self).queue)[i
                            + 1]);
                    }
                }
                self.in_use = self.in_use + 1;
                Some(Buffer { data, size: self.size, from_overflow: false })
            },
            None => None,
        }
    }

    fn acquire_or_alloc(&mut self) -> (r: Buffer)
        requires
            old(self).wf(),
            old(self).allocated < usize::MAX,
        ensures
            final(self).wf(),
            final(self).size == old(self).size,
            queue_capacity(final(self).queue) == queue_capacity(old(self).queue),
            r.wf(),
            r.spec_tier() == old(self).size,
            if queue_contents(old(self).queue).len() > 0 {
                final(self).allocated == old(self).allocated && final(self).in_use == old(self).in_use + 1 && final(self).overflow == old(self).overflow && !r.spec_overflow()
            } else {
                final(self).allocated == old(self).allocated + 1 && final(self).in_use == old(self).in_use && final(self).overflow == old(self).overflow + 1 && r.spec_overflow()
            },
    {
        match self.acquire() {
            Some(buf) => buf,
            None => {
                let data = zero_vec(self.size.as_usize());
                self.allocated = self.allocated + 1;
                self.overflow = self.overflow + 1;
                Buffer { data, size: self.size, from_overflow: true }
            },
        }
    }

    fn release(&mut self, buf: Buffer) -> (queued: bool)
        requires
            old(self).wf(),
            buf.wf(),
            buf.spec_tier() == old(self).size,
            buf.spec_overflow() ==> old(self).overflow >= 1,
            !buf.spec_overflow() ==> old(self).in_use >= 1,
        ensures
            final(self).wf(),
            final(self).size == old(self).size,
            queue_capacity(final(self).queue) == queue_capacity(old(self).queue),
            final(self).in_use == old(self).in_use - (if buf.spec_overflow() {
                0int
            } else {
                1int
            }),
            final(self).overflow == old(self).overflow - (if buf.spec_overflow() {
                1int
            } else {
                0int
            }),
            queued == (queue_contents(old(self).queue).len() < queue_capacity(old(self).queue)),
            if queued {
                final(self).allocated == old(self).allocated && queue_contents(
                    final(self).queue,
                ).len() == queue_contents(old(self).queue).len() + 1
            } else {
                final(self).allocated == old(self).allocated - 1 && queue_contents(
                    final(self).queue,
                ) == queue_contents(old(self).queue)
            },
    {
        let Buffer { data, size: _, from_overflow } = buf;
        if from_overflow {
            self.overflow = self.overflow - 1;
        } else {
            self.in_use = self.in_use - 1;
        }
        match queue_push(&mut self.queue, data) {
            Ok(()) => true,
            Err(_dropped) => {
                // the queue is at capacity: the region is surplus and is freed
                self.allocated = self.allocated - 1;
                false
            },
        }
    }
}

/// Statistics of the pool, per tier.
#[derive(Debug, Clone)]
pub struct BufferPoolStats {
    /// Buffers the small tier accounts for.
    pub small_allocated: usize,
    /// Outstanding small buffers from the free queue.
    pub small_in_use: usize,
    /// Buffers the medium tier accounts for.
    pub medium_allocated: usize,
    /// Outstanding medium buffers from the free queue.
    pub medium_in_use: usize,
    /// Buffers the large tier accounts for.
    pub large_allocated: usize,
    /// Outstanding large buffers from the free queue.
    pub large_in_use: usize,
}

/// Whether the tier a size selects shows the same state in two pools.
pub open spec fn tier_unchanged(a: &BufferPool, b: &BufferPool, s: BufferSize) -> bool {
    &&& a.spec_allocated(s) == b.spec_allocated(s)
    &&& a.spec_in_use(s) == b.spec_in_use(s)
    &&& a.spec_overflow(s) == b.spec_overflow(s)
    &&& a.spec_free_len(s) == b.spec_free_len(s)
    &&& a.spec_queue_capacity(s) == b.spec_queue_capacity(s)
}

/// A buffer pool of three pre-allocated size tiers.
pub struct BufferPool {
    small: Tier,
    medium: Tier,
    large: Tier,
}

impl BufferPool {
    /// The tier a size selects.
    spec fn tier_of(&self, size: BufferSize) -> Tier {
        match size {
            BufferSize::Small => self.small,
            BufferSize::Medium => self.medium,
            BufferSize::Large => self.large,
        }
    }

    /// Buffers the tier accounts for.
    pub closed spec fn spec_allocated(&self, size: BufferSize) -> int {
        self.tier_of(size).allocated as int
    }

    /// Outstanding buffers of the tier that came from the free queue.
    pub closed spec fn spec_in_use(&self, size: BufferSize) -> int {
        self.tier_of(size).in_use as int
    }

    /// Outstanding overflow buffers of the tier.
    pub closed spec fn spec_overflow(&self, size: BufferSize) -> int {
        self.tier_of(size).overflow as int
    }

    /// Length of the tier's free queue.
    pub closed spec fn spec_free_len(&self, size: BufferSize) -> int {
        queue_contents(self.tier_of(size).queue).len() as int
    }

    /// Capacity of the tier's free queue.
    pub closed spec fn spec_queue_capacity(&self, size: BufferSize) -> int {
        queue_capacity(self.tier_of(size).queue) as int
    }

    /// Each tier is well formed and tied to its size.
    pub closed spec fn wf(&self) -> bool {
        &&& self.small.wf()
        &&& self.medium.wf()
        &&& self.large.wf()
        &&& self.small.size == BufferSize::Small
        &&& self.medium.size == BufferSize::Medium
        &&& self.large.size == BufferSize::Large
    }

    /// Create a pool with the given number of pre-allocated buffers per tier.
    /// The queue backing each tier needs at least one slot.
    pub fn new(small_count: usize, medium_count: usize, large_count: usize) -> (r: Self)
        requires
            0 < small_count,
            0 < medium_count,
            0 < large_count,
            small_count + 1 <= 0x8000_0000_0000_0000,
            medium_count + 1 <= 0x8000_0000_0000_0000,
            large_count + 1 <= 0x8000_0000_0000_0000,
        ensures
            r.wf(),
            r.spec_allocated(BufferSize::Small) == small_count,
            r.spec_allocated(BufferSize::Medium) == medium_count,
            r.spec_allocated(BufferSize::Large) == large_count,
            r.spec_free_len(BufferSize::Small) == small_count,
            r.spec_free_len(BufferSize::Medium) == medium_count,
            r.spec_free_len(BufferSize::Large) == large_count,
            r.spec_queue_capacity(BufferSize::Small) == small_count,
            r.spec_queue_capacity(BufferSize::Medium) == medium_count,
            r.spec_queue_capacity(BufferSize::Large) == large_count,
            forall|size: BufferSize| r.spec_in_use(size) == 0 && r.spec_overflow(size) == 0,
    {
        BufferPool {
            small: Tier::new(BufferSize::Small, small_count),
            medium: Tier::new(BufferSize::Medium, medium_count),
            large: Tier::new(BufferSize::Large, large_count),
        }
    }

    /// Acquire a buffer of the given tier, or `None` when the tier's free
    /// queue is drained.
    pub fn acquire(&mut self, size: BufferSize) -> (r: Option<Buffer>)
        requires
            old(self).wf(),
        ensures
            final(self).wf(),
            forall|s: BufferSize| s != size ==> tier_unchanged(old(self), final(self), s),
            final(self).spec_allocated(size) == old(self).spec_allocated(size),
            final(self).spec_overflow(size) == old(self).spec_overflow(size),
            final(self).spec_queue_capacity(size) == old(self).spec_queue_capacity(size),
            match r {
                Some(buf) => old(self).spec_free_len(size) > 0 && buf.wf() && buf.spec_tier()
                    == size && !buf.spec_overflow() && final(self).spec_in_use(size) == old(self).spec_in_use(size) + 1 && final(self).spec_free_len(size) == old(self).spec_free_len(size) - 1,
                None => old(self).spec_free_len(size) == 0 && final(self).spec_in_use(size)
                    == old(self).spec_in_use(size) && final(self).spec_free_len(size) == old(
                    self,
                ).spec_free_len(size),
            },
    {
        match size {
            BufferSize::Small => self.small.acquire(),
            BufferSize::Medium => self.medium.acquire(),
            BufferSize::Large => self.large.acquire(),
        }
    }

    /// Acquire a buffer, allocating a fresh overflow buffer when the tier's
    /// free queue is drained.
    pub fn acquire_or_alloc(&mut self, size: BufferSize) -> (r: Buffer)
        requires
            old(self).wf(),
            old(self).spec_allocated(size) < usize::MAX,
        ensures
            final(self).wf(),
            forall|s: BufferSize| s != size ==> tier_unchanged(old(self), final(self), s),
            final(self).spec_queue_capacity(size) == old(self).spec_queue_capacity(size),
            r.wf(),
            r.spec_tier() == size,
            if old(self).spec_free_len(size) > 0 {
                final(self).spec_allocated(size) == old(self).spec_allocated(size) && final(self).spec_in_use(size) == old(self).spec_in_use(size) + 1 && final(self).spec_overflow(size) == old(self).spec_overflow(size) && !r.spec_overflow()
            } else {
                final(self).spec_allocated(size) == old(self).spec_allocated(size) + 1 && final(self).spec_in_use(size) == old(self).spec_in_use(size) && final(self).spec_overflow(
                    size,
                ) == old(self).spec_overflow(size) + 1 && r.spec_overflow()
            },
    {
        match size {
            BufferSize::Small => self.small.acquire_or_alloc(),
            BufferSize::Medium => self.medium.acquire_or_alloc(),
            BufferSize::Large => self.large.acquire_or_alloc(),
        }
    }

    /// Return a buffer to its tier. The free queue grows by exactly one,
    /// unless it is already at capacity, in which case the surplus region is
    /// freed and the tier accounts for one buffer fewer.
    pub fn release(&mut self, buf: Buffer) -> (queued: bool)
        requires
            old(self).wf(),
            buf.wf(),
            buf.spec_overflow() ==> old(self).spec_overflow(buf.spec_tier()) >= 1,
            !buf.spec_overflow() ==> old(self).spec_in_use(buf.spec_tier()) >= 1,
        ensures
            final(self).wf(),
            forall|s: BufferSize|
                s != buf.spec_tier() ==> tier_unchanged(old(self), final(self), s),
            final(self).spec_queue_capacity(buf.spec_tier()) == old(self).spec_queue_capacity(
                buf.spec_tier(),
            ),
            final(self).spec_in_use(buf.spec_tier()) == old(self).spec_in_use(buf.spec_tier()) - (
            if buf.spec_overflow() {
                0int
            } else {
                1int
            }),
            final(self).spec_overflow(buf.spec_tier()) == old(self).spec_overflow(buf.spec_tier())
                - (if buf.spec_overflow() {
                1int
            } else {
                0int
            }),
            queued == (old(self).spec_free_len(buf.spec_tier()) < old(self).spec_queue_capacity(
                buf.spec_tier(),
            )),
            if queued {
                final(self).spec_allocated(buf.spec_tier()) == old(self).spec_allocated(
                    buf.spec_tier(),
                ) && final(self).spec_free_len(buf.spec_tier()) == old(self).spec_free_len(
                    buf.spec_tier(),
                ) + 1
            } else {
                final(self).spec_allocated(buf.spec_tier()) == old(self).spec_allocated(
                    buf.spec_tier(),
                ) - 1 && final(self).spec_free_len(buf.spec_tier()) == old(self).spec_free_len(
                    buf.spec_tier(),
                )
            },
    {
        let size = buf.size_tier();
        match size {
            BufferSize::Small => self.small.release(buf),
            BufferSize::Medium => self.medium.release(buf),
            BufferSize::Large => self.large.release(buf),
        }
    }

    /// Snapshot the per-tier statistics.
    pub fn stats(&self) -> (r: BufferPoolStats)
        requires
            self.wf(),
        ensures
            r.small_allocated == self.spec_allocated(BufferSize::Small),
            r.small_in_use == self.spec_in_use(BufferSize::Small),
            r.medium_allocated == self.spec_allocated(BufferSize::Medium),
            r.medium_in_use == self.spec_in_use(BufferSize::Medium),
            r.large_allocated == self.spec_allocated(BufferSize::Large),
            r.large_in_use == self.spec_in_use(BufferSize::Large),
    {
        BufferPoolStats {
            small_allocated: self.small.allocated,
            small_in_use: self.small.in_use,
            medium_allocated: self.medium.allocated,
            medium_in_use: self.medium.in_use,
            large_allocated: self.large.allocated,
            large_in_use: self.large.in_use,
        }
    }
}

/// Law: in a well-formed pool, each tier's outstanding buffers plus its free
/// queue's length plus its outstanding overflow equal its allocated count.
pub proof fn lemma_pool_conservation(p: &BufferPool, size: BufferSize)
    requires
        p.wf(),
    ensures
        p.spec_in_use(size) + p.spec_free_len(size) + p.spec_overflow(size) == p.spec_allocated(
            size,
        ),
{
}

/// In a well-formed pool every tier's counters and queue length are
/// non-negative; an acquired buffer therefore leaves the counter its release
/// needs at least at one.
pub proof fn lemma_pool_counts_nonneg(p: &BufferPool, size: BufferSize)
    requires
        p.wf(),
    ensures
        p.spec_allocated(size) >= 0,
        p.spec_in_use(size) >= 0,
        p.spec_overflow(size) >= 0,
        p.spec_free_len(size) >= 0,
        p.spec_queue_capacity(size) >= 1,
{
}

} // verus!
