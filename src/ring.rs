//! The fixed-capacity ring buffers of the `ringbuffer` crate that the controller
//! keeps its windows and history in. Each buffer type is held opaquely; what it
//! holds, oldest first, is named by a spec function, and each operation that the
//! logic uses says over that name what the crate's implementation does.
use vstd::prelude::*;
use ringbuffer::{ConstGenericRingBuffer, RingBuffer, RingBufferExt, RingBufferWrite};

verus! {

/// `s` after pushing `v` into a ring of capacity `cap`: appended, and the oldest
/// element dropped when the ring was already full.
pub open spec fn ring_push<T>(s: Seq<T>, v: T, cap: nat) -> Seq<T> {
    if s.len() < cap {
        s.push(v)
    } else {
        s.drop_first().push(v)
    }
}

/// `s` after pushing each of `xs` in turn into a ring of capacity `cap`.
pub open spec fn ring_fill<T>(s: Seq<T>, xs: Seq<T>, cap: nat) -> Seq<T>
    decreases xs.len(),
{
    if xs.len() == 0 {
        s
    } else {
        ring_push(ring_fill(s, xs.drop_last(), cap), xs.last(), cap)
    }
}

/// The first index of the last `cap` elements of a sequence of length `n`.
pub open spec fn window_start(n: int, cap: int) -> int {
    if n > cap {
        n - cap
    } else {
        0
    }
}

/// A ring of capacity `cap` that starts empty holds, after any sequence of
/// pushes, exactly the last `cap` values pushed (all of them, while fewer).
pub proof fn lemma_ring_window<T>(xs: Seq<T>, cap: nat)
    requires
        cap > 0,
    ensures
        ring_fill(Seq::<T>::empty(), xs, cap) == xs.subrange(
            window_start(xs.len() as int, cap as int),
            xs.len() as int,
        ),
    decreases xs.len(),
{
    if xs.len() > 0 {
        let n = xs.len() as int;
        lemma_ring_window(xs.drop_last(), cap);
        let prev = ring_fill(Seq::<T>::empty(), xs.drop_last(), cap);
        assert(prev == xs.subrange(window_start(n - 1, cap as int), n - 1));
        if n - 1 < cap {
            assert(prev.push(xs.last()) =~= xs.subrange(window_start(n, cap as int), n));
        } else {
            assert(prev.drop_first().push(xs.last()) =~= xs.subrange(window_start(n, cap as int), n));
        }
    }
}

/// Sixteen raw temperature codes.
#[verifier::external_body]
pub struct SampleRing {
    inner: ConstGenericRingBuffer<u16, 16>,
}

/// What a `SampleRing` holds, oldest first.
pub uninterp spec fn samples_of(r: SampleRing) -> Seq<u16>;

/// Sixteen error terms.
#[verifier::external_body]
pub struct ErrorRing {
    inner: ConstGenericRingBuffer<i32, 16>,
}

/// What an `ErrorRing` holds, oldest first.
pub uninterp spec fn errors_of(r: ErrorRing) -> Seq<i32>;

/// One value per display column, 128 columns.
#[verifier::external_body]
pub struct ColumnRing {
    inner: ConstGenericRingBuffer<u16, 128>,
}

/// What a `ColumnRing` holds, oldest first.
pub uninterp spec fn columns_of(r: ColumnRing) -> Seq<u16>;

impl SampleRing {
    /// Relies on `ConstGenericRingBuffer::new`: an empty buffer (16 is a power of
    /// two, so its capacity check passes).
    #[verifier::external_body]
    pub fn new() -> (r: Self)
        ensures
            samples_of(r) == Seq::<u16>::empty(),
    {
        SampleRing { inner: ConstGenericRingBuffer::new() }
    }

    /// Relies on `RingBufferWrite::push`: appends, overwriting the oldest once full.
    #[verifier::external_body]
    pub fn push(&mut self, v: u16)
        ensures
            samples_of(*final(self)) == ring_push(samples_of(*old(self)), v, 16),
    {
        self.inner.push(v)
    }

    /// Relies on `RingBuffer::len`: the number of elements held.
    #[verifier::external_body]
    pub fn len(&self) -> (r: usize)
        ensures
            r == samples_of(*self).len(),
    {
        self.inner.len()
    }

    /// Relies on `RingBufferExt::get`: a non-negative index counts from the
    /// oldest element, and below the length it gives that element.
    #[verifier::external_body]
    pub fn get(&self, i: usize) -> (r: u16)
        requires
            i < samples_of(*self).len(),
        ensures
            r == samples_of(*self)[i as int],
    {
        *self.inner.get(i as isize).unwrap()
    }
}

impl ErrorRing {
    /// Relies on `ConstGenericRingBuffer::new`: an empty buffer.
    #[verifier::external_body]
    pub fn new() -> (r: Self)
        ensures
            errors_of(r) == Seq::<i32>::empty(),
    {
        ErrorRing { inner: ConstGenericRingBuffer::new() }
    }

    /// Relies on `RingBufferWrite::push`: appends, overwriting the oldest once full.
    #[verifier::external_body]
    pub fn push(&mut self, v: i32)
        ensures
            errors_of(*final(self)) == ring_push(errors_of(*old(self)), v, 16),
    {
        self.inner.push(v)
    }

    /// Relies on `RingBufferExt::fill`: clears the buffer, then writes `v` into
    /// every one of its 16 slots.
    #[verifier::external_body]
    pub fn fill(&mut self, v: i32)
        ensures
            errors_of(*final(self)) == Seq::new(16, |i: int| v),
    {
        self.inner.fill(v)
    }

    /// Relies on `RingBuffer::len`: the number of elements held.
    #[verifier::external_body]
    pub fn len(&self) -> (r: usize)
        ensures
            r == errors_of(*self).len(),
    {
        self.inner.len()
    }

    /// Relies on `RingBufferExt::get`: a non-negative index counts from the
    /// oldest element, and below the length it gives that element.
    #[verifier::external_body]
    pub fn get(&self, i: usize) -> (r: i32)
        requires
            i < errors_of(*self).len(),
        ensures
            r == errors_of(*self)[i as int],
    {
        *self.inner.get(i as isize).unwrap()
    }
}

impl ColumnRing {
    /// Relies on `ConstGenericRingBuffer::new`: an empty buffer (128 is a power of two).
    #[verifier::external_body]
    pub fn new() -> (r: Self)
        ensures
            columns_of(r) == Seq::<u16>::empty(),
    {
        ColumnRing { inner: ConstGenericRingBuffer::new() }
    }

    /// Relies on `RingBufferWrite::push`: appends, overwriting the oldest once full.
    #[verifier::external_body]
    pub fn push(&mut self, v: u16)
        ensures
            columns_of(*final(self)) == ring_push(columns_of(*old(self)), v, 128),
    {
        self.inner.push(v)
    }

    /// Relies on `RingBufferExt::back_mut`: on a buffer that is not empty it gives
    /// the newest element, which is overwritten with `v`.
    #[verifier::external_body]
    pub fn set_newest(&mut self, v: u16)
        requires
            columns_of(*old(self)).len() > 0,
        ensures
            columns_of(*final(self)) == columns_of(*old(self)).update(
                columns_of(*old(self)).len() - 1,
                v,
            ),
    {
        if let Some(slot) = self.inner.back_mut() {
            *slot = v;
        }
    }

    /// Relies on `RingBuffer::len`: the number of elements held.
    #[verifier::external_body]
    pub fn len(&self) -> (r: usize)
        ensures
            r == columns_of(*self).len(),
    {
        self.inner.len()
    }

    /// Relies on `RingBufferExt::get`: a non-negative index counts from the
    /// oldest element, and below the length it gives that element.
    #[verifier::external_body]
    pub fn get(&self, i: usize) -> (r: u16)
        requires
            i < columns_of(*self).len(),
        ensures
            r == columns_of(*self)[i as int],
    {
        *self.inner.get(i as isize).unwrap()
    }
}

} // verus!
