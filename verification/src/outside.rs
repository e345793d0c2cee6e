//! The calls into other crates. What stands in the contracts here is taken on
//! trust; everything else in this library is proved from it.

use bytes::Bytes;
use crossbeam_queue::{ArrayQueue, SegQueue};
use rayon::iter::ParallelIterator;
use rayon::slice::ParallelSlice;
use vstd::prelude::*;
use wide::{u32x4, u32x8, u64x4};

verus! {

/// `bytes::Bytes`, a shared immutable buffer.
#[verifier::external_type_specification]
#[verifier::external_body]
pub struct ExBytes(Bytes);

/// The bytes that a `Bytes` holds.
pub uninterp spec fn bytes_contents(b: Bytes) -> Seq<u8>;

/// `Bytes::new` makes a buffer without bytes.
pub assume_specification[ Bytes::new ]() -> (b: Bytes)
    ensures
        bytes_contents(b) == Seq::<u8>::empty(),
;

/// `Bytes::copy_from_slice` makes a buffer that holds the bytes of the slice.
pub assume_specification[ Bytes::copy_from_slice ](data: &[u8]) -> (b: Bytes)
    ensures
        bytes_contents(b) == data@,
;

/// Calls `rand::random` for a `u32`. The value is random, so nothing is said of it.
#[verifier::external_body]
pub(crate) fn random_u32() -> (value: u32) {
    rand::random()
}

/// Calls `std::mem::needs_drop`. It may say that a type needs to be dropped
/// where nothing would be lost without, so nothing is said of the result.
#[verifier::external_body]
pub(crate) fn needs_drop<T>() -> (drops: bool) {
    std::mem::needs_drop::<T>()
}

/// `crossbeam_queue::ArrayQueue`, a bounded queue.
#[verifier::external_type_specification]
#[verifier::external_body]
#[verifier::reject_recursive_types(T)]
pub struct ExArrayQueue<T>(ArrayQueue<T>);

/// `crossbeam_queue::SegQueue`, an unbounded queue.
#[verifier::external_type_specification]
#[verifier::external_body]
#[verifier::reject_recursive_types(T)]
pub struct ExSegQueue<T>(SegQueue<T>);

/// A bounded queue of one owner, with what it holds, first in first out. Both
/// fields are private to this file, so that only the functions below touch them.
#[verifier::reject_recursive_types(T)]
pub struct BoundedQueue<T> {
    queue: ArrayQueue<T>,
    model: Ghost<(Seq<T>, usize)>,
}

impl<T> BoundedQueue<T> {
    /// What the queue holds, the oldest element first.
    pub closed spec fn contents(&self) -> Seq<T> {
        self.model@.0
    }

    /// How many elements the queue can hold.
    pub closed spec fn limit(&self) -> usize {
        self.model@.1
    }

    /// `ArrayQueue::new`: an empty queue for `capacity` elements. It panics on a
    /// capacity of zero, or of more than half the address space.
    #[verifier::external_body]
    pub(crate) fn new(capacity: usize) -> (queue: Self)
        requires
            0 < capacity <= isize::MAX,
        ensures
            queue.contents() == Seq::<T>::empty(),
            queue.limit() == capacity,
    {
        BoundedQueue { queue: ArrayQueue::new(capacity), model: Ghost((Seq::empty(), capacity)) }
    }

    /// `ArrayQueue::push`: adds `value` at the end, or hands it back where the
    /// queue is full.
    #[verifier::external_body]
    pub(crate) fn push(&mut self, value: T) -> (result: Result<(), T>)
        ensures
            final(self).limit() == old(self).limit(),
            old(self).contents().len() < old(self).limit() ==> result is Ok
                && final(self).contents() == old(self).contents().push(value),
            old(self).contents().len() >= old(self).limit() ==> result is Err
                && result->Err_0 == value && final(self).contents() == old(self).contents(),
    {
        self.queue.push(value)
    }

    /// `ArrayQueue::pop`: takes the oldest element.
    #[verifier::external_body]
    pub(crate) fn pop(&mut self) -> (value: Option<T>)
        ensures
            final(self).limit() == old(self).limit(),
            old(self).contents().len() == 0 ==> value is None
                && final(self).contents() == old(self).contents(),
            old(self).contents().len() > 0 ==> value == Some(old(self).contents()[0])
                && final(self).contents() == old(self).contents().skip(1),
    {
        self.queue.pop()
    }

    /// `ArrayQueue::len`: the number of elements.
    #[verifier::external_body]
    pub(crate) fn len(&self) -> (n: usize)
        ensures
            n == self.contents().len(),
    {
        self.queue.len()
    }
}

/// An unbounded queue of one owner, with what it holds, first in first out. Both
/// fields are private to this file, so that only the functions below touch them.
#[verifier::reject_recursive_types(T)]
pub struct UnboundedQueue<T> {
    queue: SegQueue<T>,
    model: Ghost<Seq<T>>,
}

impl<T> UnboundedQueue<T> {
    /// What the queue holds, the oldest element first.
    pub closed spec fn contents(&self) -> Seq<T> {
        self.model@
    }

    /// `SegQueue::new`: an empty queue.
    #[verifier::external_body]
    pub(crate) fn new() -> (queue: Self)
        ensures
            queue.contents() == Seq::<T>::empty(),
    {
        UnboundedQueue { queue: SegQueue::new(), model: Ghost(Seq::empty()) }
    }

    /// `SegQueue::push`: adds `value` at the end.
    #[verifier::external_body]
    pub(crate) fn push(&mut self, value: T)
        ensures
            final(self).contents() == old(self).contents().push(value),
    {
        self.queue.push(value)
    }

    /// `SegQueue::pop`: takes the oldest element.
    #[verifier::external_body]
    pub(crate) fn pop(&mut self) -> (value: Option<T>)
        ensures
            old(self).contents().len() == 0 ==> value is None
                && final(self).contents() == old(self).contents(),
            old(self).contents().len() > 0 ==> value == Some(old(self).contents()[0])
                && final(self).contents() == old(self).contents().skip(1),
    {
        self.queue.pop()
    }

    /// `SegQueue::len`: the number of elements.
    #[verifier::external_body]
    pub(crate) fn len(&self) -> (n: usize)
        ensures
            n == self.contents().len(),
    {
        self.queue.len()
    }
}

/// `wide::u32x8`, eight integers in one register.
#[verifier::external_type_specification]
#[verifier::external_body]
pub struct ExU32x8(u32x8);

/// The integers in a `u32x8`.
pub uninterp spec fn lanes8(v: u32x8) -> Seq<u32>;

/// `u32x8::new` puts the integers of the array into a register.
pub assume_specification[ u32x8::new ](array: [u32; 8]) -> (v: u32x8)
    ensures
        lanes8(v) == array@,
;

/// `u32x8::to_array` gives the integers back.
pub assume_specification[ u32x8::to_array ](v: u32x8) -> (array: [u32; 8])
    ensures
        array@ == lanes8(v),
;

/// `wide::u32x4`, four integers in one register.
#[verifier::external_type_specification]
#[verifier::external_body]
pub struct ExU32x4(u32x4);

/// The integers in a `u32x4`.
pub uninterp spec fn lanes4(v: u32x4) -> Seq<u32>;

/// `u32x4::new` puts the integers of the array into a register.
pub assume_specification[ u32x4::new ](array: [u32; 4]) -> (v: u32x4)
    ensures
        lanes4(v) == array@,
;

/// `u32x4::to_array` gives the integers back.
pub assume_specification[ u32x4::to_array ](v: u32x4) -> (array: [u32; 4])
    ensures
        array@ == lanes4(v),
;

/// Calls the subtraction of `wide::u64x4`, which takes `subtrahend` from each of
/// the four integers and wraps around where the difference would be negative.
#[verifier::external_body]
pub(crate) fn subtract_from_each(minuends: [u64; 4], subtrahend: u64) -> (differences: [u64; 4])
    ensures
        forall|i: int|
            0 <= i < 4 ==> #[trigger] differences@[i] == minuends@[i].wrapping_sub(subtrahend),
{
    (u64x4::new(minuends) - u64x4::splat(subtrahend)).to_array()
}

/// Calls `num_cpus::get`. The number depends on the machine; it is never zero.
#[verifier::external_body]
pub(crate) fn cpu_count() -> (n: usize)
    ensures
        n >= 1,
{
    num_cpus::get()
}

/// Calls `tokio::runtime::Handle::try_current`, and says whether it found a
/// runtime. That depends on the thread, so nothing is said of it.
#[verifier::external_body]
pub(crate) fn in_async_runtime() -> bool {
    tokio::runtime::Handle::try_current().is_ok()
}

/// The number of chunks of up to `size` items that `len` items make.
pub open spec fn chunk_count(len: int, size: int) -> int {
    (len + size - 1) / size
}

/// The chunk `k` of `items`, cut into chunks of up to `size` items.
pub open spec fn chunk<T>(items: Seq<T>, size: int, k: int) -> Seq<T> {
    items.subrange(
        k * size,
        if (k + 1) * size <= items.len() {
            (k + 1) * size
        } else {
            items.len() as int
        },
    )
}

/// Whether `f` may give `result` for a slice that holds `part`.
pub open spec fn given_for<T, R, F: Fn(&[T]) -> R>(f: F, part: Seq<T>, result: R) -> bool {
    exists|s: &[T]| s@ == part && #[trigger] call_ensures(f, (s,), result)
}

/// Calls rayon's `par_chunks`, `map` and `collect`. The items are cut into
/// chunks of `chunk_size`, of which the last may be shorter; the results of `f`
/// on the chunks come back in the chunks' order. `par_chunks` panics where
/// `chunk_size` is zero.
#[verifier::external_body]
pub(crate) fn map_chunks<T: Sync, R: Send, F: Fn(&[T]) -> R + Sync + Send>(
    items: &[T],
    chunk_size: usize,
    f: F,
) -> (results: Vec<R>)
    requires
        chunk_size > 0,
        forall|s: &[T]| #[trigger] call_requires(f, (s,)),
    ensures
        results@.len() == chunk_count(items@.len() as int, chunk_size as int),
        forall|k: int|
            0 <= k < results@.len() ==> given_for(
                f,
                chunk(items@, chunk_size as int, k),
                #[trigger] results@[k],
            ),
{
    items.par_chunks(chunk_size).map(f).collect()
}

} // verus!
