use rtrb::{Consumer, Producer, RingBuffer};
use vstd::layout::size_of;
use vstd::prelude::*;

verus! {

#[verifier::external_type_specification]
#[verifier::external_body]
#[verifier::reject_recursive_types(T)]
pub struct ExProducer<T>(Producer<T>);

#[verifier::external_type_specification]
#[verifier::external_body]
#[verifier::reject_recursive_types(T)]
pub struct ExConsumer<T>(Consumer<T>);

/// Relies on rtrb's `RingBuffer::new`: the two ends of a new queue with room
/// for `capacity` items. It allocates that room at once, which panics beyond
/// `isize::MAX` bytes; its positions run up to twice the capacity.
#[verifier::external_body]
fn ring_buffer<T>(capacity: usize) -> (r: (Producer<T>, Consumer<T>))
    requires
        capacity <= isize::MAX,
        capacity * size_of::<T>() <= isize::MAX,
{
    RingBuffer::new(capacity)
}

/// Relies on rtrb's `Producer::push_entire_slice`: either every item of
/// `items` is made readable at once, or, when there is not room for all of
/// them, none is. Whether there is room depends on the consumer's thread, so
/// nothing is known of the result.
#[verifier::external_body]
fn push_entire<T: Copy>(producer: &mut Producer<T>, items: &[T]) -> (r: bool) {
    producer.push_entire_slice(items).is_ok()
}

/// Relies on rtrb's `Consumer::pop_entire_slice`: either `out` is filled from
/// the queue, or, when fewer items than its length are there, nothing is
/// copied and `out` is left as it was.
#[verifier::external_body]
fn pop_entire<T: Copy>(consumer: &mut Consumer<T>, out: &mut [T]) -> (r: bool)
    ensures
        final(out)@.len() == old(out)@.len(),
        !r ==> final(out)@ == old(out)@,
{
    consumer.pop_entire_slice(out).is_ok()
}

/// Why a kernel was not handed over.
#[derive(Clone, Copy, Debug, PartialEq, Eq, Structural)]
pub enum SendError {
    /// The kernel does not have the channel's chunk length.
    WrongLength,
    /// The queue had no room for a whole kernel; it was dropped.
    Full,
}

/// The producer end of a kernel channel: hands whole kernels of a fixed
/// length to the consumer's thread without blocking.
#[verifier::reject_recursive_types(T)]
pub struct KernelSender<T> {
    producer: Producer<T>,
    chunk_len: usize,
}

/// The consumer end of a kernel channel.
#[verifier::reject_recursive_types(T)]
pub struct KernelReceiver<T> {
    consumer: Consumer<T>,
    chunk_len: usize,
    max_chunks: usize,
}

impl<T> KernelSender<T> {
    pub closed spec fn spec_chunk_len(&self) -> nat {
        self.chunk_len as nat
    }

    /// The length of every kernel that the channel carries.
    pub fn chunk_len(&self) -> (r: usize)
        ensures
            r == self.spec_chunk_len(),
    {
        self.chunk_len
    }
}

impl<T> KernelReceiver<T> {
    pub closed spec fn spec_chunk_len(&self) -> nat {
        self.chunk_len as nat
    }

    /// How many whole kernels the queue has room for.
    pub closed spec fn spec_max_chunks(&self) -> nat {
        self.max_chunks as nat
    }

    /// How many whole kernels the queue has room for.
    pub fn max_chunks(&self) -> (r: usize)
        ensures
            r == self.spec_max_chunks(),
    {
        self.max_chunks
    }

    /// The length of every kernel that the channel carries.
    pub fn chunk_len(&self) -> (r: usize)
        ensures
            r == self.spec_chunk_len(),
    {
        self.chunk_len
    }
}

/// A channel for kernels of `chunk_len` items with room for `chunks` of them.
pub fn kernel_channel<T>(chunk_len: usize, chunks: usize) -> (r: (KernelSender<T>, KernelReceiver<T>))
    requires
        chunk_len > 0,
        chunks >= 2,
        chunk_len * chunks <= isize::MAX,
        chunk_len * chunks * size_of::<T>() <= isize::MAX,
    ensures
        r.0.spec_chunk_len() == chunk_len,
        r.1.spec_chunk_len() == chunk_len,
        r.1.spec_max_chunks() == chunks,
{
    let (producer, consumer) = ring_buffer(chunk_len * chunks);
    (
        KernelSender { producer, chunk_len },
        KernelReceiver { consumer, chunk_len, max_chunks: chunks },
    )
}

impl<T: Copy> KernelSender<T> {
    /// Hands `kernel` over whole, or not at all. Never blocks: a full queue
    /// drops the kernel and reports it.
    pub fn send(&mut self, kernel: &[T]) -> (r: Result<(), SendError>)
        ensures
            final(self).spec_chunk_len() == old(self).spec_chunk_len(),
            kernel@.len() != old(self).spec_chunk_len() <==> r == Err::<(), SendError>(
                SendError::WrongLength,
            ),
    {
        if kernel.len() != self.chunk_len {
            return Err(SendError::WrongLength);
        }
        if push_entire(&mut self.producer, kernel) {
            Ok(())
        } else {
            Err(SendError::Full)
        }
    }
}

impl<T: Copy> KernelReceiver<T> {
    /// Copies the newest whole kernel waiting in the queue into `kernel`,
    /// discarding older ones, and says whether there was one. Never blocks.
    /// Without a new kernel, `kernel` keeps what it held.
    pub fn receive_latest(&mut self, kernel: &mut [T]) -> (r: bool)
        requires
            old(kernel)@.len() == old(self).spec_chunk_len(),
        ensures
            final(self).spec_chunk_len() == old(self).spec_chunk_len(),
            final(self).spec_max_chunks() == old(self).spec_max_chunks(),
            final(kernel)@.len() == old(kernel)@.len(),
            !r ==> final(kernel)@ == old(kernel)@,
    {
        let mut got = false;
        let mut k: usize = 0;
        while k < self.max_chunks
            invariant
                self.chunk_len == old(self).chunk_len,
                self.max_chunks == old(self).max_chunks,
                kernel@.len() == old(kernel)@.len(),
                !got ==> kernel@ == old(kernel)@,
            decreases self.max_chunks - k,
        {
            if !pop_entire(&mut self.consumer, kernel) {
                break;
            }
            got = true;
            k = k + 1;
        }
        got
    }
}

} // verus!
