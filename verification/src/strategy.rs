//! Queuing strategies and the sizes they give to a queue.

use vstd::prelude::*;

verus! {

/// Type-level marker for unlocked streams
pub struct Unlocked;

/// Type-level marker for locked streams
pub struct Locked;

/// Generic queuing strategy trait
pub trait QueuingStrategy<T> {
    /// The size that `size` reports for a chunk.
    spec fn spec_size(&self, chunk: &T) -> usize;

    /// The mark that `high_water_mark` reports.
    spec fn spec_high_water_mark(&self) -> usize;

    /// Return the size of the chunk
    fn size(&self, chunk: &T) -> (size: usize)
        ensures
            size == self.spec_size(chunk),
    ;

    /// Return high water mark (desired max queue size)
    fn high_water_mark(&self) -> (mark: usize)
        ensures
            mark == self.spec_high_water_mark(),
    ;
}

/// Count-based strategy
#[derive(Clone, Copy)]
pub struct CountQueuingStrategy {
    pub high_water_mark: usize,
}

impl CountQueuingStrategy {
    pub fn new(high_water_mark: usize) -> (strategy: Self)
        ensures
            strategy == (CountQueuingStrategy { high_water_mark }),
    {
        CountQueuingStrategy { high_water_mark }
    }
}

impl<T> QueuingStrategy<T> for CountQueuingStrategy {
    open spec fn spec_size(&self, chunk: &T) -> usize {
        1
    }

    open spec fn spec_high_water_mark(&self) -> usize {
        self.high_water_mark
    }

    fn size(&self, _chunk: &T) -> (size: usize) {
        1
    }

    fn high_water_mark(&self) -> (mark: usize) {
        self.high_water_mark
    }
}

/// Byte length strategy for types with known byte sizes
#[derive(Clone, Copy)]
pub struct ByteLengthQueuingStrategy {
    pub high_water_mark: usize,
}

impl ByteLengthQueuingStrategy {
    pub fn new(high_water_mark: usize) -> (strategy: Self)
        ensures
            strategy == (ByteLengthQueuingStrategy { high_water_mark }),
    {
        ByteLengthQueuingStrategy { high_water_mark }
    }
}

impl QueuingStrategy<Vec<u8>> for ByteLengthQueuingStrategy {
    open spec fn spec_size(&self, chunk: &Vec<u8>) -> usize {
        chunk@.len() as usize
    }

    open spec fn spec_high_water_mark(&self) -> usize {
        self.high_water_mark
    }

    fn size(&self, chunk: &Vec<u8>) -> (size: usize) {
        chunk.len()
    }

    fn high_water_mark(&self) -> (mark: usize) {
        self.high_water_mark
    }
}

impl QueuingStrategy<String> for ByteLengthQueuingStrategy {
    open spec fn spec_size(&self, chunk: &String) -> usize {
        vstd::utf8::encode_utf8(chunk@).len() as usize
    }

    open spec fn spec_high_water_mark(&self) -> usize {
        self.high_water_mark
    }

    fn size(&self, chunk: &String) -> (size: usize) {
        chunk.as_str().len()
    }

    fn high_water_mark(&self) -> (mark: usize) {
        self.high_water_mark
    }
}

impl<'a> QueuingStrategy<&'a [u8]> for ByteLengthQueuingStrategy {
    open spec fn spec_size(&self, chunk: &&'a [u8]) -> usize {
        chunk@.len() as usize
    }

    open spec fn spec_high_water_mark(&self) -> usize {
        self.high_water_mark
    }

    fn size(&self, chunk: &&'a [u8]) -> (size: usize) {
        chunk.len()
    }

    fn high_water_mark(&self) -> (mark: usize) {
        self.high_water_mark
    }
}

/// The sizes of a queue's chunks, added up.
pub open spec fn total_size<T, S: QueuingStrategy<T>>(strategy: S, queue: Seq<T>) -> int
    decreases queue.len(),
{
    if queue.len() == 0 {
        0
    } else {
        total_size(strategy, queue.drop_last()) + strategy.spec_size(&queue.last())
    }
}

/// Taking a chunk off the front of a queue takes its size off the total.
pub proof fn lemma_total_size_front<T, S: QueuingStrategy<T>>(strategy: S, queue: Seq<T>)
    requires
        queue.len() > 0,
    ensures
        total_size(strategy, queue) == strategy.spec_size(&queue[0]) + total_size(
            strategy,
            queue.subrange(1, queue.len() as int),
        ),
    decreases queue.len(),
{
    if queue.len() == 1 {
        assert(queue.drop_last() =~= Seq::empty());
        assert(queue.subrange(1, 1) =~= Seq::empty());
        reveal_with_fuel(total_size, 2);
    } else {
        let tail = queue.subrange(1, queue.len() as int);
        lemma_total_size_front(strategy, queue.drop_last());
        assert(queue.drop_last().subrange(1, queue.len() - 1) =~= tail.drop_last());
    }
}

/// A total is never negative.
pub proof fn lemma_total_size_nonnegative<T, S: QueuingStrategy<T>>(strategy: S, queue: Seq<T>)
    ensures
        total_size(strategy, queue) >= 0,
    decreases queue.len(),
{
    if queue.len() > 0 {
        lemma_total_size_nonnegative(strategy, queue.drop_last());
    }
}

/// Putting a chunk at the back of a queue adds its size to the total.
pub proof fn lemma_total_size_push<T, S: QueuingStrategy<T>>(strategy: S, queue: Seq<T>, chunk: T)
    ensures
        total_size(strategy, queue.push(chunk)) == total_size(strategy, queue)
            + strategy.spec_size(&chunk),
{
    assert(queue.push(chunk).drop_last() =~= queue);
}

/// What a word of `usize` reads as when its bits are taken for an `isize`.
pub open spec fn as_isize(n: usize) -> int {
    if n <= isize::MAX {
        n as int
    } else {
        n - usize::MAX - 1
    }
}

/// The same bits, read as an `isize`.
pub fn to_isize(n: usize) -> (signed: isize)
    ensures
        signed == as_isize(n),
{
    if n <= isize::MAX as usize {
        n as isize
    } else {
        -((usize::MAX - n) as isize) - 1
    }
}

/// Whether the room left under a mark by a queue of this size can be written as an `isize`.
pub open spec fn room_fits(high_water_mark: usize, queue_total_size: usize) -> bool {
    isize::MIN <= as_isize(high_water_mark) - as_isize(queue_total_size) <= isize::MAX
}

/// Whether the room left under a mark by a queue of this size can be written as an `isize`.
pub fn room_can_be_shown(high_water_mark: usize, queue_total_size: usize) -> (fits: bool)
    ensures
        fits == room_fits(high_water_mark, queue_total_size),
{
    let mark: isize = to_isize(high_water_mark);
    let current: isize = to_isize(queue_total_size);
    if current >= 0 {
        mark >= isize::MIN + current
    } else {
        mark <= isize::MAX + current
    }
}

/// The room that a queue of this size leaves under the mark; negative when the queue is over it,
/// and zero once the stream is closed or errored.
pub open spec fn room(high_water_mark: usize, queue_total_size: usize, closed: bool, errored: bool) -> int {
    if closed || errored {
        0
    } else {
        as_isize(high_water_mark) - as_isize(queue_total_size)
    }
}

/// The desired size to publish for a queue of this size.
pub fn update_desired_size(
    queue_total_size: usize,
    high_water_mark: usize,
    closed: bool,
    errored: bool,
) -> (desired_size: isize)
    requires
        closed || errored || room_fits(high_water_mark, queue_total_size),
    ensures
        desired_size == room(high_water_mark, queue_total_size, closed, errored),
{
    if closed || errored {
        return 0;
    }
    let mark: isize = to_isize(high_water_mark);
    let current: isize = to_isize(queue_total_size);
    mark - current
}

/// A queue of which the chunks are counted is as large as it is long; one of which the bytes are
/// counted adds the length of each chunk; and either has the mark that it was given.
pub proof fn law_what_strategies_measure<T>(
    counting: CountQueuingStrategy,
    measuring: ByteLengthQueuingStrategy,
    queue: Seq<T>,
    chunk: Vec<u8>,
    slice: &[u8],
    text: String,
)
    ensures
        total_size(counting, queue) == queue.len(),
        <CountQueuingStrategy as QueuingStrategy<T>>::spec_high_water_mark(&counting)
            == counting.high_water_mark,
        measuring.spec_size(&chunk) == chunk@.len() as usize,
        measuring.spec_size(&slice) == slice@.len() as usize,
        <ByteLengthQueuingStrategy as QueuingStrategy<&[u8]>>::spec_high_water_mark(&measuring)
            == measuring.high_water_mark,
        measuring.spec_size(&text) == vstd::utf8::encode_utf8(text@).len() as usize,
        <ByteLengthQueuingStrategy as QueuingStrategy<Vec<u8>>>::spec_high_water_mark(&measuring)
            == measuring.high_water_mark,
        <ByteLengthQueuingStrategy as QueuingStrategy<String>>::spec_high_water_mark(&measuring)
            == measuring.high_water_mark,
    decreases queue.len(),
{
    if queue.len() > 0 {
        law_what_strategies_measure(counting, measuring, queue.drop_last(), chunk, slice, text);
    }
}

/// Room is what the mark leaves: of numbers that an `isize` holds it is their difference, less by as
/// much as the queue grows, negative once the queue is over the mark, and it can always be written;
/// a stream that has ended has none.  A number that an `isize` does not hold reads as its bits do.
pub proof fn law_room_is_what_the_mark_leaves(mark: usize, size: usize, more: usize)
    ensures
        mark <= isize::MAX && size <= isize::MAX ==> {
            &&& room(mark, size, false, false) == mark - size
            &&& room_fits(mark, size)
        },
        mark <= isize::MAX && size + more <= isize::MAX ==> room(
            mark,
            (size + more) as usize,
            false,
            false,
        ) == room(mark, size, false, false) - more,
        room(mark, size, true, false) == 0 && room(mark, size, false, true) == 0 && room(
            mark,
            size,
            true,
            true,
        ) == 0,
        isize::MIN <= as_isize(mark) <= isize::MAX,
        mark <= isize::MAX ==> as_isize(mark) == mark,
        mark > isize::MAX ==> as_isize(mark) + usize::MAX + 1 == mark,
        room_fits(mark, size) <==> isize::MIN <= room(mark, size, false, false) <= isize::MAX,
{
    assert(isize::MIN == -isize::MAX - 1 && usize::MAX == 2 * isize::MAX + 1) by {
        assert(usize::BITS == 32 || usize::BITS == 64);
    }
}

} // verus!
