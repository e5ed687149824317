//! Building writable streams.

use super::inner::WritableStreamInner;
use super::model::WritableModel;
use crate::strategy::{CountQueuingStrategy, QueuingStrategy};
use core::marker::PhantomData;
use vstd::prelude::*;

verus! {

/// A stream that is being put together: its sink, and the strategy of its queue.
pub struct WritableStreamBuilder<T, Sink, S> {
    pub sink: Sink,
    pub strategy: S,
    pub phantom: PhantomData<T>,
}

impl<T, Sink> WritableStreamBuilder<T, Sink, CountQueuingStrategy> {
    /// A stream over a sink; its queue counts chunks and wants one.
    pub fn new(sink: Sink) -> (builder: Self)
        ensures
            builder.sink == sink,
            builder.strategy == (CountQueuingStrategy { high_water_mark: 1 }),
    {
        WritableStreamBuilder { sink, strategy: CountQueuingStrategy::new(1), phantom: PhantomData }
    }
}

impl<T, Sink, S> WritableStreamBuilder<T, Sink, S> {
    /// The same stream with another strategy.
    pub fn strategy<S1: QueuingStrategy<T>>(self, s: S1) -> (builder: WritableStreamBuilder<
        T,
        Sink,
        S1,
    >)
        ensures
            builder.sink == self.sink,
            builder.strategy == s,
    {
        WritableStreamBuilder { sink: self.sink, strategy: s, phantom: PhantomData }
    }
}

impl<T, Sink, S: QueuingStrategy<T>> WritableStreamBuilder<T, Sink, S> {
    /// The machine of the stream, and its high water mark.
    pub fn prepare<C, W>(self) -> (prepared: (WritableStreamInner<T, Sink, S, C, W>, usize))
        ensures
            prepared.0@ == WritableModel::<T, Sink, S, C, W>::initial(self.sink, self.strategy),
            prepared.0@.wf(),
            prepared.1 == self.strategy.spec_high_water_mark(),
    {
        let high_water_mark: usize = self.strategy.high_water_mark();
        (WritableStreamInner::new(self.sink, self.strategy), high_water_mark)
    }
}

} // verus!
