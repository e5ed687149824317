//! Building readable streams.

use super::byte_state::{ByteModel, ByteStreamState};
use super::inner::ReadableStreamInner;
use super::model::ReadableModel;
use super::source::{AsyncStreamSource, IteratorSource};
use crate::strategy::{CountQueuingStrategy, QueuingStrategy};
use core::marker::PhantomData;
use vstd::prelude::*;

verus! {

/// Marks a stream of chunks.
pub struct DefaultStream;

/// Marks a stream of bytes.
pub struct ByteStream;

/// The kinds of readable streams.
pub trait StreamTypeMarker {

}

impl StreamTypeMarker for DefaultStream {

}

impl StreamTypeMarker for ByteStream {

}

/// Where the task of a stream is to run: on a thread of its own, or as the caller arranges.
pub enum SpawnConfig<F> {
    DefaultThread,
    CustomSpawn(F),
}

/// A stream that is being put together: its source, the strategy of its queue, and where its task
/// is to run.
pub struct ReadableStreamBuilder<T, Source, S, F, StreamType> {
    pub source: Source,
    pub strategy: S,
    pub spawn_config: SpawnConfig<F>,
    pub phantom: PhantomData<(T, StreamType)>,
}

impl<T, Source, F> ReadableStreamBuilder<T, Source, CountQueuingStrategy, F, DefaultStream> {
    /// A stream of chunks over a source; its queue counts chunks and wants one.
    pub fn new(source: Source) -> (builder: Self)
        ensures
            builder.source == source,
            builder.strategy == (CountQueuingStrategy { high_water_mark: 1 }),
            builder.spawn_config == SpawnConfig::<F>::DefaultThread,
    {
        ReadableStreamBuilder {
            source,
            strategy: CountQueuingStrategy::new(1),
            spawn_config: SpawnConfig::DefaultThread,
            phantom: PhantomData,
        }
    }

    /// A stream of the chunks that an asynchronous stream gives.
    pub fn from_stream<Stream>(stream: Stream) -> (builder: ReadableStreamBuilder<
        T,
        AsyncStreamSource<Stream>,
        CountQueuingStrategy,
        F,
        DefaultStream,
    >)
        ensures
            builder.source == (AsyncStreamSource { stream }),
            builder.strategy == (CountQueuingStrategy { high_water_mark: 1 }),
            builder.spawn_config == SpawnConfig::<F>::DefaultThread,
    {
        ReadableStreamBuilder::<
            T,
            AsyncStreamSource<Stream>,
            CountQueuingStrategy,
            F,
            DefaultStream,
        >::new(AsyncStreamSource { stream })
    }
}

impl<I: Iterator, F> ReadableStreamBuilder<
    I::Item,
    IteratorSource<I>,
    CountQueuingStrategy,
    F,
    DefaultStream,
> {
    /// A stream of the chunks that an iterator gives.
    pub fn from_iterator(iter: I) -> (builder: Self)
        ensures
            builder.source == (IteratorSource { iter }),
            builder.strategy == (CountQueuingStrategy { high_water_mark: 1 }),
            builder.spawn_config == SpawnConfig::<F>::DefaultThread,
    {
        Self::new(IteratorSource { iter })
    }
}

impl<T, F> ReadableStreamBuilder<
    T,
    IteratorSource<std::vec::IntoIter<T>>,
    CountQueuingStrategy,
    F,
    DefaultStream,
> {
    /// A stream of the elements of a vector.
    pub fn from_vec(vec: Vec<T>) -> (builder: Self)
        ensures
            vstd::std_specs::iter::IteratorSpec::obeys_prophetic_iter_laws(&builder.source.iter),
            vstd::std_specs::iter::IteratorSpec::remaining(&builder.source.iter) == vec@,
            builder.strategy == (CountQueuingStrategy { high_water_mark: 1 }),
            builder.spawn_config == SpawnConfig::<F>::DefaultThread,
    {
        Self::new(IteratorSource { iter: vec.into_iter() })
    }
}

impl<Source, F> ReadableStreamBuilder<Vec<u8>, Source, CountQueuingStrategy, F, ByteStream> {
    /// A stream of bytes over a source; its buffer wants one byte.
    pub fn new_bytes(source: Source) -> (builder: Self)
        ensures
            builder.source == source,
            builder.strategy == (CountQueuingStrategy { high_water_mark: 1 }),
            builder.spawn_config == SpawnConfig::<F>::DefaultThread,
    {
        ReadableStreamBuilder {
            source,
            strategy: CountQueuingStrategy::new(1),
            spawn_config: SpawnConfig::DefaultThread,
            phantom: PhantomData,
        }
    }
}

impl<T, Source, S, F, StreamType> ReadableStreamBuilder<T, Source, S, F, StreamType> {
    /// The same stream with another strategy.
    pub fn strategy<S1: QueuingStrategy<T>>(self, s: S1) -> (builder: ReadableStreamBuilder<
        T,
        Source,
        S1,
        F,
        StreamType,
    >)
        ensures
            builder.source == self.source,
            builder.strategy == s,
            builder.spawn_config == self.spawn_config,
    {
        ReadableStreamBuilder {
            source: self.source,
            strategy: s,
            spawn_config: self.spawn_config,
            phantom: PhantomData,
        }
    }

    /// The same stream with another strategy.
    pub fn with_strategy<S1: QueuingStrategy<T>>(self, strategy: S1) -> (builder:
        ReadableStreamBuilder<T, Source, S1, F, StreamType>)
        ensures
            builder.source == self.source,
            builder.strategy == strategy,
            builder.spawn_config == self.spawn_config,
    {
        self.strategy(strategy)
    }

    /// The same stream, its task run as `spawn_fn` arranges.
    pub fn with_spawn<F1>(self, spawn_fn: F1) -> (builder: ReadableStreamBuilder<
        T,
        Source,
        S,
        F1,
        StreamType,
    >)
        ensures
            builder.source == self.source,
            builder.strategy == self.strategy,
            builder.spawn_config == SpawnConfig::CustomSpawn(spawn_fn),
    {
        ReadableStreamBuilder {
            source: self.source,
            strategy: self.strategy,
            spawn_config: SpawnConfig::CustomSpawn(spawn_fn),
            phantom: PhantomData,
        }
    }

    /// The same stream, its task run on a thread of its own.
    pub fn with_thread_spawn(self) -> (builder: Self)
        ensures
            builder.source == self.source,
            builder.strategy == self.strategy,
            builder.spawn_config == SpawnConfig::<F>::DefaultThread,
    {
        ReadableStreamBuilder {
            source: self.source,
            strategy: self.strategy,
            spawn_config: SpawnConfig::DefaultThread,
            phantom: PhantomData,
        }
    }
}

impl<T, Source, S: QueuingStrategy<T>, F> ReadableStreamBuilder<T, Source, S, F, DefaultStream> {
    /// The machine of the stream, and where its task is to run.
    pub fn build<R, K, W>(self) -> (built: (
        ReadableStreamInner<T, Source, S, R, K, W>,
        SpawnConfig<F>,
    ))
        ensures
            built.0@ == ReadableModel::<T, Source, S, R, K, W>::initial(self.source, self.strategy),
            built.0@.wf(),
            built.1 == self.spawn_config,
    {
        (ReadableStreamInner::new(self.source, self.strategy), self.spawn_config)
    }
}

impl<Source, S: QueuingStrategy<Vec<u8>>, F> ReadableStreamBuilder<
    Vec<u8>,
    Source,
    S,
    F,
    ByteStream,
> {
    /// The state of the stream, whose mark is that of the strategy, and where its task is to run.
    pub fn build_bytes<W>(self) -> (built: (ByteStreamState<Source, W>, SpawnConfig<F>))
        ensures
            built.0@ == ByteModel::<Source, W>::initial(
                self.source,
                self.strategy.spec_high_water_mark(),
            ),
            built.0@.wf(),
            built.1 == self.spawn_config,
    {
        (
            ByteStreamState::new(self.source, self.strategy.high_water_mark()),
            self.spawn_config,
        )
    }
}

} // verus!
