# whatwg_streams

Readable, writable and transform streams with backpressure, as verified state
machines.

Every stream is a machine without I/O: it takes events (a command of a reader
or a writer, a message of a controller, the answer of a source or a sink) and
lists what is to be done about them (answer someone, wake a task, start a
pull, a write, a close or an abort). Each machine has a mathematical model, and
each of its functions is proved to do what the model says. The laws are proved
of the models, for every sequence of events: `laws` and `byte_laws` for the
streams themselves, `reading_laws` for what reads give, `source_laws` and
`sink_laws` for what is asked of a source or a sink and when, `answers` and
`successes` for who is answered what.

- `src/strategy.rs`, `src/error.rs`, `src/wakers.rs`, `src/start.rs`: queuing
  strategies, errors, sets of wakers, and how far a start has come.
- `src/channel.rs`: what is believed of the channels of the `futures` crate, and
  the outbox through which every message is posted, with a record of what was.
- `src/readable/`: streams of chunks and of bytes, their controllers, readers,
  sources and builders, and splitting a stream in two.
- `src/writable/`: writable streams, their controllers, writers and builders.
- `src/pipe.rs`, `src/transform.rs`: piping and transforming.
- `app/`: the asynchronous layer: tasks that drive the machines, and the traits
  of sources, sinks and transformers.
- `tests/`: scenarios run on the machines.
