# doc_ingest

The decision logic of two front ends that feed documents to an indexer, with
contracts that Verus proves.

- A Kinesis source reads the shards of a stream, puts the records together into
  batches of documents, and notes how far each shard was read.
- The push API turns the body of an HTTP request into documents for one index.

## Layout

- `src/region.rs`: the AWS region that the settings of a source stand for, with the
  call into `rusoto_core` whose contract is trusted.
- `src/checkpoint.rs`: partitions, positions in them, and steps forward.
- `src/shard_map.rs`: maps keyed by shard that can list their keys.
- `src/message.rs`: what shard consumers report, and what a source asks for.
- `src/batch.rs`: the batch in the making, and when it is done.
- `src/state.rs`: the mathematical model of a source and of its transitions.
- `src/source.rs`: the source itself.
- `src/push_api.rs`: the push API.
- `src/strings.rs`: text primitives, among them the calls into `std` and `itertools`
  whose contracts are trusted.
- `src/laws.rs`: what holds of a source over whole runs.
- `app/`: the I/O around the library: the Kinesis client, channels, HTTP. It is not
  verified. The services that an embedding system provides are traits in
  `app/host.rs`.

## The cycle of a source

`KinesisSource::try_new` takes the outcome of listing the shards, and `initialize`
says which consumers to start. To emit a batch, receive messages while
`BatchBuilder::wants_message` says so, hand each to `KinesisSource::on_message` and
carry out the action it returns; an attempt to record a step in the checkpoint delta
goes through `on_delta_outcome`. `KinesisSource::finish_batch` then says what to send
on, and whether the stream is at its end.
