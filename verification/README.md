# ingest_core

Building blocks of a log ingestion pipeline, verified with Verus.

- `src/mem_bounded.rs`: an mpsc channel bounded by the estimated memory footprint of in-flight
  messages rather than by message count. Senders wait for capacity or reserve it up front;
  receivers take messages one by one or in batches bounded by bytes and count.
- `src/semaphore.rs`, `src/queue.rs`: the two parts of `tokio` that the channel is made of, with the
  contracts that everything else relies on. These contracts are trusted.
- `src/accounting.rs`, `src/laws.rs`: where the bytes go. Of the books that bring together what the
  ends of a channel know, it is shown that capacity is conserved, that they stay within the size of
  the channel, and that messages leave in order, and the operations of the channel are shown to be
  steps of the books. Of the channel itself, it is shown that what waits in it fits into its size,
  and what receivers hand out.
- `src/log_entry.rs`, `src/data_record.rs`: log entries, and the records among them.
- `src/ingestion/`: routing of ingestion requests, and the protocol of an ingestion stream.
- `app/`: what waits, serves or implements traits of other crates. It is ordinary Rust.
