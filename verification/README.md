# rafka

A small log-structured message broker in the style of Kafka, written in
Verus. The library under `src/` holds the wire formats and the storage and
partition logic, each function with a contract that Verus proves; `app/`
is the server around it (configuration, sockets, files, tasks).

- `protocol/`, `message/`: request frames, their encoding and decoding,
  and the sizes of responses.
- `record.rs`, `storage/`, `batch.rs`: records and batches of records.
- `segment/`: a segment's index and log — binary search of the index, the
  scan of the log, fetches, appends, and what reading gives back of what
  was appended (`segment/laws.rs`).
- `partition/`: partition snapshots, replica acknowledgements and the
  decisions of the actor that owns a partition.
- `broker/`: response frames, configuration, and the cluster metadata.
- `buffer.rs`, `mapped.rs`: the outside types (`bytes::Bytes`,
  `memmap::MmapMut`) and the standard functions the library calls, each
  with the contract it is trusted to meet.
