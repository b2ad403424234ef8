# server_core

The verified core of two servers:

- the storage of a raft log with the records around it, kept in one column family of a key-value
  database (`keys`, `messages`, `size`, `codec`, `batch`, `records`, `storage`, `transaction`,
  `reader`);
- the request pump of a log server (`network`).

The core does no I/O. The storage is handed what was read from the database and gives out batches
of changes; the pump is told what happened and says what to do next. Everything in `src/` is
verified with Verus. The calls into `bytes` and `protobuf` stand in `codec`, behind functions whose
contracts are believed.

`laws` says what the storage's changes do to the records of the database, and `history` what holds
after any sequence of them: where the log lies, the database has a record for each index between
the bounds that the storage keeps, and nothing else. The records read back as the entries that were
appended, unless an entry carries unknown fields under the numbers of its own. `read_laws` says
what reading such a database gives, and that a storage that is created anew finds the bounds again.
`network_laws` says what holds of the pump whatever happens around it.

`app/` connects the core to RocksDB, raft and the network. `tests/` runs it on a database in memory.
