# tenken

A store for the latest payload of each probe. Every probe owns a partition
of 2048 bytes in the data file `db.dat`:

| item       | start  | size |
|------------|--------|------|
| key size   | 0      | 1    |
| key        | 1      | k    |
| timestamp  | k + 1  | 8    |
| value size | k + 9  | 8    |
| value      | k + 17 | v    |

Integers are big-endian, key and value UTF-8; a key size outside 3..=100
marks a vacant partition. At start-up the index reads each partition's
header: occupied partitions are indexed by their key, vacant ones queue up.
A payload for a probe goes to its partition; a new probe takes the first
vacant partition; when none is left the payload is dropped. A partition's
owner keeps the key and timestamp it holds and drops any payload that is
not newer.

- `src/` is the library, verified with Verus: the partition format and the
  proofs of what a partition reads back after the writes that the library
  produces, the partition owner, the index, the in-memory cache, the payload
  helpers, and the first layout of the data file (`legacy`).
- `app/` holds the servers: file I/O, actors and HTTP routes around the
  library. `app/main.rs` starts the server that its first argument names.
- `tests/` runs the library on concrete values.
