# slatedb_cache

The caches of a log-structured database on object storage, and what paces and
measures them, as a verified library.

- `src/` is the library. Its functions have contracts, which Verus proves.
  - `foyer_cache` keeps blocks, indexes, filters and statistics in foyer;
    `shard_model` is the model that its contracts speak of.
  - `head_cache` keeps the heads of objects in quick_cache.
  - `rate_limit` schedules uploads; `time` holds the times that it runs on.
  - `io_pool` sizes and names the threads that read the disk cache; `decimal`
    writes their numbers.
  - `state_lock` decides which counters an event at the state lock increments.
  - `stats` lists the metrics of the object store cache.
  - `error` holds the errors.
- `tests/` runs the library with foyer, quick_cache, chrono and sysinfo.
- `app/` adds threads, locks, clocks and futures.

What is not proved is what the outside crates do. The functions marked
`#[verifier::external_body]` state it. Each is about one outside function; the
other outside calls in it only make or read its arguments and its result.
