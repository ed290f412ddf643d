# nimbis_storage

The storage layer of a Redis-compatible server that keeps its data in SlateDB,
one database per value type (string, hash, list, set, sorted set).

`src/` is a Verus library. It holds everything that decides: the on-disk key
and value codecs, the normalization of top-level rows and their deadlines, the
plans of the hash, list, set, string and keyspace commands, the compaction
filter that reclaims sub-keys of dropped collection generations, the order in
which key-lock stripes are taken, the startup layout migration's checks, the
segment routing of keys, and the checks made on trace and object-store
configuration. Each public function states its result in its contract, and the
laws that relate several functions (codec round trips, list LIFO order,
lock-order agreement, compaction safety, read-back of written fields) are
public proof functions.

`app/` is ordinary Rust around the library: opening the databases and the
object store, the asynchronous command loops that read, call the library's
plans and write batches, the tokio lock table, the SlateDB compaction and
prefix-extractor hooks, the OTLP trace exporter, `f64` score conversion, and
error types with `Display`.

`tests/` runs the library on concrete values.
