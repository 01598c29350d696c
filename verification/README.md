# garage_versions

Object versioning, Object Lock and lifecycle rules of Garage's S3 API, as a
library whose behaviour is stated in `requires` / `ensures` contracts and
proved with Verus.

## Layout

- `src/` — the verified library
  - `object_table.rs`: object versions, how replicas of an object merge
    (with the laws of the merge), and what a write makes obsolete;
    `object_formats/`: the earlier formats of the object table and their
    migrations
  - `bucket_table.rs`: bucket parameters (versioning, Object Lock, lifecycle
    rules); `bucket_formats/`: the earlier format of the bucket table
  - `object_lock_state.rs`, `object_lock.rs`, `lock_xml.rs`: retention and
    legal holds of versions, and the Object Lock endpoints
  - `versioning.rs`: bucket versioning and version ids
  - `delete.rs`, `xml.rs`: deletion of objects and versions, and the
    `DeleteObjects` document
  - `lifecycle.rs`, `lifecycle_worker.rs`: lifecycle rules and the progress
    of the worker that applies them
  - `bytes.rs`, `time.rs`, `version_data.rs`, `s3_error.rs`: byte strings,
    clock and last-write-wins registers, version data, errors
- `tests/` — tests of the library, run against the compiled crate
- `app/` — what stands around the library in a server: XML documents with
  serde, headers, error answers, storage, and the lifecycle worker loop
