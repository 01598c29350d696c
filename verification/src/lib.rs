//! Object versioning, Object Lock and lifecycle rules of an S3 object store.
pub mod bytes;
pub mod time;
pub mod version_data;
pub mod object_lock_state;
pub mod bucket_table;
pub mod object_table;
pub mod lifecycle;
pub mod lifecycle_worker;
pub mod s3_error;
pub mod versioning;
pub mod lock_xml;
pub mod object_lock;
pub mod xml;
pub mod delete;
pub mod object_formats;
pub mod bucket_formats;
