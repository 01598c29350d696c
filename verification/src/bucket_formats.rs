//! The earlier format of the entries of the bucket table: what the current
//! format of `bucket_table` is migrated from.
pub mod v2;
