//! An in-process, single-threaded heterogeneous key-value store.
//!
//! String keys map to type-erased values; the caller names the expected type
//! at read time, and a read succeeds exactly when the stored type matches.

pub mod db;
pub mod value;
