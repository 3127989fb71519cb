//! A single-value accessor over a byte-addressed key-value store.
//!
//! A stored value is named by two static byte strings (a module prefix and a
//! storage prefix); their hashes are concatenated into a fixed 32-byte
//! address.  The accessor reads, writes, conditionally mutates, deletes,
//! appends to and measures the payload stored at that address, translating
//! between raw bytes and the caller-visible query type.

pub mod codec;
pub mod hash;
pub mod instances;
pub mod store;
pub mod value;
