//! A test-support library for exercising partial-transfer code paths.
//!
//! Rust's byte-stream interfaces allow a read or write call to transfer
//! fewer bytes than the caller requested, but that case is rarely hit in
//! practice and so often goes untested.  This crate provides a wrapper
//! that deliberately truncates every read and write request of length
//! two or more to a random sub-length, forcing callers to handle short
//! transfers correctly.  Seek and flush pass through unchanged.

pub mod chooser;
pub mod laws;
pub mod partial;
pub mod stream;
