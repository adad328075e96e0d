//! Core of a single-tenant-per-user network file manager: session
//! authentication coupled to tenant isolation, path resolution that keeps
//! every operation inside the storage root, name sanitization, the
//! decision logic of the filesystem lifecycle operations (list, create,
//! delete, upload), the archive subsystem, and the temp-area janitor.
//!
//! All filesystem and process side effects are performed by the caller:
//! the functions here take the observed facts (existence classes,
//! directory entries) as plain values and return typed outcomes together
//! with the actions to perform.

pub mod archive;
pub mod auth;
pub mod context;
pub mod credentials;
pub mod hashing;
pub mod janitor;
pub mod listing;
pub mod ops;
pub mod paths;
pub mod sanitize;
pub mod strutil;
