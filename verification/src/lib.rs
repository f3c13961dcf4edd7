//! Rotation of short-lived AWS credentials that are derived from a
//! long-term, MFA-protected profile.
//!
//! The library holds what such a rotation decides and computes: it reads
//! the credentials store, resolves the long-term profile, tells whether
//! cached short-term credentials are still valid, derives the name under
//! which short-term credentials are stored, says what to ask of the issuing
//! service and what its answer means, merges the answer into the store and
//! hands out the bytes to write. Reading the clock aside, it touches nothing
//! outside itself: files, the terminal and the network are the caller's,
//! who is told step by step what to do there.
//!
//! - [`store`]: the model of the sectioned document behind the store, and
//!   what is relied on of the `ini` crate that holds it;
//! - [`creds`]: the store, resolution, validity and merging;
//! - [`profile`]: the long-term and short-term identity and the timestamp;
//! - [`sts`]: the two ways of issuing, their settings, and the steps of a
//!   rotation;
//! - [`cmds`]: the commands, among them clean-up and listing;
//! - [`utils`], [`text`], [`keys`], [`error`]: durations, text, the keys of
//!   a credentials file, and failures.

pub mod cmds;
pub mod creds;
pub mod error;
pub mod keys;
pub mod profile;
pub mod store;
pub mod sts;
pub mod text;
pub mod utils;
