//! aptnomo: the verified core of an autonomous threat hunter.
//!
//! The library holds the shared threat model, the sled-backed threat store,
//! the detection rules that turn what the daemon reads from the machine into
//! threats, and the review rules behind the swipe interface.

pub mod codec;
pub mod daemon;
pub mod db;
pub mod error;
pub mod laws;
pub mod review;
pub mod scan;
pub mod store;
pub mod text;
pub mod types;
