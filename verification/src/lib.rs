//! Verified core of the borink utilities: a compact set of seen numbers, symmetric
//! encryption of login and session material, Git address bookkeeping, key-value metadata
//! layout, request routing decisions and lazily (de)serialized values.

pub mod compactset;
pub mod text;
pub mod bytes;
pub mod error;
pub mod process;
pub mod crypto;
pub mod auth;
pub mod session;
pub mod ephemeral;
pub mod login;
pub mod git;
pub mod kv;
pub mod git_ref;
pub mod git_call;
pub mod git_state;
pub mod derive;
pub mod server;
pub mod lazy;
pub mod cli;
pub mod client;
pub mod laws;

pub use compactset::{AtomicBitSet, AtomicSmallBitSet, CompactSet};
