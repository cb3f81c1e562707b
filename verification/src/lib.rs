//! Personal, content-addressed repository engine: validated identifiers,
//! records, a signed append-only commit chain and its materialised view.

pub mod assoc;
pub mod automerge_wrapper;
pub mod chain;
pub mod codec;
pub mod crdt;
pub mod ed25519;
pub mod error;
pub mod hash;
pub mod index;
pub mod json;
pub mod records;
pub mod repo;
pub mod snapshot;
pub mod storage;
pub mod text;
pub mod time;
pub mod traits;
pub mod types;

pub use error::Error;
