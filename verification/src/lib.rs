//! Core of a chunk-oriented file-transfer protocol for lossy datagram links.
//!
//! A file is split into fixed-size chunks addressed by a content hash; peers
//! reconcile missing chunks through an explicit sync / sync-nack exchange and
//! finish with an export that reassembles and verifies the file. This crate
//! holds the verified core: the datagram framing and codec, the message set,
//! the content-addressed chunk store, the per-session state machine, the
//! server-side dispatcher and the pause/resume outbound queue. Socket and
//! file-system edges live with the caller.

use vstd::prelude::*;

pub mod cbor;
pub mod codec;
pub mod dispatch;
pub mod errors;
pub mod hashing;
pub mod machine;
pub mod message;
pub mod pause;
pub mod storage;
pub mod store;
pub mod telemetry;

verus! {

/// Default payload size of a single chunk message.
pub const CHUNK_SIZE: usize = 4096;

} // verus!
