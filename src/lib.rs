//! A binary codec for the SSH 2.0 wire protocol: the primitive wire types,
//! the protocol messages built from them, and the framing of payloads into
//! padded, authenticated and encrypted packets.
use vstd::prelude::*;

pub mod arch;
pub mod checksum;
mod cipher;
pub mod connect;
mod error;
mod id;
pub mod kex;
pub mod laws;
mod none;
pub mod packet;
pub mod transport;
pub mod userauth;
pub mod wire;

pub use checksum::{ChecksumCipher, ChecksumMac};
pub use cipher::{CipherCore, Mac, OpeningCipher, SealingCipher};
pub use error::Error;
pub use id::Id;
pub use none::{NoneCipher, NoneMac};
pub use packet::{padding, Packet, PACKET_MAX_SIZE, PACKET_MIN_SIZE};

verus! {

} // verus!
