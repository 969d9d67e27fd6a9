//! Encrypted transport core of a peer-to-peer network stack: a length-framed,
//! encrypt-then-MAC secure channel, the peer identity it authenticates, and
//! the small pieces of configuration and address handling around it.

pub mod dns;
pub mod error;
pub mod framing;
pub mod handshake;
pub mod mac;
pub mod peer_id;
pub mod secure_stream;
pub mod stream_cipher;
pub mod stream_handle;
