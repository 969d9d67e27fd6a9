use vstd::prelude::*;

verus! {

/// Errors of the secure channel. All but `HandleAlreadyTaken` are fatal to
/// the session that raises them.
#[derive(Clone, Copy, Debug, PartialEq, Eq, Structural)]
pub enum SecioError {
    /// An inbound frame was smaller than the MAC tag.
    FrameTooShort,
    /// MAC verification of an inbound frame failed.
    HmacNotMatching,
    /// The first decrypted bytes did not match the nonce the peer promised.
    NonceVerificationFailed,
    /// An inbound frame exceeded the configured maximum frame length.
    FrameTooLong,
    /// The underlying transport reported a read or write error.
    TransportIo,
    /// A handle to this stream was already created.
    HandleAlreadyTaken,
}

} // verus!
