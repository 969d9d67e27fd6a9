//! Configuration the handshake starts from: the local key pair, the
//! comma-joined proposals of supported algorithms, and the frame length
//! bound. The handshake procedure itself (proposal exchange, ECDH, key
//! derivation) is a collaborator outside this library; it ends by delivering
//! per-direction ciphers, MACs and the peer's nonce to the secure stream.

use vstd::prelude::*;
use vstd::string::StringExecFns;

use crate::framing::DEFAULT_MAX_FRAME_LENGTH;
use crate::mac::Digest;
use crate::stream_cipher::Cipher;

verus! {

/// The key agreement algorithms a handshake may propose.
#[derive(Clone, Copy, Debug, PartialEq, Eq, Structural)]
pub enum KeyAgreement {
    /// ECDH over the P-256 curve.
    EcdhP256,
    /// ECDH over the P-384 curve.
    EcdhP384,
}

/// The name under which a key agreement is proposed.
pub open spec fn key_agreement_name(k: KeyAgreement) -> Seq<char> {
    match k {
        KeyAgreement::EcdhP256 => "P-256"@,
        KeyAgreement::EcdhP384 => "P-384"@,
    }
}

/// The name under which a cipher is proposed.
pub open spec fn cipher_name(c: Cipher) -> Seq<char> {
    match c {
        Cipher::Aes128 => "AES-128"@,
        Cipher::Aes256 => "AES-256"@,
        Cipher::TwofishCtr => "TwofishCTR"@,
    }
}

/// The name under which a digest is proposed.
pub open spec fn digest_name(d: Digest) -> Seq<char> {
    match d {
        Digest::Sha256 => "SHA256"@,
        Digest::Sha512 => "SHA512"@,
    }
}

/// Names joined by commas, in order.
pub open spec fn join_names(ns: Seq<Seq<char>>) -> Seq<char>
    decreases ns.len(),
{
    if ns.len() == 0 {
        Seq::empty()
    } else if ns.len() == 1 {
        ns[0]
    } else {
        join_names(ns.drop_last()) + ","@ + ns.last()
    }
}

/// The proposal names of a sequence of key agreements.
pub open spec fn agreement_names(xs: Seq<KeyAgreement>) -> Seq<Seq<char>> {
    xs.map_values(|k: KeyAgreement| key_agreement_name(k))
}

/// The proposal names of a sequence of ciphers.
pub open spec fn cipher_names(xs: Seq<Cipher>) -> Seq<Seq<char>> {
    xs.map_values(|c: Cipher| cipher_name(c))
}

/// The proposal names of a sequence of digests.
pub open spec fn digest_names(xs: Seq<Digest>) -> Seq<Seq<char>> {
    xs.map_values(|d: Digest| digest_name(d))
}

/// The local identity the handshake signs with; its key material is opaque
/// to this library.
#[derive(Clone, Debug)]
pub struct SecioKeyPair {
    /// The serialized secret key material.
    pub inner: Vec<u8>,
}

impl SecioKeyPair {
    /// Wrap serialized secret key material.
    pub fn new(inner: Vec<u8>) -> (r: SecioKeyPair)
        ensures
            r.inner@ == inner@,
    {
        SecioKeyPair { inner }
    }
}

/// Config for a secio handshake.
#[derive(Clone, Debug)]
pub struct Config {
    /// The local key pair.
    pub key: SecioKeyPair,
    /// Key agreements to propose instead of the defaults, comma-joined.
    pub agreements_proposal: Option<String>,
    /// Ciphers to propose instead of the defaults, comma-joined.
    pub ciphers_proposal: Option<String>,
    /// Digests to propose instead of the defaults, comma-joined.
    pub digests_proposal: Option<String>,
    /// Bound on the payload of every frame.
    pub max_frame_length: usize,
}

impl Config {
    /// A config proposing the defaults, with the 8 MiB frame bound.
    pub fn new(key_pair: SecioKeyPair) -> (r: Config)
        ensures
            r.key == key_pair,
            r.agreements_proposal is None,
            r.ciphers_proposal is None,
            r.digests_proposal is None,
            r.max_frame_length == DEFAULT_MAX_FRAME_LENGTH,
    {
        Config {
            key: key_pair,
            agreements_proposal: None,
            ciphers_proposal: None,
            digests_proposal: None,
            max_frame_length: DEFAULT_MAX_FRAME_LENGTH,
        }
    }

    /// Replace the frame length bound.
    pub fn max_frame_length(self, size: usize) -> (r: Config)
        ensures
            r.max_frame_length == size,
            r.key == self.key,
            r.agreements_proposal == self.agreements_proposal,
            r.ciphers_proposal == self.ciphers_proposal,
            r.digests_proposal == self.digests_proposal,
    {
        Config { max_frame_length: size, ..self }
    }

    /// Override the default set of supported key agreement algorithms.
    pub fn key_agreements(self, xs: &[KeyAgreement]) -> (r: Config)
        ensures
            r.agreements_proposal matches Some(s) && s@ == join_names(agreement_names(xs@)),
            r.key == self.key,
            r.ciphers_proposal == self.ciphers_proposal,
            r.digests_proposal == self.digests_proposal,
            r.max_frame_length == self.max_frame_length,
    {
        let mut s = String::new();
        let mut i: usize = 0;
        while i < xs.len()
            invariant
                i <= xs@.len(),
                s@ == join_names(agreement_names(xs@.take(i as int))),
            decreases xs@.len() - i,
        {
            if i > 0 {
                s.append(",");
            }
            match xs[i] {
                KeyAgreement::EcdhP256 => s.append("P-256"),
                KeyAgreement::EcdhP384 => s.append("P-384"),
            }
            proof {
                let taken = agreement_names(xs@.take(i + 1));
                assert(taken.drop_last() =~= agreement_names(xs@.take(i as int)));
                assert(taken.last() == key_agreement_name(xs@[i as int]));
            }
            i = i + 1;
        }
        assert(xs@.take(xs@.len() as int) =~= xs@);
        Config { agreements_proposal: Some(s), ..self }
    }

    /// Override the default set of supported ciphers.
    pub fn ciphers(self, xs: &[Cipher]) -> (r: Config)
        ensures
            r.ciphers_proposal matches Some(s) && s@ == join_names(cipher_names(xs@)),
            r.key == self.key,
            r.agreements_proposal == self.agreements_proposal,
            r.digests_proposal == self.digests_proposal,
            r.max_frame_length == self.max_frame_length,
    {
        let mut s = String::new();
        let mut i: usize = 0;
        while i < xs.len()
            invariant
                i <= xs@.len(),
                s@ == join_names(cipher_names(xs@.take(i as int))),
            decreases xs@.len() - i,
        {
            if i > 0 {
                s.append(",");
            }
            match xs[i] {
                Cipher::Aes128 => s.append("AES-128"),
                Cipher::Aes256 => s.append("AES-256"),
                Cipher::TwofishCtr => s.append("TwofishCTR"),
            }
            proof {
                let taken = cipher_names(xs@.take(i + 1));
                assert(taken.drop_last() =~= cipher_names(xs@.take(i as int)));
                assert(taken.last() == cipher_name(xs@[i as int]));
            }
            i = i + 1;
        }
        assert(xs@.take(xs@.len() as int) =~= xs@);
        Config { ciphers_proposal: Some(s), ..self }
    }

    /// Override the default set of supported digest algorithms.
    pub fn digests(self, xs: &[Digest]) -> (r: Config)
        ensures
            r.digests_proposal matches Some(s) && s@ == join_names(digest_names(xs@)),
            r.key == self.key,
            r.agreements_proposal == self.agreements_proposal,
            r.ciphers_proposal == self.ciphers_proposal,
            r.max_frame_length == self.max_frame_length,
    {
        let mut s = String::new();
        let mut i: usize = 0;
        while i < xs.len()
            invariant
                i <= xs@.len(),
                s@ == join_names(digest_names(xs@.take(i as int))),
            decreases xs@.len() - i,
        {
            if i > 0 {
                s.append(",");
            }
            match xs[i] {
                Digest::Sha256 => s.append("SHA256"),
                Digest::Sha512 => s.append("SHA512"),
            }
            proof {
                let taken = digest_names(xs@.take(i + 1));
                assert(taken.drop_last() =~= digest_names(xs@.take(i as int)));
                assert(taken.last() == digest_name(xs@[i as int]));
            }
            i = i + 1;
        }
        assert(xs@.take(xs@.len() as int) =~= xs@);
        Config { digests_proposal: Some(s), ..self }
    }
}

} // verus!
