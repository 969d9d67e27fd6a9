//! Keyed MACs over SHA-256 or SHA-512. The digest computation comes from an
//! outside HMAC implementation; tag sizes, signing and the meaning of a
//! successful verification are stated here.

use vstd::prelude::*;

verus! {

/// The hash functions a secure stream may MAC with.
#[derive(Clone, Copy, Debug, PartialEq, Eq, Structural)]
pub enum Digest {
    /// HMAC over SHA-256: 32-byte tags.
    Sha256,
    /// HMAC over SHA-512: 64-byte tags.
    Sha512,
}

impl Digest {
    /// Tag width in bytes of this digest.
    pub open spec fn spec_tag_size(self) -> int {
        match self {
            Digest::Sha256 => 32,
            Digest::Sha512 => 64,
        }
    }

    /// Tag width in bytes of this digest.
    pub fn tag_size(self) -> (r: usize)
        ensures
            r == self.spec_tag_size(),
    {
        match self {
            Digest::Sha256 => 32,
            Digest::Sha512 => 64,
        }
    }
}

/// What HMAC-SHA256 computes from a key and a message.
pub uninterp spec fn hmac_sha256_raw(key: Seq<u8>, data: Seq<u8>) -> Seq<u8>;

/// What HMAC-SHA512 computes from a key and a message.
pub uninterp spec fn hmac_sha512_raw(key: Seq<u8>, data: Seq<u8>) -> Seq<u8>;

/// The HMAC-SHA256 tag of `data` under `key`; 32 bytes.
pub open spec fn hmac_sha256_of(key: Seq<u8>, data: Seq<u8>) -> Seq<u8> {
    Seq::new(32, |i: int| hmac_sha256_raw(key, data)[i])
}

/// The HMAC-SHA512 tag of `data` under `key`; 64 bytes.
pub open spec fn hmac_sha512_of(key: Seq<u8>, data: Seq<u8>) -> Seq<u8> {
    Seq::new(64, |i: int| hmac_sha512_raw(key, data)[i])
}

/// The tag `digest` produces for `data` under `key`.
pub open spec fn hmac_of(digest: Digest, key: Seq<u8>, data: Seq<u8>) -> Seq<u8> {
    match digest {
        Digest::Sha256 => hmac_sha256_of(key, data),
        Digest::Sha512 => hmac_sha512_of(key, data),
    }
}

/// Relies on `hmac::Hmac<sha2::Sha256>`: the 32-byte tag is a function of key
/// and message alone; HMAC accepts keys of any length, so construction cannot
/// fail.
#[verifier::external_body]
fn hmac_sha256_sign(key: &[u8], data: &[u8]) -> (r: Vec<u8>)
    ensures
        r@ == Seq::new(32, |i: int| hmac_sha256_raw(key@, data@)[i]),
        r@ == hmac_sha256_of(key@, data@),
        r@.len() == 32,
{
    let mut m = <hmac::Hmac<sha2::Sha256> as hmac::KeyInit>::new_from_slice(key).unwrap();
    hmac::Mac::update(&mut m, data);
    hmac::Mac::finalize(m).into_bytes().to_vec()
}

/// Relies on `hmac::Hmac<sha2::Sha512>`: as above, with 64-byte tags.
#[verifier::external_body]
fn hmac_sha512_sign(key: &[u8], data: &[u8]) -> (r: Vec<u8>)
    ensures
        r@ == Seq::new(64, |i: int| hmac_sha512_raw(key@, data@)[i]),
        r@ == hmac_sha512_of(key@, data@),
        r@.len() == 64,
{
    let mut m = <hmac::Hmac<sha2::Sha512> as hmac::KeyInit>::new_from_slice(key).unwrap();
    hmac::Mac::update(&mut m, data);
    hmac::Mac::finalize(m).into_bytes().to_vec()
}

/// Relies on `hmac::Mac::verify_slice`: it succeeds exactly when `tag` equals
/// the computed 32-byte tag, comparing in constant time.
#[verifier::external_body]
fn hmac_sha256_check(key: &[u8], data: &[u8], tag: &[u8]) -> (r: bool)
    ensures
        r == (tag@ == hmac_sha256_of(key@, data@)),
{
    let mut m = <hmac::Hmac<sha2::Sha256> as hmac::KeyInit>::new_from_slice(key).unwrap();
    hmac::Mac::update(&mut m, data);
    hmac::Mac::verify_slice(m, tag).is_ok()
}

/// Relies on `hmac::Mac::verify_slice`: as above, against the 64-byte tag.
#[verifier::external_body]
fn hmac_sha512_check(key: &[u8], data: &[u8], tag: &[u8]) -> (r: bool)
    ensures
        r == (tag@ == hmac_sha512_of(key@, data@)),
{
    let mut m = <hmac::Hmac<sha2::Sha512> as hmac::KeyInit>::new_from_slice(key).unwrap();
    hmac::Mac::update(&mut m, data);
    hmac::Mac::verify_slice(m, tag).is_ok()
}

/// A keyed MAC bound to one direction of a secure channel.
#[derive(Clone)]
pub struct Hmac {
    /// Which hash function the MAC runs over.
    pub digest: Digest,
    /// The MAC key.
    pub key: Vec<u8>,
}

impl Hmac {
    /// The tag this MAC produces for `data`.
    pub open spec fn spec_sign(self, data: Seq<u8>) -> Seq<u8> {
        hmac_of(self.digest, self.key@, data)
    }

    /// Build a MAC from a digest choice and a key of any length.
    pub fn from_key(digest: Digest, key: &[u8]) -> (r: Hmac)
        ensures
            r.digest == digest,
            r.key@ == key@,
    {
        Hmac { digest, key: vstd::slice::slice_to_vec(key) }
    }

    /// Tag width in bytes.
    pub fn num_bytes(&self) -> (r: usize)
        ensures
            r == self.digest.spec_tag_size(),
    {
        self.digest.tag_size()
    }

    /// Compute the tag of `data`.
    pub fn sign(&self, data: &[u8]) -> (r: Vec<u8>)
        ensures
            r@ == self.spec_sign(data@),
            r@.len() == self.digest.spec_tag_size(),
    {
        match self.digest {
            Digest::Sha256 => hmac_sha256_sign(self.key.as_slice(), data),
            Digest::Sha512 => hmac_sha512_sign(self.key.as_slice(), data),
        }
    }

    /// Check `tag` against the tag of `data`, in constant time.
    pub fn verify(&self, data: &[u8], tag: &[u8]) -> (r: bool)
        ensures
            r == (tag@ == self.spec_sign(data@)),
    {
        match self.digest {
            Digest::Sha256 => hmac_sha256_check(self.key.as_slice(), data, tag),
            Digest::Sha512 => hmac_sha512_check(self.key.as_slice(), data, tag),
        }
    }
}

} // verus!
