//! Peer identity: the multihash of the SHA-256 digest of a peer's public key
//! serialization, with its binary and base58 codecs. The hash and the base58
//! alphabet come from outside crates; the multihash layout, its validation
//! and the parsing round trips are verified here.

use vstd::prelude::*;
use vstd::slice::slice_subrange;

verus! {

/// What SHA-256 computes from a message.
pub uninterp spec fn sha256_raw(data: Seq<u8>) -> Seq<u8>;

/// The SHA-256 digest of `data`; 32 bytes.
pub open spec fn sha256_of(data: Seq<u8>) -> Seq<u8> {
    Seq::new(32, |i: int| sha256_raw(data)[i])
}

/// Relies on `sha2::Sha256`: the 32-byte digest is a function of the message
/// alone.
#[verifier::external_body]
fn sha256(data: &[u8]) -> (r: Vec<u8>)
    ensures
        r@ == Seq::new(32, |i: int| sha256_raw(data@)[i]),
        r@ == sha256_of(data@),
        r@.len() == 32,
{
    <sha2::Sha256 as sha2::Digest>::digest(data).to_vec()
}

/// The base58 (bitcoin alphabet) string encoding of a byte string.
pub uninterp spec fn base58_of(data: Seq<u8>) -> Seq<char>;

/// Relies on `bs58::encode`: the string is a function of the bytes alone.
#[verifier::external_body]
fn base58_encode(data: &[u8]) -> (r: String)
    ensures
        r@ == base58_of(data@),
{
    bs58::encode(data).into_string()
}

/// Relies on `bs58::decode`: base58 is a bijection between byte strings and
/// their canonical encodings, so decoding succeeds exactly on an encoding and
/// returns the bytes it encodes.
#[verifier::external_body]
fn base58_decode(s: &str) -> (r: Result<Vec<u8>, ()>)
    ensures
        (r matches Ok(v) ==> s@ == base58_of(v@)),
        (r matches Ok(v) ==> forall|b: Seq<u8>| s@ == base58_of(b) ==> v@ == b),
        (r is Err ==> forall|b: Seq<u8>| s@ != base58_of(b)),
{
    bs58::decode(s).into_vec().map_err(|_| ())
}

/// An unsigned LEB128 varint at the front of `s`, fitting a `u16`: the value
/// and how many bytes it took, or nothing if `s` starts with no such varint.
/// Only the minimal encoding of a value is read: a continuation followed by
/// a zero last byte spells the same value in more bytes and is refused, so
/// no value has two accepted spellings.
pub open spec fn spec_varint_u16(s: Seq<u8>) -> Option<(u16, int)> {
    if s.len() >= 1 && s[0] < 0x80 {
        Some((s[0] as u16, 1int))
    } else if s.len() >= 2 && s[0] >= 0x80 && 0 < s[1] < 0x80 {
        Some((((s[0] as int - 0x80) + s[1] as int * 0x80) as u16, 2int))
    } else if s.len() >= 3 && s[0] >= 0x80 && s[1] >= 0x80 && 0 < s[2] <= 3 {
        Some(
            (((s[0] as int - 0x80) + (s[1] as int - 0x80) * 0x80 + s[2] as int * 0x4000) as u16,
            3int),
        )
    } else {
        None
    }
}

/// Read the varint at the front of `data`.
fn decode_varint_u16(data: &[u8]) -> (r: Option<(u16, usize)>)
    ensures
        (spec_varint_u16(data@) matches Some(p) ==> (r matches Some(q) && q.0 == p.0 && q.1 as int
            == p.1)),
        (spec_varint_u16(data@) is None ==> r is None),
{
    if data.len() >= 1 && data[0] < 0x80 {
        return Some((data[0] as u16, 1));
    }
    if data.len() >= 2 && data[0] >= 0x80 && 0 < data[1] && data[1] < 0x80 {
        let v: u16 = (data[0] as u16 - 0x80) + data[1] as u16 * 0x80;
        return Some((v, 2));
    }
    if data.len() >= 3 && data[0] >= 0x80 && data[1] >= 0x80 && 0 < data[2] && data[2] <= 3 {
        let v: u16 = (data[0] as u16 - 0x80) + (data[1] as u16 - 0x80) * 0x80 + data[2] as u16
            * 0x4000;
        return Some((v, 3));
    }
    None
}

/// The multihash a peer id carries for public key bytes `k`: the SHA-256
/// code, the digest width, then the digest itself.
pub open spec fn peer_id_of(k: Seq<u8>) -> Seq<u8> {
    seq![0x12u8, 32u8] + sha256_of(k)
}

/// `s` is a well-formed peer id: a varint multihash code of SHA-256, a width
/// byte of 32, and exactly 32 bytes of digest after them.
pub open spec fn valid_peer_id_bytes(s: Seq<u8>) -> bool {
    match spec_varint_u16(s) {
        Some((code, n)) => code == 0x12 && s.len() == n + 33 && s[n] == 32,
        None => false,
    }
}

/// A public key as the handshake hands it over: its canonical serialization.
#[derive(Clone, PartialEq, Eq, Debug)]
pub struct PublicKey {
    /// The canonical byte serialization of the key.
    pub inner: Vec<u8>,
}

impl PublicKey {
    /// Wrap a canonical key serialization.
    pub fn new(inner: Vec<u8>) -> (r: PublicKey)
        ensures
            r.inner@ == inner@,
    {
        PublicKey { inner }
    }

    /// The serialized key bytes.
    pub fn inner_ref(&self) -> (r: &[u8])
        ensures
            r@ == self.inner@,
    {
        self.inner.as_slice()
    }
}

/// Identifier of a peer of the network: a multihash over the SHA-256 digest
/// of the peer's public key serialization.
#[derive(Clone, PartialEq, Eq, Hash, Debug)]
pub struct PeerId {
    inner: Vec<u8>,
}

impl View for PeerId {
    type V = Seq<u8>;

    closed spec fn view(&self) -> Seq<u8> {
        self.inner@
    }
}

impl PeerId {
    /// The identifier is a well-formed multihash.
    pub open spec fn wf(self) -> bool {
        valid_peer_id_bytes(self@)
    }

    /// Build a `PeerId` from a public key: multihash header, then the
    /// SHA-256 digest of the key's serialization.
    pub fn from_public_key(public_key: &PublicKey) -> (r: PeerId)
        ensures
            r@ == peer_id_of(public_key.inner@),
            r.wf(),
    {
        let mut inner: Vec<u8> = Vec::new();
        inner.push(0x12);
        inner.push(32);
        let mut digest = sha256(public_key.inner_ref());
        inner.append(&mut digest);
        assert(inner@ =~= peer_id_of(public_key.inner@));
        proof {
            lemma_peer_id_of_valid(public_key.inner@);
        }
        PeerId { inner }
    }

    /// Accept `data` as a peer id exactly when it is a well-formed multihash;
    /// the accepted id carries exactly these bytes.
    pub fn from_bytes(data: Vec<u8>) -> (r: Result<PeerId, ()>)
        ensures
            valid_peer_id_bytes(data@) ==> (r matches Ok(p) && p@ == data@ && p.wf()),
            !valid_peer_id_bytes(data@) ==> r is Err,
    {
        match decode_varint_u16(data.as_slice()) {
            None => Err(()),
            Some((code, n)) => {
                if code != 0x12 {
                    return Err(());
                }
                if data.len() < n || data.len() - n != 33 {
                    return Err(());
                }
                if data[n] != 32 {
                    return Err(());
                }
                Ok(PeerId { inner: data })
            },
        }
    }

    /// The raw bytes of this peer id.
    pub fn as_bytes(&self) -> (r: &[u8])
        ensures
            r@ == self@,
    {
        self.inner.as_slice()
    }

    /// The base58 string form of this peer id.
    pub fn to_base58(&self) -> (r: String)
        ensures
            r@ == base58_of(self@),
    {
        base58_encode(self.inner.as_slice())
    }

    /// The raw digest bytes behind the multihash header.
    pub fn digest(&self) -> (r: &[u8])
        requires
            self.wf(),
        ensures
            (spec_varint_u16(self@) matches Some(p) ==> r@ == self@.skip(p.1 + 1)),
    {
        let n = match decode_varint_u16(self.inner.as_slice()) {
            Some((_, n)) => n,
            None => 0,
        };
        slice_subrange(self.inner.as_slice(), n + 1, self.inner.len())
    }

    /// Parse the base58 form back to a peer id: exactly the encodings of
    /// well-formed multihashes are accepted.
    pub fn from_base58(s: &str) -> (r: Result<PeerId, ()>)
        ensures
            forall|b: Seq<u8>|
                s@ == base58_of(b) && valid_peer_id_bytes(b) ==> (r matches Ok(p) && p@ == b),
            (r matches Ok(p) ==> s@ == base58_of(p@) && p.wf()),
    {
        match base58_decode(s) {
            Ok(bytes) => PeerId::from_bytes(bytes),
            Err(_) => Err(()),
        }
    }

    /// Does `public_key` hash to this peer id?
    pub fn is_public_key(&self, public_key: &PublicKey) -> (r: bool)
        ensures
            r == (self@ == peer_id_of(public_key.inner@)),
    {
        let other = PeerId::from_public_key(public_key);
        bytes_eq(self.inner.as_slice(), other.inner.as_slice())
    }
}

impl core::str::FromStr for PeerId {
    type Err = ();

    fn from_str(s: &str) -> Result<PeerId, ()> {
        PeerId::from_base58(s)
    }
}

/// Two byte strings hold the same bytes.
fn bytes_eq(a: &[u8], b: &[u8]) -> (r: bool)
    ensures
        r == (a@ == b@),
{
    if a.len() != b.len() {
        assert(a@ != b@);
        return false;
    }
    let n = a.len();
    let mut i: usize = 0;
    while i < n
        invariant
            i <= n,
            n == a@.len(),
            n == b@.len(),
            forall|j: int| 0 <= j < i ==> a@[j] == b@[j],
        decreases n - i,
    {
        if a[i] != b[i] {
            return false;
        }
        i = i + 1;
    }
    assert(a@ =~= b@);
    true
}

/// The multihash built for any public key is well formed and 34 bytes long.
pub proof fn lemma_peer_id_of_valid(k: Seq<u8>)
    ensures
        valid_peer_id_bytes(peer_id_of(k)),
        peer_id_of(k).len() == 34,
{
    let s = peer_id_of(k);
    assert(s[0] == 0x12);
    assert(s[1] == 32);
    assert(s.len() == 34);
}

/// Negative parsing: empty input, a wrong multihash code, a wrong width
/// byte, a truncated or overlong payload, and a non-minimal spelling of the
/// code are all rejected.
pub proof fn lemma_peer_id_negative_parsing(s: Seq<u8>)
    ensures
        s.len() == 0 ==> !valid_peer_id_bytes(s),
        (spec_varint_u16(s) matches Some(p) && p.0 != 0x12) ==> !valid_peer_id_bytes(s),
        (spec_varint_u16(s) matches Some(p) && s.len() != p.1 + 33) ==> !valid_peer_id_bytes(s),
        (spec_varint_u16(s) matches Some(p) && s.len() > p.1 && s[p.1] != 32)
            ==> !valid_peer_id_bytes(s),
        spec_varint_u16(s) is None ==> !valid_peer_id_bytes(s),
        (s.len() >= 2 && s[0] >= 0x80 && s[1] == 0) ==> !valid_peer_id_bytes(s),
{
}

/// A well-formed peer id has exactly one shape: the single-byte SHA-256
/// code, the width byte, and 32 digest bytes — 34 bytes in all. No other
/// spelling of the code is accepted, so one identity has one byte form.
pub proof fn lemma_peer_id_canonical(s: Seq<u8>)
    ensures
        valid_peer_id_bytes(s) <==> (s.len() == 34 && s[0] == 0x12 && s[1] == 32),
{
    if valid_peer_id_bytes(s) {
        if s.len() >= 2 && s[0] >= 0x80 && 0 < s[1] < 0x80 {
            assert((s[0] as int - 0x80) + s[1] as int * 0x80 >= 0x80);
        }
        if s.len() >= 3 && s[0] >= 0x80 && s[1] >= 0x80 && 0 < s[2] <= 3 {
            assert((s[0] as int - 0x80) + (s[1] as int - 0x80) * 0x80 + s[2] as int * 0x4000
                >= 0x4000);
        }
    }
}

} // verus!
