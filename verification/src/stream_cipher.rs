//! Counter-mode stream ciphers. The keystream itself comes from outside
//! block-cipher implementations; the cipher state, the XOR of data with the
//! keystream and the advance of the counter are verified here.

use vstd::prelude::*;
use vstd::slice::slice_to_vec;

verus! {

/// The block ciphers a secure stream may run in counter mode.
#[derive(Clone, Copy, Debug, PartialEq, Eq, Structural)]
pub enum Cipher {
    /// AES with a 128-bit key.
    Aes128,
    /// AES with a 256-bit key.
    Aes256,
    /// Twofish with a 256-bit key.
    TwofishCtr,
}

impl Cipher {
    /// Key length in bytes of this cipher.
    pub open spec fn spec_key_size(self) -> int {
        match self {
            Cipher::Aes128 => 16,
            Cipher::Aes256 => 32,
            Cipher::TwofishCtr => 32,
        }
    }

    /// Key length in bytes of this cipher.
    pub fn key_size(self) -> (r: usize)
        ensures
            r == self.spec_key_size(),
    {
        match self {
            Cipher::Aes128 => 16,
            Cipher::Aes256 => 32,
            Cipher::TwofishCtr => 32,
        }
    }
}

/// The keystream AES-128 in big-endian 128-bit counter mode produces from a
/// key and an IV: the `len` bytes starting `pos` bytes into the stream.
pub uninterp spec fn aes128_keystream_of(key: Seq<u8>, iv: Seq<u8>, pos: int, len: int) -> Seq<u8>;

/// The keystream AES-256 in big-endian 128-bit counter mode produces.
pub uninterp spec fn aes256_keystream_of(key: Seq<u8>, iv: Seq<u8>, pos: int, len: int) -> Seq<u8>;

/// The keystream Twofish in big-endian 128-bit counter mode produces.
pub uninterp spec fn twofish_keystream_of(key: Seq<u8>, iv: Seq<u8>, pos: int, len: int) -> Seq<u8>;

/// The keystream of `cipher` under `key` and `iv`: `len` bytes starting at
/// byte offset `pos`.
pub open spec fn keystream_of(cipher: Cipher, key: Seq<u8>, iv: Seq<u8>, pos: int, len: int) -> Seq<
    u8,
> {
    match cipher {
        Cipher::Aes128 => aes128_keystream_of(key, iv, pos, len),
        Cipher::Aes256 => aes256_keystream_of(key, iv, pos, len),
        Cipher::TwofishCtr => twofish_keystream_of(key, iv, pos, len),
    }
}

/// Relies on `ctr::Ctr128BE<aes::Aes128>`: the keystream is a function of the
/// key and IV alone; seeking to `pos` and applying to zeroes yields the
/// keystream bytes. The given lengths make construction and seeking infallible.
#[verifier::external_body]
fn aes128_keystream(key: &[u8], iv: &[u8], pos: u64, len: usize) -> (r: Vec<u8>)
    requires
        key@.len() == 16,
        iv@.len() == 16,
    ensures
        r@ == aes128_keystream_of(key@, iv@, pos as int, len as int),
        r@.len() == len,
{
    let mut c = <ctr::Ctr128BE<aes::Aes128> as cipher::KeyIvInit>::new_from_slices(key, iv)
        .unwrap();
    cipher::StreamCipherSeek::seek(&mut c, pos);
    let mut buf = vec![0u8; len];
    cipher::StreamCipher::apply_keystream(&mut c, &mut buf);
    buf
}

/// Relies on `ctr::Ctr128BE<aes::Aes256>`: as for AES-128, with a 32-byte key.
#[verifier::external_body]
fn aes256_keystream(key: &[u8], iv: &[u8], pos: u64, len: usize) -> (r: Vec<u8>)
    requires
        key@.len() == 32,
        iv@.len() == 16,
    ensures
        r@ == aes256_keystream_of(key@, iv@, pos as int, len as int),
        r@.len() == len,
{
    let mut c = <ctr::Ctr128BE<aes::Aes256> as cipher::KeyIvInit>::new_from_slices(key, iv)
        .unwrap();
    cipher::StreamCipherSeek::seek(&mut c, pos);
    let mut buf = vec![0u8; len];
    cipher::StreamCipher::apply_keystream(&mut c, &mut buf);
    buf
}

/// Relies on `ctr::Ctr128BE<twofish::Twofish>`: as above, with a 32-byte key.
#[verifier::external_body]
fn twofish_keystream(key: &[u8], iv: &[u8], pos: u64, len: usize) -> (r: Vec<u8>)
    requires
        key@.len() == 32,
        iv@.len() == 16,
    ensures
        r@ == twofish_keystream_of(key@, iv@, pos as int, len as int),
        r@.len() == len,
{
    let mut c = <ctr::Ctr128BE<twofish::Twofish> as cipher::KeyIvInit>::new_from_slices(key, iv)
        .unwrap();
    cipher::StreamCipherSeek::seek(&mut c, pos);
    let mut buf = vec![0u8; len];
    cipher::StreamCipher::apply_keystream(&mut c, &mut buf);
    buf
}

/// Pointwise XOR of `a` with the first `a.len()` bytes of `k`.
pub open spec fn xor_seq(a: Seq<u8>, k: Seq<u8>) -> Seq<u8> {
    Seq::new(a.len(), |i: int| a[i] ^ k[i])
}

/// XOR with the same bytes twice gives the original sequence back.
pub proof fn lemma_xor_seq_involutive(a: Seq<u8>, k: Seq<u8>)
    ensures
        xor_seq(xor_seq(a, k), k) == a,
{
    assert forall|i: int| 0 <= i < a.len() implies xor_seq(xor_seq(a, k), k)[i] == a[i] by {
        let x = a[i];
        let y = k[i];
        assert((x ^ y) ^ y == x) by (bit_vector);
    }
    assert(xor_seq(xor_seq(a, k), k) =~= a);
}

/// A counter-mode stream cipher: one direction of a secure channel. The
/// keystream position advances by the length of every buffer processed and is
/// never reset within a session.
#[derive(Clone)]
pub struct StreamCipher {
    /// Which block cipher drives the keystream.
    pub cipher: Cipher,
    /// The symmetric key; its length is `cipher.key_size()`.
    pub key: Vec<u8>,
    /// The initial counter block delivered by the handshake; 16 bytes.
    pub iv: Vec<u8>,
    /// How many keystream bytes have been consumed.
    pub pos: u64,
}

impl StreamCipher {
    /// Key and IV lengths fit the chosen cipher.
    pub open spec fn wf(self) -> bool {
        &&& self.key@.len() == self.cipher.spec_key_size()
        &&& self.iv@.len() == 16
    }

    /// The next `len` keystream bytes of this cipher state.
    pub open spec fn stream_at(self, len: int) -> Seq<u8> {
        keystream_of(self.cipher, self.key@, self.iv@, self.pos as int, len)
    }

    /// The same cipher with its position advanced by `n` bytes.
    pub open spec fn advanced(self, n: int) -> StreamCipher {
        StreamCipher { pos: (self.pos + n) as u64, ..self }
    }

    /// Build a counter-mode cipher at position zero.
    pub fn new(cipher: Cipher, key: &[u8], iv: &[u8]) -> (r: StreamCipher)
        requires
            key@.len() == cipher.spec_key_size(),
            iv@.len() == 16,
        ensures
            r.cipher == cipher,
            r.key@ == key@,
            r.iv@ == iv@,
            r.pos == 0,
            r.wf(),
    {
        StreamCipher { cipher, key: slice_to_vec(key), iv: slice_to_vec(iv), pos: 0 }
    }

    /// XOR `data` in place with the next `data.len()` keystream bytes and
    /// advance the counter by as much.
    pub fn encrypt(&mut self, data: &mut Vec<u8>)
        requires
            old(self).wf(),
            old(self).pos + old(data)@.len() <= u64::MAX,
        ensures
            final(data)@ == xor_seq(old(data)@, old(self).stream_at(old(data)@.len() as int)),
            *final(self) == old(self).advanced(old(data)@.len() as int),
    {
        self.apply_keystream(data);
    }

    /// Identical to `encrypt`: in counter mode decryption is the same XOR.
    pub fn decrypt(&mut self, data: &mut Vec<u8>)
        requires
            old(self).wf(),
            old(self).pos + old(data)@.len() <= u64::MAX,
        ensures
            final(data)@ == xor_seq(old(data)@, old(self).stream_at(old(data)@.len() as int)),
            *final(self) == old(self).advanced(old(data)@.len() as int),
    {
        self.apply_keystream(data);
    }

    fn apply_keystream(&mut self, data: &mut Vec<u8>)
        requires
            old(self).wf(),
            old(self).pos + old(data)@.len() <= u64::MAX,
        ensures
            final(data)@ == xor_seq(old(data)@, old(self).stream_at(old(data)@.len() as int)),
            *final(self) == old(self).advanced(old(data)@.len() as int),
    {
        let n = data.len();
        let ks: Vec<u8> = match self.cipher {
            Cipher::Aes128 => aes128_keystream(self.key.as_slice(), self.iv.as_slice(), self.pos, n),
            Cipher::Aes256 => aes256_keystream(self.key.as_slice(), self.iv.as_slice(), self.pos, n),
            Cipher::TwofishCtr => twofish_keystream(
                self.key.as_slice(),
                self.iv.as_slice(),
                self.pos,
                n,
            ),
        };
        let mut out: Vec<u8> = Vec::new();
        let mut i: usize = 0;
        while i < n
            invariant
                i <= n,
                n == data@.len(),
                ks@ == old(self).stream_at(n as int),
                ks@.len() == n,
                out@ =~= xor_seq(data@, ks@).take(i as int),
                *self == *old(self),
            decreases n - i,
        {
            out.push(data[i] ^ ks[i]);
            assert(out@ =~= xor_seq(data@, ks@).take(i + 1));
            i = i + 1;
        }
        assert(out@ =~= xor_seq(data@, ks@));
        *data = out;
        self.pos = self.pos + n as u64;
    }
}

/// Build a counter-mode cipher seeded with `key` and `iv`.
pub fn ctr_int(cipher: Cipher, key: &[u8], iv: &[u8]) -> (r: StreamCipher)
    requires
        key@.len() == cipher.spec_key_size(),
        iv@.len() == 16,
    ensures
        r.cipher == cipher,
        r.key@ == key@,
        r.iv@ == iv@,
        r.pos == 0,
        r.wf(),
{
    StreamCipher::new(cipher, key, iv)
}

} // verus!
