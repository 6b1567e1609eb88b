//! Fixed-width byte values handled by the message layer: digests, public
//! keys and signatures.
//!
//! The values are opaque here. Computing a digest, signing and checking a
//! signature are left to the caller, who hands the results in.

use vstd::prelude::*;
use vstd::std_specs::cmp::PartialEqSpecImpl;

verus! {

/// Number of bytes in a digest.
pub const HASH_SIZE: usize = 32;

/// Number of bytes in a public key.
pub const PUBLIC_KEY_LENGTH: usize = 32;

/// Number of bytes in a signature.
pub const SIGNATURE_LENGTH: usize = 64;

/// The array of the first `n` bytes of `s`, over zeros.
pub open spec fn array_prefix<const N: usize>(s: Seq<u8>, n: nat) -> [u8; N]
    decreases n,
{
    if n == 0 {
        [0u8; N]
    } else {
        vstd::array::spec_array_update(array_prefix::<N>(s, (n - 1) as nat), n - 1, s[n - 1])
    }
}

/// The array that holds the `N` bytes of `s`.
pub open spec fn array_of<const N: usize>(s: Seq<u8>) -> [u8; N] {
    array_prefix::<N>(s, N as nat)
}

/// `array_prefix` holds the first `n` bytes of `s`.
pub proof fn lemma_array_prefix<const N: usize>(s: Seq<u8>, n: nat)
    requires
        n <= N,
        s.len() >= n,
    ensures
        forall|i: int| 0 <= i < n ==> array_prefix::<N>(s, n)@[i] == s[i],
    decreases n,
{
    if n > 0 {
        lemma_array_prefix::<N>(s, (n - 1) as nat);
    }
}

/// `array_of` holds the bytes of a sequence of `N` bytes.
pub proof fn lemma_array_of<const N: usize>(s: Seq<u8>)
    requires
        s.len() == N,
    ensures
        array_of::<N>(s)@ == s,
{
    lemma_array_prefix::<N>(s, N as nat);
    assert(array_of::<N>(s)@ =~= s);
}

/// Copies the first `N` bytes of `src` into an array.
pub fn array_from_slice<const N: usize>(src: &[u8]) -> (out: [u8; N])
    requires
        src@.len() >= N,
    ensures
        out@ == src@.subrange(0, N as int),
{
    let mut out: [u8; N] = [0u8; N];
    let mut i: usize = 0;
    while i < N
        invariant
            i <= N,
            src@.len() >= N,
            out@.len() == N,
            forall|k: int| 0 <= k < i ==> out@[k] == src@[k],
        decreases N - i,
    {
        out[i] = src[i];
        i = i + 1;
    }
    assert(out@ =~= src@.subrange(0, N as int));
    out
}

/// Tells whether two arrays hold the same bytes.
pub fn arrays_equal<const N: usize>(a: &[u8; N], b: &[u8; N]) -> (same: bool)
    ensures
        same == (a@ == b@),
{
    let mut i: usize = 0;
    while i < N
        invariant
            i <= N,
            forall|k: int| 0 <= k < i ==> a@[k] == b@[k],
        decreases N - i,
    {
        if a[i] != b[i] {
            return false;
        }
        i = i + 1;
    }
    assert(a@ =~= b@);
    true
}

/// A SHA-256 digest.
#[derive(Clone, Copy, Debug, Eq, Hash)]
pub struct Hash {
    bytes: [u8; 32],
}

impl View for Hash {
    type V = Seq<u8>;

    closed spec fn view(&self) -> Seq<u8> {
        self.bytes@
    }
}

impl Hash {
    /// The view of a digest is 32 bytes long.
    pub broadcast proof fn lemma_len(self)
        ensures
            #[trigger] self@.len() == 32,
    {
    }

    /// Two digests with the same bytes are the same digest.
    pub proof fn lemma_ext_equal(self, other: Hash)
        requires
            self@ == other@,
        ensures
            self == other,
    {
        assert(self.bytes =~= other.bytes);
    }

    /// The digest whose bytes are `s`, for a sequence of 32 bytes.
    pub closed spec fn from_seq(s: Seq<u8>) -> Hash {
        Hash { bytes: array_of::<32>(s) }
    }

    /// `from_seq` gives a digest with the bytes asked for, and gives back
    /// the digest whose bytes it is handed.
    pub broadcast proof fn lemma_from_seq(s: Seq<u8>)
        requires
            s.len() == 32,
        ensures
            (#[trigger] Hash::from_seq(s))@ == s,
    {
        lemma_array_of::<32>(s);
    }

    /// `from_seq` gives back the digest whose bytes it is handed.
    pub broadcast proof fn lemma_from_seq_view(self)
        ensures
            #[trigger] Hash::from_seq(self@) == self,
    {
        lemma_array_of::<32>(self@);
        assert(Hash::from_seq(self@).bytes =~= self.bytes);
    }

    /// The digest whose bytes are those of the array.
    pub fn new(bytes: [u8; 32]) -> (out: Hash)
        ensures
            out@ == bytes@,
    {
        Hash { bytes }
    }

    /// The digest of all zero bytes.
    pub fn zero() -> (out: Hash)
        ensures
            out@ == Seq::new(32, |i: int| 0u8),
    {
        let out = Hash { bytes: [0u8; 32] };
        assert(out@ =~= Seq::new(32, |i: int| 0u8));
        out
    }

    /// Reads a digest from a slice, which must be exactly 32 bytes long.
    pub fn from_slice(bytes: &[u8]) -> (out: Option<Hash>)
        ensures
            bytes@.len() == 32 ==> out is Some && out->0@ == bytes@,
            bytes@.len() != 32 ==> out is None,
    {
        if bytes.len() != 32 {
            return None;
        }
        let out = Hash { bytes: array_from_slice::<32>(bytes) };
        assert(out@ =~= bytes@);
        Some(out)
    }

    /// The bytes of the digest.
    pub fn as_bytes(&self) -> (bytes: &[u8])
        ensures
            bytes@ == self@,
    {
        self.bytes.as_slice()
    }
}

impl PartialEq for Hash {
    fn eq(&self, other: &Hash) -> (same: bool) {
        let same = arrays_equal(&self.bytes, &other.bytes);
        proof {
            if same {
                self.lemma_ext_equal(*other);
            }
        }
        same
    }
}

impl PartialEqSpecImpl for Hash {
    open spec fn obeys_eq_spec() -> bool {
        true
    }

    open spec fn eq_spec(&self, other: &Hash) -> bool {
        *self == *other
    }
}

/// An Ed25519 public key.
#[derive(Clone, Copy, Debug, Eq, Hash)]
pub struct PublicKey {
    bytes: [u8; 32],
}

impl View for PublicKey {
    type V = Seq<u8>;

    closed spec fn view(&self) -> Seq<u8> {
        self.bytes@
    }
}

impl PublicKey {
    /// The view of a key is 32 bytes long.
    pub broadcast proof fn lemma_len(self)
        ensures
            #[trigger] self@.len() == 32,
    {
    }

    /// Two keys with the same bytes are the same key.
    pub proof fn lemma_ext_equal(self, other: PublicKey)
        requires
            self@ == other@,
        ensures
            self == other,
    {
        assert(self.bytes =~= other.bytes);
    }

    /// The key whose bytes are `s`, for a sequence of 32 bytes.
    pub closed spec fn from_seq(s: Seq<u8>) -> PublicKey {
        PublicKey { bytes: array_of::<32>(s) }
    }

    /// `from_seq` gives a key with the bytes asked for, and gives back
    /// the key whose bytes it is handed.
    pub broadcast proof fn lemma_from_seq(s: Seq<u8>)
        requires
            s.len() == 32,
        ensures
            (#[trigger] PublicKey::from_seq(s))@ == s,
    {
        lemma_array_of::<32>(s);
    }

    /// `from_seq` gives back the key whose bytes it is handed.
    pub broadcast proof fn lemma_from_seq_view(self)
        ensures
            #[trigger] PublicKey::from_seq(self@) == self,
    {
        lemma_array_of::<32>(self@);
        assert(PublicKey::from_seq(self@).bytes =~= self.bytes);
    }

    /// The key whose bytes are those of the array.
    pub fn new(bytes: [u8; 32]) -> (out: PublicKey)
        ensures
            out@ == bytes@,
    {
        PublicKey { bytes }
    }

    /// The key of all zero bytes.
    pub fn zero() -> (out: PublicKey)
        ensures
            out@ == Seq::new(32, |i: int| 0u8),
    {
        let out = PublicKey { bytes: [0u8; 32] };
        assert(out@ =~= Seq::new(32, |i: int| 0u8));
        out
    }

    /// Reads a key from a slice, which must be exactly 32 bytes long.
    pub fn from_slice(bytes: &[u8]) -> (out: Option<PublicKey>)
        ensures
            bytes@.len() == 32 ==> out is Some && out->0@ == bytes@,
            bytes@.len() != 32 ==> out is None,
    {
        if bytes.len() != 32 {
            return None;
        }
        let out = PublicKey { bytes: array_from_slice::<32>(bytes) };
        assert(out@ =~= bytes@);
        Some(out)
    }

    /// The bytes of the key.
    pub fn as_bytes(&self) -> (bytes: &[u8])
        ensures
            bytes@ == self@,
    {
        self.bytes.as_slice()
    }
}

impl PartialEq for PublicKey {
    fn eq(&self, other: &PublicKey) -> (same: bool) {
        let same = arrays_equal(&self.bytes, &other.bytes);
        proof {
            if same {
                self.lemma_ext_equal(*other);
            }
        }
        same
    }
}

impl PartialEqSpecImpl for PublicKey {
    open spec fn obeys_eq_spec() -> bool {
        true
    }

    open spec fn eq_spec(&self, other: &PublicKey) -> bool {
        *self == *other
    }
}

/// An Ed25519 signature.
#[derive(Clone, Copy, Debug, Eq, Hash)]
pub struct Signature {
    bytes: [u8; 64],
}

impl View for Signature {
    type V = Seq<u8>;

    closed spec fn view(&self) -> Seq<u8> {
        self.bytes@
    }
}

impl Signature {
    /// The view of a signature is 64 bytes long.
    pub broadcast proof fn lemma_len(self)
        ensures
            #[trigger] self@.len() == 64,
    {
    }

    /// Two signatures with the same bytes are the same signature.
    pub proof fn lemma_ext_equal(self, other: Signature)
        requires
            self@ == other@,
        ensures
            self == other,
    {
        assert(self.bytes =~= other.bytes);
    }

    /// The signature whose bytes are `s`, for a sequence of 64 bytes.
    pub closed spec fn from_seq(s: Seq<u8>) -> Signature {
        Signature { bytes: array_of::<64>(s) }
    }

    /// `from_seq` gives a signature with the bytes asked for, and gives back
    /// the signature whose bytes it is handed.
    pub broadcast proof fn lemma_from_seq(s: Seq<u8>)
        requires
            s.len() == 64,
        ensures
            (#[trigger] Signature::from_seq(s))@ == s,
    {
        lemma_array_of::<64>(s);
    }

    /// `from_seq` gives back the signature whose bytes it is handed.
    pub broadcast proof fn lemma_from_seq_view(self)
        ensures
            #[trigger] Signature::from_seq(self@) == self,
    {
        lemma_array_of::<64>(self@);
        assert(Signature::from_seq(self@).bytes =~= self.bytes);
    }

    /// The signature whose bytes are those of the array.
    pub fn new(bytes: [u8; 64]) -> (out: Signature)
        ensures
            out@ == bytes@,
    {
        Signature { bytes }
    }

    /// The signature of all zero bytes.
    pub fn zero() -> (out: Signature)
        ensures
            out@ == Seq::new(64, |i: int| 0u8),
    {
        let out = Signature { bytes: [0u8; 64] };
        assert(out@ =~= Seq::new(64, |i: int| 0u8));
        out
    }

    /// Reads a signature from a slice, which must be exactly 64 bytes long.
    pub fn from_slice(bytes: &[u8]) -> (out: Option<Signature>)
        ensures
            bytes@.len() == 64 ==> out is Some && out->0@ == bytes@,
            bytes@.len() != 64 ==> out is None,
    {
        if bytes.len() != 64 {
            return None;
        }
        let out = Signature { bytes: array_from_slice::<64>(bytes) };
        assert(out@ =~= bytes@);
        Some(out)
    }

    /// The bytes of the signature.
    pub fn as_bytes(&self) -> (bytes: &[u8])
        ensures
            bytes@ == self@,
    {
        self.bytes.as_slice()
    }
}

impl PartialEq for Signature {
    fn eq(&self, other: &Signature) -> (same: bool) {
        let same = arrays_equal(&self.bytes, &other.bytes);
        proof {
            if same {
                self.lemma_ext_equal(*other);
            }
        }
        same
    }
}

impl PartialEqSpecImpl for Signature {
    open spec fn obeys_eq_spec() -> bool {
        true
    }

    open spec fn eq_spec(&self, other: &Signature) -> bool {
        *self == *other
    }
}

/// The lengths of the three kinds of byte values, and how `from_seq` and
/// the view undo each other.
pub broadcast group group_byte_values {
    Hash::lemma_len,
    Hash::lemma_from_seq,
    Hash::lemma_from_seq_view,
    PublicKey::lemma_len,
    PublicKey::lemma_from_seq,
    PublicKey::lemma_from_seq_view,
    Signature::lemma_len,
    Signature::lemma_from_seq,
    Signature::lemma_from_seq_view,
}

} // verus!
