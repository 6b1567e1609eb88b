//! The signed envelope: the bytes of a message between the key of its
//! author and the author's signature.
//!
//! A frame is the 32 bytes of the key, the payload, and the 64 bytes of the
//! signature. The signature is made over the key and the payload, that is,
//! over all of the frame that comes before it. Signing and checking a
//! signature are the caller's part: this module says which bytes are to be
//! signed and which are to be checked, and makes a `SignedMessage` of a
//! frame only where the caller reports that the check has passed.

use crate::crypto::{PublicKey, Signature};
use crate::hexadecimal::{hex_encode, hex_of};
use crate::messages::protocol::Protocol;
use crate::wire::DecodeError;
use crate::writer::put_raw;
use vstd::prelude::*;
use vstd::slice::{slice_subrange, slice_to_vec};

verus! {

broadcast use crate::crypto::group_byte_values;

/// The length of a frame with an empty payload. No frame is shorter.
pub const MIN_FRAME_LENGTH: usize = 96;

/// Why bytes are not taken as a signed message.
#[derive(Clone, Copy, Debug, PartialEq, Eq, Structural)]
pub enum VerificationError {
    /// The bytes are fewer than the shortest frame.
    TooShort,
    /// The signature does not fit the key and the payload.
    BadSignature,
}

/// The frame of a payload, the key of its author and a signature.
pub open spec fn frame(author: Seq<u8>, payload: Seq<u8>, signature: Seq<u8>) -> Seq<u8> {
    author + payload + signature
}

/// The key at the start of a frame.
pub open spec fn author_of(f: Seq<u8>) -> Seq<u8> {
    f.take(32)
}

/// The payload of a frame: what lies between the key and the signature.
pub open spec fn payload_of(f: Seq<u8>) -> Seq<u8> {
    f.subrange(32, f.len() - 64)
}

/// The signature at the end of a frame.
pub open spec fn signature_of(f: Seq<u8>) -> Seq<u8> {
    f.skip(f.len() - 64)
}

/// The part of a frame that the signature is made over: the key and the
/// payload.
pub open spec fn signed_part(f: Seq<u8>) -> Seq<u8> {
    f.take(f.len() - 64)
}

/// The parts of a frame are the ones that it was made of, and the signed
/// part is the key followed by the payload.
pub proof fn lemma_frame_parts(author: Seq<u8>, payload: Seq<u8>, signature: Seq<u8>)
    requires
        author.len() == 32,
        signature.len() == 64,
    ensures
        frame(author, payload, signature).len() == 96 + payload.len(),
        author_of(frame(author, payload, signature)) == author,
        payload_of(frame(author, payload, signature)) == payload,
        signature_of(frame(author, payload, signature)) == signature,
        signed_part(frame(author, payload, signature)) == author + payload,
{
    let f = frame(author, payload, signature);
    assert(author_of(f) =~= author);
    assert(payload_of(f) =~= payload);
    assert(signature_of(f) =~= signature);
    assert(signed_part(f) =~= author + payload);
}

/// A frame is made of its parts, and of nothing else.
pub proof fn lemma_frame_whole(f: Seq<u8>)
    requires
        f.len() >= 96,
    ensures
        f == frame(author_of(f), payload_of(f), signature_of(f)),
        f == signed_part(f) + signature_of(f),
        signed_part(f) == author_of(f) + payload_of(f),
{
    assert(f =~= frame(author_of(f), payload_of(f), signature_of(f)));
    assert(f =~= signed_part(f) + signature_of(f));
    assert(signed_part(f) =~= author_of(f) + payload_of(f));
}

/// Two frames that differ put different questions to the signature check:
/// they differ in the signed part or in the signature.
pub proof fn lemma_frames_differ(f: Seq<u8>, g: Seq<u8>)
    requires
        f.len() >= 96,
        g.len() >= 96,
        f != g,
    ensures
        signed_part(f) != signed_part(g) || signature_of(f) != signature_of(g),
{
    lemma_frame_whole(f);
    lemma_frame_whole(g);
}

/// Changing one byte of the payload changes the signed part and leaves the
/// signature as it was; changing one byte of the signature changes the
/// signature and leaves the signed part as it was.
pub proof fn lemma_changed_byte(f: Seq<u8>, i: int, byte: u8)
    requires
        f.len() >= 96,
        32 <= i < f.len(),
        byte != f[i],
    ensures
        i < f.len() - 64 ==> payload_of(f.update(i, byte)) != payload_of(f) && signed_part(
            f.update(i, byte),
        ) != signed_part(f) && signature_of(f.update(i, byte)) == signature_of(f),
        i >= f.len() - 64 ==> signature_of(f.update(i, byte)) != signature_of(f) && signed_part(
            f.update(i, byte),
        ) == signed_part(f),
{
    let g = f.update(i, byte);
    if i < f.len() - 64 {
        assert(payload_of(g)[i - 32] != payload_of(f)[i - 32]);
        assert(signed_part(g)[i] != signed_part(f)[i]);
        assert(signature_of(g) =~= signature_of(f));
    } else {
        assert(signature_of(g)[i - (f.len() - 64)] != signature_of(f)[i - (f.len() - 64)]);
        assert(signed_part(g) =~= signed_part(f));
    }
}

/// The bytes that the author signs: the key, then the payload.
pub fn signing_input(payload: &[u8], author: &PublicKey) -> (bytes: Vec<u8>)
    ensures
        bytes@ == author@ + payload@,
{
    let mut bytes: Vec<u8> = Vec::new();
    put_raw(&mut bytes, author.as_bytes());
    put_raw(&mut bytes, payload);
    assert(bytes@ =~= author@ + payload@);
    bytes
}

/// A frame whose signature has not been checked.
#[derive(Debug)]
pub struct Unverified {
    raw: Vec<u8>,
}

/// A frame whose signature was made by this node, or was checked and
/// found to fit.
#[derive(Debug)]
pub struct SignedMessage {
    raw: Vec<u8>,
}

impl View for Unverified {
    type V = Seq<u8>;

    closed spec fn view(&self) -> Seq<u8> {
        self.raw@
    }
}

impl View for SignedMessage {
    type V = Seq<u8>;

    closed spec fn view(&self) -> Seq<u8> {
        self.raw@
    }
}

impl Unverified {
    #[verifier::type_invariant]
    spec fn framed(self) -> bool {
        self.raw@.len() >= 96
    }

    /// The length of the frame, which is never under that of the shortest
    /// frame.
    pub fn len(&self) -> (n: usize)
        ensures
            n == self@.len(),
            n >= 96,
    {
        proof {
            use_type_invariant(self);
        }
        self.raw.len()
    }

    /// Takes bytes as a frame. Bytes that are fewer than the shortest
    /// frame are refused.
    pub fn new(bytes: Vec<u8>) -> (res: Result<Unverified, VerificationError>)
        ensures
            bytes@.len() < 96 ==> res == Err::<Unverified, VerificationError>(
                VerificationError::TooShort,
            ),
            bytes@.len() >= 96 ==> res is Ok && res->Ok_0@ == bytes@,
    {
        if bytes.len() < MIN_FRAME_LENGTH {
            Err(VerificationError::TooShort)
        } else {
            Ok(Unverified { raw: bytes })
        }
    }

    /// The key that the frame names as its author's.
    pub fn author(&self) -> (key: PublicKey)
        ensures
            key@ == author_of(self@),
    {
        proof {
            use_type_invariant(self);
        }
        let bytes = slice_subrange(self.raw.as_slice(), 0, 32);
        match PublicKey::from_slice(bytes) {
            Some(key) => key,
            None => PublicKey::zero(),
        }
    }

    /// The signature that the frame carries.
    pub fn signature(&self) -> (signature: Signature)
        ensures
            signature@ == signature_of(self@),
    {
        proof {
            use_type_invariant(self);
        }
        let n = self.raw.len();
        let bytes = slice_subrange(self.raw.as_slice(), n - 64, n);
        match Signature::from_slice(bytes) {
            Some(signature) => signature,
            None => Signature::zero(),
        }
    }

    /// The bytes that the signature is to be checked against, with the key
    /// that `author` gives.
    pub fn signed_bytes(&self) -> (bytes: &[u8])
        ensures
            bytes@ == signed_part(self@),
    {
        proof {
            use_type_invariant(self);
        }
        let n = self.raw.len();
        slice_subrange(self.raw.as_slice(), 0, n - 64)
    }

    /// Makes a signed message of the frame where the signature has been
    /// checked against `signed_bytes` and `author` and fits, and refuses
    /// the frame where it does not fit. The bytes stay as they are.
    pub fn verify(self, signature_fits: bool) -> (res: Result<SignedMessage, VerificationError>)
        ensures
            signature_fits ==> res is Ok && res->Ok_0@ == self@,
            !signature_fits ==> res == Err::<SignedMessage, VerificationError>(
                VerificationError::BadSignature,
            ),
    {
        proof {
            use_type_invariant(&self);
        }
        if signature_fits {
            Ok(SignedMessage { raw: self.raw })
        } else {
            Err(VerificationError::BadSignature)
        }
    }
}

impl SignedMessage {
    #[verifier::type_invariant]
    spec fn framed(self) -> bool {
        self.raw@.len() >= 96
    }

    /// The length of the frame, which is never under that of the shortest
    /// frame.
    pub fn len(&self) -> (n: usize)
        ensures
            n == self@.len(),
            n >= 96,
    {
        proof {
            use_type_invariant(self);
        }
        self.raw.len()
    }

    /// Frames a payload with the key of its author and the signature that
    /// the author made over `signing_input`.
    pub fn new(payload: &[u8], author: &PublicKey, signature: &Signature) -> (message:
        SignedMessage)
        ensures
            message@ == frame(author@, payload@, signature@),
            author_of(message@) == author@,
            payload_of(message@) == payload@,
            signature_of(message@) == signature@,
            signed_part(message@) == author@ + payload@,
    {
        let mut raw: Vec<u8> = Vec::new();
        put_raw(&mut raw, author.as_bytes());
        put_raw(&mut raw, payload);
        put_raw(&mut raw, signature.as_bytes());
        proof {
            assert(raw@ =~= frame(author@, payload@, signature@));
            lemma_frame_parts(author@, payload@, signature@);
        }
        SignedMessage { raw }
    }

    /// The key of the author.
    pub fn author(&self) -> (key: PublicKey)
        ensures
            key@ == author_of(self@),
    {
        proof {
            use_type_invariant(self);
        }
        let bytes = slice_subrange(self.raw.as_slice(), 0, 32);
        match PublicKey::from_slice(bytes) {
            Some(key) => key,
            None => PublicKey::zero(),
        }
    }

    /// The signature.
    pub fn signature(&self) -> (signature: Signature)
        ensures
            signature@ == signature_of(self@),
    {
        proof {
            use_type_invariant(self);
        }
        let n = self.raw.len();
        let bytes = slice_subrange(self.raw.as_slice(), n - 64, n);
        match Signature::from_slice(bytes) {
            Some(signature) => signature,
            None => Signature::zero(),
        }
    }

    /// The payload, as it was signed.
    pub fn payload(&self) -> (bytes: &[u8])
        ensures
            bytes@ == payload_of(self@),
    {
        proof {
            use_type_invariant(self);
        }
        let n = self.raw.len();
        slice_subrange(self.raw.as_slice(), 32, n - 64)
    }

    /// The bytes of the frame, as they were signed or checked.
    pub fn as_bytes(&self) -> (bytes: &[u8])
        ensures
            bytes@ == self@,
    {
        self.raw.as_slice()
    }

    /// A copy of the bytes of the frame.
    pub fn to_bytes(&self) -> (bytes: Vec<u8>)
        ensures
            bytes@ == self@,
    {
        slice_to_vec(self.raw.as_slice())
    }

    /// The bytes of the frame in hexadecimal.
    pub fn to_hex(&self) -> (text: String)
        ensures
            text@ == hex_of(self@),
    {
        hex_encode(self.raw.as_slice())
    }

    /// Reads the message in the payload.
    pub fn decode_payload(&self) -> (res: Result<Protocol, DecodeError>)
        ensures
            match Protocol::decoding(payload_of(self@)) {
                Ok(v) => res is Ok && res->Ok_0@ == v,
                Err(e) => res is Err && res->Err_0 == e,
            },
    {
        Protocol::from_bytes(self.payload())
    }

    /// Reads the message in the payload and hands it out with the bytes of
    /// the frame. A payload that is not the encoding of a message is an
    /// error.
    pub fn into_message(self) -> (res: Result<(Protocol, Vec<u8>), DecodeError>)
        ensures
            match Protocol::decoding(payload_of(self@)) {
                Ok(v) => res is Ok && res->Ok_0.0@ == v && res->Ok_0.1@ == self@,
                Err(e) => res is Err && res->Err_0 == e,
            },
    {
        match self.decode_payload() {
            Ok(message) => Ok((message, self.raw)),
            Err(e) => Err(e),
        }
    }
}

impl Clone for SignedMessage {
    fn clone(&self) -> (out: SignedMessage)
        ensures
            out@ == self@,
    {
        proof {
            use_type_invariant(self);
        }
        SignedMessage { raw: slice_to_vec(self.raw.as_slice()) }
    }
}

} // verus!
