//! A message of a known kind together with the signed envelope that
//! carries it.

use crate::crypto::{PublicKey, Signature};
use crate::hexadecimal::hex_of;
use crate::messages::protocol::{Protocol, ProtocolMessage};
use crate::messages::signed::{
    author_of, frame, lemma_frame_parts, payload_of, signing_input, SignedMessage,
};
use crate::wire::DecodeError;
use vstd::prelude::*;
use vstd::std_specs::cmp::PartialEqSpecImpl;

verus! {

broadcast use crate::crypto::group_byte_values;

/// Why a signed message is not a message of the kind asked for.
#[derive(Clone, Copy, Debug, PartialEq, Eq, Structural)]
pub enum MessageError {
    /// The payload is not the encoding of a message.
    Malformed(DecodeError),
    /// The payload is a message of another kind.
    WrongKind,
}

/// A payload of type `T` and the signed envelope that carries it. The
/// payload of the envelope decodes to the protocol value that carries
/// the payload, and the envelope is one that was signed by this node or
/// whose signature was checked.
#[derive(Debug)]
pub struct Message<T: ProtocolMessage> {
    payload: T,
    message: SignedMessage,
}

impl<T: ProtocolMessage> Message<T> {
    #[verifier::type_invariant]
    spec fn consistent(self) -> bool {
        Protocol::decoding(payload_of(self.message@)) == Ok::<_, DecodeError>(
            T::carried_by(self.payload@),
        )
    }

    /// What the payload holds.
    pub closed spec fn payload_view(self) -> T::V {
        self.payload@
    }

    /// The bytes of the envelope.
    pub closed spec fn frame(self) -> Seq<u8> {
        self.message@
    }

    /// The bytes that the author signs for a payload: the key, then the
    /// encoding of the protocol value that carries the payload.
    pub fn signing_input(payload: &T, author: &PublicKey) -> (bytes: Vec<u8>)
        ensures
            bytes@ == author@ + Protocol::wire(T::carried_by(payload@)),
    {
        let body = payload.protocol_bytes();
        signing_input(body.as_slice(), author)
    }

    /// Wraps a well-formed payload with the key of its author and the
    /// signature that the author made over `signing_input`.
    pub fn new(payload: T, author: &PublicKey, signature: &Signature) -> (out: Message<T>)
        requires
            Protocol::valid(T::carried_by(payload@)),
        ensures
            out.payload_view() == payload@,
            out.frame() == frame(
                author@,
                Protocol::wire(T::carried_by(payload@)),
                signature@,
            ),
    {
        let body = payload.protocol_bytes();
        let message = SignedMessage::new(body.as_slice(), author, signature);
        proof {
            lemma_frame_parts(author@, body@, signature@);
            Protocol::lemma_decode_encode(T::carried_by(payload@));
        }
        Message { payload, message }
    }

    /// As `new`, for a payload that may be ill formed. Such a payload is
    /// handed back.
    pub fn try_new(payload: T, author: &PublicKey, signature: &Signature) -> (res: Result<
        Message<T>,
        T,
    >)
        ensures
            Protocol::valid(T::carried_by(payload@)) ==> res is Ok && res->Ok_0.payload_view()
                == payload@ && res->Ok_0.frame() == frame(
                author@,
                Protocol::wire(T::carried_by(payload@)),
                signature@,
            ),
            !Protocol::valid(T::carried_by(payload@)) ==> res is Err && res->Err_0 == payload,
    {
        if payload.is_well_formed() {
            Ok(Message::new(payload, author, signature))
        } else {
            Err(payload)
        }
    }

    /// Reads the payload of a signed message as a payload of type `T`.
    pub fn from_signed(message: SignedMessage) -> (res: Result<Message<T>, MessageError>)
        ensures
            match Protocol::decoding(payload_of(message@)) {
                Err(e) => res == Err::<Message<T>, MessageError>(MessageError::Malformed(e)),
                Ok(p) => match T::carried_in(p) {
                    None => res == Err::<Message<T>, MessageError>(MessageError::WrongKind),
                    Some(v) => res is Ok && res->Ok_0.payload_view() == v && res->Ok_0.frame()
                        == message@,
                },
            },
    {
        let protocol = match message.decode_payload() {
            Ok(protocol) => protocol,
            Err(e) => return Err(MessageError::Malformed(e)),
        };
        let ghost carrier = protocol@;
        match T::from_protocol(protocol) {
            Some(payload) => {
                proof {
                    T::lemma_carried(payload@, carrier);
                }
                Ok(Message { payload, message })
            },
            None => Err(MessageError::WrongKind),
        }
    }

    /// The payload.
    pub fn payload(&self) -> (payload: &T)
        ensures
            payload@ == self.payload_view(),
    {
        &self.payload
    }

    /// The key of the author.
    pub fn author(&self) -> (key: PublicKey)
        ensures
            key@ == author_of(self.frame()),
    {
        self.message.author()
    }

    /// The signed envelope. Its payload is the encoding of the protocol
    /// value that carries the payload of the message.
    pub fn raw(&self) -> (message: &SignedMessage)
        ensures
            message@ == self.frame(),
            payload_of(message@) == Protocol::wire(T::carried_by(self.payload_view())),
            Protocol::valid(T::carried_by(self.payload_view())),
    {
        proof {
            use_type_invariant(self);
            Protocol::lemma_encode_decode(payload_of(self.message@));
        }
        &self.message
    }

    /// The payload and the signed envelope.
    pub fn into_parts(self) -> (parts: (T, SignedMessage))
        ensures
            parts.0@ == self.payload_view(),
            parts.1@ == self.frame(),
    {
        proof {
            use_type_invariant(&self);
        }
        (self.payload, self.message)
    }

    /// The bytes of the envelope in hexadecimal.
    pub fn to_hex_string(&self) -> (text: String)
        ensures
            text@ == hex_of(self.frame()),
    {
        self.message.to_hex()
    }

    /// Tells whether a protocol value is of the variant that carries `T`
    /// and holds a payload equal to this one.
    pub fn eq_protocol(&self, other: &Protocol) -> (same: bool)
        ensures
            same == (other@ == T::carried_by(self.payload_view())),
    {
        self.payload.eq_protocol(other)
    }
}

/// A message equals a protocol value if that value is of the variant that
/// carries `T` and holds a payload equal to that of the message.
impl<T: ProtocolMessage> PartialEq<Protocol> for Message<T> {
    fn eq(&self, other: &Protocol) -> (same: bool) {
        self.eq_protocol(other)
    }
}

impl<T: ProtocolMessage> PartialEqSpecImpl<Protocol> for Message<T> {
    open spec fn obeys_eq_spec() -> bool {
        true
    }

    open spec fn eq_spec(&self, other: &Protocol) -> bool {
        other@ == T::carried_by(self.payload_view())
    }
}

} // verus!
