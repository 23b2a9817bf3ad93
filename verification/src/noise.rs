//! Noise IK handshake and transport of the control protocol.
//!
//! The protocol is `Noise_IK_25519_ChaChaPoly_BLAKE2s`: the client, as
//! initiator, knows the server's static public key in advance, and sends its
//! own static key, the machine key, encrypted in its first message. The Noise
//! primitives are those of the `snow` crate; this module frames messages,
//! keeps the order of the handshake's steps and limits what is sent.

use crate::boundary;
use crate::boundary::{Channel, Initiator};
use crate::config::NoiseConfig;
use crate::frame;
use crate::frame::{
    HEADER_LEN, MAX_BODY_LEN, MSG_TYPE_RESPONSE, MSG_TYPE_TRANSPORT, PROTOCOL_VERSION,
};
use crate::keys::{MachinePrivate, MachinePublic};
use crate::text;
use vstd::prelude::*;
use vstd::string::StrSliceExecFns;
use vstd::utf8::encode_utf8;

verus! {

/// The name of the Noise protocol that the control plane speaks.
pub const NOISE_PARAMS: &'static str = "Noise_IK_25519_ChaChaPoly_BLAKE2s";

/// The length of the authentication tag that encryption adds.
pub const TAG_LEN: usize = 16;

/// The bytes that bind a session to the control protocol and its version.
pub open spec fn prologue_bytes() -> Seq<u8> {
    encode_utf8("Tailscale Control Protocol v"@ + text::decimal(PROTOCOL_VERSION as nat))
}

/// The prologue that is mixed into the handshake.
pub fn prologue() -> (bytes: Vec<u8>)
    ensures
        bytes@ == prologue_bytes(),
{
    let mut s: String = text::owned("Tailscale Control Protocol v");
    text::push_decimal(&mut s, PROTOCOL_VERSION as usize);
    s.as_str().as_bytes_vec()
}

// ---------------------------------------------------------------------------
// Errors
// ---------------------------------------------------------------------------

/// What can go wrong in the Noise handshake or transport.
#[derive(Debug)]
#[non_exhaustive]
pub enum NoiseError {
    /// The handshake failed, or a message cannot be framed.
    HandshakeFailed {
        /// Description of the failure.
        message: String,
    },
    /// A transport message could not be decrypted.
    DecryptionFailed {
        /// Description of the failure.
        message: String,
    },
    /// The operation does not belong to the handshake's current state.
    InvalidState {
        /// Description of the invalid state.
        message: String,
    },
    /// The `snow` library reported an error.
    Snow {
        /// The error of the `snow` library.
        source: snow::Error,
    },
}

/// A [`NoiseError`] with its strings as character sequences, and an error of
/// the `snow` library by its text.
#[verifier::ext_equal]
pub enum NoiseErrorView {
    /// The handshake failed, or a message cannot be framed.
    HandshakeFailed { message: Seq<char> },
    /// A transport message could not be decrypted.
    DecryptionFailed { message: Seq<char> },
    /// The operation does not belong to the handshake's current state.
    InvalidState { message: Seq<char> },
    /// The `snow` library reported an error.
    Snow { text: Seq<char> },
}

impl View for NoiseError {
    type V = NoiseErrorView;

    open spec fn view(&self) -> NoiseErrorView {
        match *self {
            NoiseError::HandshakeFailed { message } => NoiseErrorView::HandshakeFailed {
                message: message@,
            },
            NoiseError::DecryptionFailed { message } => NoiseErrorView::DecryptionFailed {
                message: message@,
            },
            NoiseError::InvalidState { message } => NoiseErrorView::InvalidState {
                message: message@,
            },
            NoiseError::Snow { source } => NoiseErrorView::Snow {
                text: boundary::snow_error_text(source),
            },
        }
    }
}

impl NoiseErrorView {
    /// The error as a sentence.
    pub open spec fn sentence(self) -> Seq<char> {
        match self {
            NoiseErrorView::HandshakeFailed { message } => "noise handshake failed: "@ + message,
            NoiseErrorView::DecryptionFailed { message } => "decryption failed: "@ + message,
            NoiseErrorView::InvalidState { message } => "invalid state: "@ + message,
            NoiseErrorView::Snow { text } => "snow error: "@ + text,
        }
    }
}

impl NoiseError {
    /// The error as a sentence.
    pub fn describe(&self) -> (s: String)
        ensures
            s@ == self@.sentence(),
    {
        match self {
            NoiseError::HandshakeFailed { message } => text::joined(
                "noise handshake failed: ",
                message.as_str(),
            ),
            NoiseError::DecryptionFailed { message } => text::joined(
                "decryption failed: ",
                message.as_str(),
            ),
            NoiseError::InvalidState { message } => text::joined(
                "invalid state: ",
                message.as_str(),
            ),
            NoiseError::Snow { source } => text::joined(
                "snow error: ",
                boundary::snow_error_string(source).as_str(),
            ),
        }
    }
}

impl core::fmt::Display for NoiseError {
    fn fmt(&self, f: &mut core::fmt::Formatter<'_>) -> (r: core::fmt::Result)
        ensures
            r is Ok ==> boundary::written(*final(f)) == boundary::written(*old(f))
                + self@.sentence(),
    {
        let s: String = self.describe();
        boundary::write_text(f, s.as_str())
    }
}

impl From<snow::Error> for NoiseError {
    fn from(source: snow::Error) -> (error: Self) {
        NoiseError::Snow { source }
    }
}

impl vstd::std_specs::convert::FromSpecImpl<snow::Error> for NoiseError {
    open spec fn obeys_from_spec() -> bool {
        true
    }

    open spec fn from_spec(source: snow::Error) -> NoiseError {
        NoiseError::Snow { source }
    }
}

/// A result in which the bytes and the error stand by their views.
pub open spec fn outcome(r: Result<Vec<u8>, NoiseError>) -> Result<Seq<u8>, NoiseErrorView> {
    match r {
        Ok(bytes) => Ok(bytes@),
        Err(error) => Err(error@),
    }
}

// ---------------------------------------------------------------------------
// Framing of the handshake
// ---------------------------------------------------------------------------

/// The handshake message inside the responder's frame. Bytes behind the
/// announced length are ignored.
pub open spec fn response_message(response: Seq<u8>) -> Result<Seq<u8>, NoiseErrorView> {
    if response.len() < HEADER_LEN {
        Err(NoiseErrorView::HandshakeFailed { message: "response too short"@ })
    } else if response[0] != MSG_TYPE_RESPONSE {
        Err(
            NoiseErrorView::HandshakeFailed {
                message: "unexpected message type: 0x"@ + text::hex_pair(response[0]),
            },
        )
    } else if response.len() < HEADER_LEN + frame::announced_len(response) {
        Err(NoiseErrorView::HandshakeFailed { message: "response payload truncated"@ })
    } else {
        Ok(response.subrange(HEADER_LEN as int, HEADER_LEN + frame::announced_len(response)))
    }
}

/// Frame the first handshake message, once `snow` has written it.
///
/// # Errors
///
/// Returns [`NoiseError::HandshakeFailed`] if the message is longer than a
/// frame can announce.
pub fn frame_initiation(message: &[u8]) -> (r: Result<Vec<u8>, NoiseError>)
    ensures
        outcome(r) == if message@.len() > MAX_BODY_LEN {
            Err::<Seq<u8>, NoiseErrorView>(
                NoiseErrorView::HandshakeFailed { message: "initiation message too large"@ },
            )
        } else {
            Ok::<Seq<u8>, NoiseErrorView>(frame::initiation_frame(message@))
        },
{
    if message.len() > MAX_BODY_LEN {
        return Err(
            NoiseError::HandshakeFailed { message: text::owned("initiation message too large") },
        );
    }
    Ok(frame::build_initiation_frame(message))
}

/// Take the handshake message out of the responder's frame.
///
/// # Errors
///
/// Returns [`NoiseError::HandshakeFailed`] if the frame is too short, of
/// another type, or shorter than it announces.
pub fn unframe_response(response: &[u8]) -> (r: Result<&[u8], NoiseError>)
    ensures
        match r {
            Ok(message) => response_message(response@) == Ok::<Seq<u8>, NoiseErrorView>(message@),
            Err(error) => response_message(response@) == Err::<Seq<u8>, NoiseErrorView>(error@),
        },
{
    if response.len() < HEADER_LEN {
        return Err(NoiseError::HandshakeFailed { message: text::owned("response too short") });
    }
    let kind: u8 = response[0];
    if kind != MSG_TYPE_RESPONSE {
        let mut message: String = text::owned("unexpected message type: 0x");
        text::push_hex(&mut message, kind);
        return Err(NoiseError::HandshakeFailed { message });
    }
    let n: usize = frame::read_announced_len(response[1], response[2]);
    if response.len() - HEADER_LEN < n {
        return Err(
            NoiseError::HandshakeFailed { message: text::owned("response payload truncated") },
        );
    }
    Ok(vstd::slice::slice_subrange(response, HEADER_LEN, HEADER_LEN + n))
}

// ---------------------------------------------------------------------------
// Handshake
// ---------------------------------------------------------------------------

/// Where a handshake stands.
pub enum Phase {
    /// Nothing has been sent.
    Ready { private: Seq<u8>, remote: Seq<u8> },
    /// The first message has been sent.
    AwaitingResponse { state: snow::HandshakeState },
    /// Nothing more can be done.
    Completed,
}

/// The initiator that a handshake is after it has sent `message`.
pub open spec fn awaiting(private: Seq<u8>, remote: Seq<u8>, message: Seq<u8>) -> Initiator {
    Initiator {
        suite: NOISE_PARAMS@,
        private,
        remote,
        prologue: prologue_bytes(),
        sent: Some(message),
        ciphers: None,
    }
}

/// How the phase and the result of [`NoiseHandshake::initiation_message`] come
/// out, given the size of the buffer for the message.
///
/// A handshake that is ready sends one message, whose frame is the result, and
/// then awaits the response; it fails where the buffer is too small or random
/// numbers are not to be had. A handshake that is not ready refuses. After a
/// failure or a refusal it is completed.
pub open spec fn initiated(
    before: Phase,
    scratch: int,
    result: Result<Seq<u8>, NoiseErrorView>,
    after: Phase,
) -> bool {
    match before {
        Phase::Ready { private, remote } => match result {
            Ok(framed) => {
                let message = framed.skip(5);
                &&& framed == frame::initiation_frame(message)
                &&& message.len() == boundary::initiation_len(0)
                &&& message.len() <= scratch
                &&& after matches Phase::AwaitingResponse { state } && boundary::initiator(state)
                    == awaiting(private, remote, message)
            },
            Err(error) => {
                &&& after is Completed
                &&& {
                    ||| error == (NoiseErrorView::Snow { text: "input error"@ }) && scratch
                        < boundary::initiation_len(0)
                    ||| error == (NoiseErrorView::Snow { text: "RNG error"@ }) && scratch
                        >= boundary::key_len()
                }
            },
        },
        _ => {
            &&& after is Completed
            &&& result == Err::<Seq<u8>, NoiseErrorView>(
                NoiseErrorView::InvalidState { message: "initiation already generated"@ },
            )
        },
    }
}

/// The session that a handshake ends in, given where it stands and the
/// responder's frame; or why it fails.
///
/// The session starts at nonce zero in both directions, with the ciphers that
/// the initiator arrives at with the responder's message.
pub open spec fn completion(phase: Phase, config: NoiseConfig, response: Seq<u8>) -> Result<
    Session,
    NoiseErrorView,
> {
    match phase {
        Phase::Ready { .. } => Err(
            NoiseErrorView::InvalidState { message: "initiation not yet sent"@ },
        ),
        Phase::Completed => Err(
            NoiseErrorView::InvalidState { message: "handshake already completed"@ },
        ),
        Phase::AwaitingResponse { state } => match response_message(response) {
            Err(error) => Err(error),
            Ok(reply) => if reply.len() < boundary::key_len() {
                Err(NoiseErrorView::Snow { text: "input error"@ })
            } else if reply.len() < boundary::reply_len(0) || reply.len() > boundary::reply_len(
                config.handshake_scratch_bytes as int,
            ) || boundary::reply_payload(state, reply) is None {
                Err(NoiseErrorView::Snow { text: "decrypt error"@ })
            } else {
                let (sending, receiving) = boundary::agreed_ciphers(state, reply);
                Ok(
                    Session {
                        sending: boundary::fresh_channel(sending),
                        receiving: boundary::fresh_channel(receiving),
                        config,
                    },
                )
            },
        },
    }
}

/// Whether a handshake that is given this response ends paired with the
/// responder, if the response is the responder's answer.
///
/// That is: where the handshake awaits the response, and the response frames
/// what a responder with the expected public key wrote on reading the
/// handshake's message, and its payload fits the buffer, the handshake ends in a
/// session that sends with the cipher that the responder receives with, and the
/// other way round.
pub open spec fn pairs_with_answer(phase: Phase, config: NoiseConfig, response: Seq<u8>) -> bool {
    match (phase, response_message(response)) {
        (Phase::AwaitingResponse { state }, Ok(reply)) => {
            let client = boundary::initiator(state);
            forall|server: Seq<u8>, sending: Seq<u8>, receiving: Seq<u8>| #[trigger]
                boundary::answered(
                    client.suite,
                    server,
                    client.prologue,
                    client.sent.unwrap(),
                    reply,
                    sending,
                    receiving,
                ) && client.remote == boundary::x25519_public(server) && reply.len()
                    <= boundary::reply_len(config.handshake_scratch_bytes as int) ==> completion(
                    phase,
                    config,
                    response,
                ) == Ok::<Session, NoiseErrorView>(
                    Session {
                        sending: boundary::fresh_channel(receiving),
                        receiving: boundary::fresh_channel(sending),
                        config,
                    },
                )
        },
        _ => true,
    }
}

/// Drives the Noise IK handshake from the client's side, as initiator.
///
/// 1. Create with [`NoiseHandshake::new`].
/// 2. Send what [`NoiseHandshake::initiation_message`] returns.
/// 3. Hand the server's reply to [`NoiseHandshake::process_response`].
pub struct NoiseHandshake {
    state: HandshakePhase,
    config: NoiseConfig,
}

enum HandshakePhase {
    Ready { machine_key: MachinePrivate, server_public: MachinePublic },
    AwaitingResponse { handshake: Box<snow::HandshakeState> },
    Completed,
}

impl HandshakePhase {
    spec fn phase(self) -> Phase {
        match self {
            HandshakePhase::Ready { machine_key, server_public } => Phase::Ready {
                private: machine_key@,
                remote: server_public@,
            },
            HandshakePhase::AwaitingResponse { handshake } => Phase::AwaitingResponse {
                state: *handshake,
            },
            HandshakePhase::Completed => Phase::Completed,
        }
    }
}

impl NoiseHandshake {
    /// Where the handshake stands.
    pub closed spec fn phase(self) -> Phase {
        self.state.phase()
    }

    /// The knobs that the handshake was created with.
    pub closed spec fn knobs(self) -> NoiseConfig {
        self.config
    }

    #[verifier::type_invariant]
    spec fn well_formed(self) -> bool {
        match self.state {
            HandshakePhase::AwaitingResponse { handshake } => {
                &&& boundary::is_control_suite(boundary::initiator(*handshake).suite)
                &&& boundary::initiator(*handshake).sent is Some
                &&& boundary::initiator(*handshake).ciphers is None
                &&& self.config.can_finish()
            },
            _ => true,
        }
    }

    /// Create a handshake with the default knobs.
    pub fn new(machine_key: MachinePrivate, server_public: MachinePublic) -> (handshake: Self)
        ensures
            handshake.phase() == (Phase::Ready { private: machine_key@, remote: server_public@ }),
            handshake.knobs().max_frame_payload == crate::config::DEFAULT_MAX_FRAME_PAYLOAD,
            handshake.knobs().handshake_scratch_bytes
                == crate::config::DEFAULT_HANDSHAKE_SCRATCH_BYTES,
    {
        Self::with_config(machine_key, server_public, NoiseConfig::default())
    }

    /// Create a handshake with the given knobs.
    pub fn with_config(
        machine_key: MachinePrivate,
        server_public: MachinePublic,
        config: NoiseConfig,
    ) -> (handshake: Self)
        ensures
            handshake.phase() == (Phase::Ready { private: machine_key@, remote: server_public@ }),
            handshake.knobs() == config,
    {
        NoiseHandshake { state: HandshakePhase::Ready { machine_key, server_public }, config }
    }

    /// Write the initiator's message and return it framed.
    ///
    /// # Errors
    ///
    /// Returns [`NoiseError::InvalidState`] if called more than once, or
    /// [`NoiseError::Snow`] if the scratch buffer is too small for the message
    /// or the random number generator fails. After an error the handshake is
    /// over.
    pub fn initiation_message(&mut self) -> (r: Result<Vec<u8>, NoiseError>)
        requires
            old(self).phase() is Ready ==> old(self).knobs().can_initiate(),
        ensures
            final(self).knobs() == old(self).knobs(),
            initiated(
                old(self).phase(),
                old(self).knobs().handshake_scratch_bytes as int,
                outcome(r),
                final(self).phase(),
            ),
    {
        let mut current: HandshakePhase = HandshakePhase::Completed;
        core::mem::swap(&mut self.state, &mut current);
        let (machine_key, server_public) = match current {
            HandshakePhase::Ready { machine_key, server_public } => (machine_key, server_public),
            HandshakePhase::AwaitingResponse { .. } | HandshakePhase::Completed => {
                return Err(
                    NoiseError::InvalidState {
                        message: text::owned("initiation already generated"),
                    },
                );
            },
        };
        let prologue: Vec<u8> = prologue();
        let mut handshake: snow::HandshakeState = match boundary::handshake_initiator(
            NOISE_PARAMS,
            machine_key.as_bytes(),
            server_public.as_bytes(),
            prologue.as_slice(),
        ) {
            Ok(state) => state,
            Err(source) => {
                return Err(NoiseError::from(source));
            },
        };
        let mut message: Vec<u8> = vec![0u8; self.config.handshake_scratch_bytes];
        let empty: [u8; 0] = [];
        let n: usize = match boundary::handshake_write(&mut handshake, &empty, &mut message) {
            Ok(n) => n,
            Err(source) => {
                return Err(NoiseError::from(source));
            },
        };
        message.truncate(n);
        let framed: Vec<u8> = match frame_initiation(message.as_slice()) {
            Ok(framed) => framed,
            Err(error) => {
                return Err(error);
            },
        };
        proof {
            frame::law_initiation_frame_shape(message@);
        }
        self.state = HandshakePhase::AwaitingResponse { handshake: Box::new(handshake) };
        Ok(framed)
    }

    /// Read the responder's framed message and finish the handshake.
    ///
    /// # Errors
    ///
    /// Returns [`NoiseError::InvalidState`] unless the initiation was sent,
    /// [`NoiseError::HandshakeFailed`] if the frame is malformed, and
    /// [`NoiseError::Snow`] if the message in it is not the responder's.
    pub fn process_response(self, response: &[u8]) -> (r: Result<NoiseTransport, NoiseError>)
        ensures
            pairs_with_answer(self.phase(), self.knobs(), response@),
            match r {
                Ok(transport) => completion(self.phase(), self.knobs(), response@) == Ok::<
                    Session,
                    NoiseErrorView,
                >(transport@),
                Err(error) => completion(self.phase(), self.knobs(), response@) == Err::<
                    Session,
                    NoiseErrorView,
                >(error@),
            },
    {
        proof {
            use_type_invariant(&self);
        }
        let config: NoiseConfig = self.config;
        let mut handshake: snow::HandshakeState = match self.state {
            HandshakePhase::AwaitingResponse { handshake } => *handshake,
            HandshakePhase::Ready { .. } => {
                return Err(
                    NoiseError::InvalidState { message: text::owned("initiation not yet sent") },
                );
            },
            HandshakePhase::Completed => {
                return Err(
                    NoiseError::InvalidState {
                        message: text::owned("handshake already completed"),
                    },
                );
            },
        };
        let message: &[u8] = match unframe_response(response) {
            Ok(message) => message,
            Err(error) => {
                return Err(error);
            },
        };
        let mut payload: Vec<u8> = vec![0u8; config.handshake_scratch_bytes];
        match boundary::handshake_read(&mut handshake, message, &mut payload) {
            Ok(_) => {},
            Err(source) => {
                return Err(NoiseError::from(source));
            },
        }
        match boundary::handshake_finish(handshake) {
            Ok(transport) => Ok(NoiseTransport { transport, config }),
            Err(source) => Err(NoiseError::from(source)),
        }
    }
}

// ---------------------------------------------------------------------------
// Transport
// ---------------------------------------------------------------------------

/// An established session as its contracts see it.
pub struct Session {
    /// The direction to the server.
    pub sending: Channel,
    /// The direction from the server.
    pub receiving: Channel,
    /// The knobs of the session.
    pub config: NoiseConfig,
}

/// Why a session refuses to send a plaintext of some length; `None` where it
/// sends it.
pub open spec fn encrypt_refusal(session: Session, len: int) -> Option<NoiseErrorView> {
    if len > session.config.max_frame_payload {
        Some(
            NoiseErrorView::HandshakeFailed {
                message: "payload too large: "@ + text::decimal(len as nat) + " > "@
                    + text::decimal(session.config.max_frame_payload as nat),
            },
        )
    } else {
        match boundary::send_refusal(session.sending, len, len + TAG_LEN) {
            Some(text) => Some(NoiseErrorView::Snow { text }),
            None => None,
        }
    }
}

/// How the session and the result of [`NoiseTransport::encrypt`] come out.
///
/// A refusal changes nothing. Otherwise the sending direction moves on by one
/// message, and the result is the transport frame of the sealed plaintext,
/// which the same cipher at the same nonce opens again. A cipher from outside
/// the `snow` crate may report any length: the frame announces that length and
/// carries as many bytes of the buffer, or all of it, and a length that a frame
/// cannot announce is an error. What those bytes are is left open.
pub open spec fn encrypted(
    before: Session,
    plaintext: Seq<u8>,
    result: Result<Seq<u8>, NoiseErrorView>,
    after: Session,
) -> bool {
    match encrypt_refusal(before, plaintext.len() as int) {
        Some(error) => result == Err::<Seq<u8>, NoiseErrorView>(error) && after == before,
        None => {
            &&& after == (Session { sending: boundary::advanced(before.sending), ..before })
            &&& match before.sending.cipher {
                Some(cipher) => {
                    let ciphertext = boundary::sealed(cipher, before.sending.nonce, plaintext);
                    &&& ciphertext.len() == plaintext.len() + TAG_LEN
                    &&& boundary::opened(cipher, before.sending.nonce, ciphertext) == Some(
                        plaintext,
                    )
                    &&& result == Ok::<Seq<u8>, NoiseErrorView>(frame::transport_frame(ciphertext))
                },
                None => match result {
                    Ok(framed) => {
                        let announced = frame::announced_len(framed);
                        let body = framed.skip(HEADER_LEN as int);
                        &&& framed == frame::frame_announcing(MSG_TYPE_TRANSPORT, announced, body)
                        &&& body.len() == if announced < plaintext.len() + TAG_LEN {
                            announced
                        } else {
                            plaintext.len() + TAG_LEN
                        }
                    },
                    Err(error) => error == (NoiseErrorView::HandshakeFailed {
                        message: "ciphertext too large for frame"@,
                    }),
                },
            }
        },
    }
}

/// Why a session refuses to try a ciphertext of some length; `None` where it
/// tries to open it.
pub open spec fn decrypt_refusal(session: Session, len: int) -> Option<NoiseErrorView> {
    if len < TAG_LEN {
        Some(
            NoiseErrorView::DecryptionFailed {
                message: "ciphertext too short for authentication tag"@,
            },
        )
    } else {
        match boundary::receive_refusal(session.receiving, len, len) {
            Some(text) => Some(NoiseErrorView::DecryptionFailed { message: text }),
            None => None,
        }
    }
}

/// How the session and the result of [`NoiseTransport::decrypt`] come out.
///
/// A refusal, or a ciphertext that does not authenticate, changes nothing.
/// Otherwise the receiving direction moves on by one message, and the result
/// is the plaintext, which is shorter than the ciphertext by the tag. What a
/// cipher from outside the `snow` crate opens is left
/// open.
pub open spec fn decrypted(
    before: Session,
    ciphertext: Seq<u8>,
    result: Result<Seq<u8>, NoiseErrorView>,
    after: Session,
) -> bool {
    match decrypt_refusal(before, ciphertext.len() as int) {
        Some(error) => result == Err::<Seq<u8>, NoiseErrorView>(error) && after == before,
        None => {
            &&& match result {
                Ok(_) => after == (Session {
                    receiving: boundary::advanced(before.receiving),
                    ..before
                }),
                Err(_) => after == before,
            }
            &&& match before.receiving.cipher {
                Some(cipher) => result == match boundary::opened(
                    cipher,
                    before.receiving.nonce,
                    ciphertext,
                ) {
                    Some(plaintext) => Ok::<Seq<u8>, NoiseErrorView>(plaintext),
                    None => Err::<Seq<u8>, NoiseErrorView>(
                        NoiseErrorView::DecryptionFailed { message: "decrypt error"@ },
                    ),
                },
                None => result matches Err(error) ==> error is DecryptionFailed,
            }
            &&& match result {
                Ok(plaintext) => if before.receiving.cipher is Some {
                    plaintext.len() == ciphertext.len() - TAG_LEN
                } else {
                    plaintext.len() <= ciphertext.len()
                },
                Err(_) => true,
            }
        },
    }
}

/// What a frame is for: its body opens to the plaintext.
pub open spec fn sends(
    before: Session,
    plaintext: Seq<u8>,
    result: Result<Seq<u8>, NoiseErrorView>,
) -> bool {
    result is Ok && before.sending.cipher is Some ==> {
        &&& result->Ok_0.len() == plaintext.len() + 19
        &&& boundary::opened(
            before.sending.cipher.unwrap(),
            before.sending.nonce,
            result->Ok_0.skip(3),
        ) == Some(plaintext)
    }
}

/// What a received message is: what the ciphertext opens to.
pub open spec fn receives(
    before: Session,
    ciphertext: Seq<u8>,
    result: Result<Seq<u8>, NoiseErrorView>,
) -> bool {
    result is Ok && before.receiving.cipher is Some ==> boundary::opened(
        before.receiving.cipher.unwrap(),
        before.receiving.nonce,
        ciphertext,
    ) == Some(result->Ok_0)
}

/// Frame a ciphertext, once `snow` has written it and reported its length.
///
/// # Errors
///
/// Returns [`NoiseError::HandshakeFailed`] if the reported length is more than
/// a frame can announce.
pub fn frame_ciphertext(ciphertext: &[u8], reported: usize) -> (r: Result<Vec<u8>, NoiseError>)
    ensures
        outcome(r) == if reported > MAX_BODY_LEN {
            Err::<Seq<u8>, NoiseErrorView>(
                NoiseErrorView::HandshakeFailed { message: "ciphertext too large for frame"@ },
            )
        } else {
            Ok::<Seq<u8>, NoiseErrorView>(
                frame::frame_announcing(MSG_TYPE_TRANSPORT, reported as int, ciphertext@),
            )
        },
{
    if reported > MAX_BODY_LEN {
        return Err(
            NoiseError::HandshakeFailed { message: text::owned("ciphertext too large for frame") },
        );
    }
    Ok(frame::build_frame_announcing(MSG_TYPE_TRANSPORT, reported, ciphertext))
}

/// An established Noise session: encrypts and decrypts control messages.
pub struct NoiseTransport {
    transport: snow::TransportState,
    config: NoiseConfig,
}

impl View for NoiseTransport {
    type V = Session;

    closed spec fn view(&self) -> Session {
        Session {
            sending: boundary::outbound(self.transport),
            receiving: boundary::inbound(self.transport),
            config: self.config,
        }
    }
}

impl NoiseTransport {
    /// Encrypt a message and frame it.
    ///
    /// # Errors
    ///
    /// Returns [`NoiseError::HandshakeFailed`] if the plaintext is larger than
    /// a frame may carry, or [`NoiseError::Snow`] if `snow` refuses it.
    pub fn encrypt(&mut self, plaintext: &[u8]) -> (r: Result<Vec<u8>, NoiseError>)
        ensures
            encrypted(old(self)@, plaintext@, outcome(r), final(self)@),
            sends(old(self)@, plaintext@, outcome(r)),
    {
        let max_payload: usize = self.config.max_frame_payload;
        if plaintext.len() > max_payload {
            let mut message: String = text::owned("payload too large: ");
            text::push_decimal(&mut message, plaintext.len());
            message.append(" > ");
            text::push_decimal(&mut message, max_payload);
            return Err(NoiseError::HandshakeFailed { message });
        }
        let mut ciphertext: Vec<u8> = vec![0u8; plaintext.len().saturating_add(TAG_LEN)];
        let n: usize = match boundary::transport_write(
            &mut self.transport,
            plaintext,
            &mut ciphertext,
        ) {
            Ok(n) => n,
            Err(source) => {
                return Err(NoiseError::from(source));
            },
        };
        ciphertext.truncate(n);
        let r = frame_ciphertext(ciphertext.as_slice(), n);
        proof {
            if n <= MAX_BODY_LEN {
                frame::law_announcement_round_trip(MSG_TYPE_TRANSPORT, n as int, ciphertext@);
            }
        }
        r
    }

    /// Decrypt a ciphertext, given without its frame header.
    ///
    /// # Errors
    ///
    /// Returns [`NoiseError::DecryptionFailed`] if the ciphertext is too short
    /// or too long, does not authenticate, or no more messages can be
    /// received.
    pub fn decrypt(&mut self, ciphertext: &[u8]) -> (r: Result<Vec<u8>, NoiseError>)
        ensures
            decrypted(old(self)@, ciphertext@, outcome(r), final(self)@),
            receives(old(self)@, ciphertext@, outcome(r)),
    {
        if ciphertext.len() < TAG_LEN {
            return Err(
                NoiseError::DecryptionFailed {
                    message: text::owned("ciphertext too short for authentication tag"),
                },
            );
        }
        let mut plaintext: Vec<u8> = vec![0u8; ciphertext.len()];
        let n: usize = match boundary::transport_read(
            &mut self.transport,
            ciphertext,
            &mut plaintext,
        ) {
            Ok(n) => n,
            Err(source) => {
                return Err(
                    NoiseError::DecryptionFailed { message: boundary::snow_error_string(&source) },
                );
            },
        };
        plaintext.truncate(n);
        Ok(plaintext)
    }

    /// Wrap an established `snow` session with the default knobs.
    pub fn from_snow(transport: snow::TransportState) -> (session: Self)
        ensures
            session@.sending == boundary::outbound(transport),
            session@.receiving == boundary::inbound(transport),
            session@.config.max_frame_payload == crate::config::DEFAULT_MAX_FRAME_PAYLOAD,
            session@.config.handshake_scratch_bytes
                == crate::config::DEFAULT_HANDSHAKE_SCRATCH_BYTES,
    {
        NoiseTransport { transport, config: NoiseConfig::default() }
    }

    /// Wrap an established `snow` session with the given knobs.
    pub fn from_snow_with_config(transport: snow::TransportState, config: NoiseConfig) -> (session:
        Self)
        ensures
            session@ == (Session {
                sending: boundary::outbound(transport),
                receiving: boundary::inbound(transport),
                config,
            }),
    {
        NoiseTransport { transport, config }
    }
}

// ---------------------------------------------------------------------------
// Laws
// ---------------------------------------------------------------------------

/// A handshake sends at most one message: whatever came of a first call of
/// [`NoiseHandshake::initiation_message`], a second one is refused and leaves
/// the handshake completed.
pub proof fn law_initiation_is_sent_once(
    first: Phase,
    second: Phase,
    third: Phase,
    scratch: int,
    first_result: Result<Seq<u8>, NoiseErrorView>,
    second_result: Result<Seq<u8>, NoiseErrorView>,
)
    requires
        initiated(first, scratch, first_result, second),
        initiated(second, scratch, second_result, third),
    ensures
        second_result == Err::<Seq<u8>, NoiseErrorView>(
            NoiseErrorView::InvalidState { message: "initiation already generated"@ },
        ),
        third is Completed,
{
}

/// The message in a responder's frame is found again, whatever bytes follow
/// the frame.
pub proof fn law_response_round_trip(message: Seq<u8>, rest: Seq<u8>)
    requires
        message.len() <= MAX_BODY_LEN,
    ensures
        response_message(frame::response_frame(message) + rest) == Ok::<Seq<u8>, NoiseErrorView>(
            message,
        ),
{
    let framed = frame::response_frame(message);
    let response = framed + rest;
    frame::law_frame_round_trip(MSG_TYPE_RESPONSE, message);
    assert(frame::announced_len(response) == frame::announced_len(framed));
    assert(response.subrange(HEADER_LEN as int, HEADER_LEN + message.len()) =~= message);
}

/// A responder's frame that is cut short anywhere is refused.
pub proof fn law_truncated_response_is_refused(message: Seq<u8>, kept: int)
    requires
        message.len() <= MAX_BODY_LEN,
        0 <= kept < frame::response_frame(message).len(),
    ensures
        response_message(frame::response_frame(message).take(kept)) is Err,
{
    frame::law_frame_round_trip(MSG_TYPE_RESPONSE, message);
}

/// Whether one party's sending direction is in step with the other party's
/// receiving direction: the same cipher at the same nonce.
pub open spec fn in_step(sender: Session, receiver: Session) -> bool {
    &&& sender.sending.cipher is Some
    &&& sender.sending == receiver.receiving
}

/// What one party encrypts, the other party, in step with it, decrypts from
/// the body of the frame to the same plaintext, and the two stay in step.
pub proof fn law_transport_round_trip(
    sender: Session,
    sender_after: Session,
    receiver: Session,
    receiver_after: Session,
    plaintext: Seq<u8>,
    framed: Seq<u8>,
    result: Result<Seq<u8>, NoiseErrorView>,
)
    requires
        in_step(sender, receiver),
        encrypted(sender, plaintext, Ok(framed), sender_after),
        decrypted(receiver, framed.skip(HEADER_LEN as int), result, receiver_after),
    ensures
        result == Ok::<Seq<u8>, NoiseErrorView>(plaintext),
        in_step(sender_after, receiver_after),
{
    let cipher = sender.sending.cipher.unwrap();
    let ciphertext = boundary::sealed(cipher, sender.sending.nonce, plaintext);
    frame::law_frame_round_trip(MSG_TYPE_TRANSPORT, ciphertext);
}

/// A stream of messages arrives as it was sent: where one party encrypts
/// messages one after the other, and the other party, in step at the start,
/// decrypts the frames' bodies in the same order, every message comes out as
/// it went in, and the two are in step at the end.
pub proof fn law_stream_round_trip(
    senders: Seq<Session>,
    receivers: Seq<Session>,
    plaintexts: Seq<Seq<u8>>,
    frames: Seq<Seq<u8>>,
    results: Seq<Result<Seq<u8>, NoiseErrorView>>,
)
    requires
        senders.len() == plaintexts.len() + 1,
        receivers.len() == plaintexts.len() + 1,
        frames.len() == plaintexts.len(),
        results.len() == plaintexts.len(),
        in_step(senders[0], receivers[0]),
        forall|i: int|
            #![trigger plaintexts[i]]
            0 <= i < plaintexts.len() ==> {
                &&& encrypted(senders[i], plaintexts[i], Ok(frames[i]), senders[i + 1])
                &&& decrypted(
                    receivers[i],
                    frames[i].skip(HEADER_LEN as int),
                    results[i],
                    receivers[i + 1],
                )
            },
    ensures
        forall|i: int|
            0 <= i < plaintexts.len() ==> #[trigger] results[i] == Ok::<Seq<u8>, NoiseErrorView>(
                plaintexts[i],
            ),
        in_step(senders.last(), receivers.last()),
    decreases plaintexts.len(),
{
    if plaintexts.len() > 0 {
        let n = plaintexts.len() - 1;
        assert forall|i: int| 0 <= i < n implies {
            &&& encrypted(
                senders.drop_last()[i],
                #[trigger] plaintexts.drop_last()[i],
                Ok(frames.drop_last()[i]),
                senders.drop_last()[i + 1],
            )
            &&& decrypted(
                receivers.drop_last()[i],
                frames.drop_last()[i].skip(HEADER_LEN as int),
                results.drop_last()[i],
                receivers.drop_last()[i + 1],
            )
        } by {
            assert(plaintexts.drop_last()[i] == plaintexts[i]);
        }
        law_stream_round_trip(
            senders.drop_last(),
            receivers.drop_last(),
            plaintexts.drop_last(),
            frames.drop_last(),
            results.drop_last(),
        );
        assert(encrypted(senders[n], plaintexts[n], Ok(frames[n]), senders[n + 1]));
        law_transport_round_trip(
            senders[n],
            senders[n + 1],
            receivers[n],
            receivers[n + 1],
            plaintexts[n],
            frames[n],
            results[n],
        );
        assert forall|i: int| 0 <= i < plaintexts.len() implies #[trigger] results[i] == Ok::<
            Seq<u8>,
            NoiseErrorView,
        >(plaintexts[i]) by {
            if i < n {
                assert(results[i] == results.drop_last()[i]);
                assert(plaintexts[i] == plaintexts.drop_last()[i]);
            }
        }
    }
}

/// The session that a handshake ends in is ready in both directions: it has
/// ciphers, its nonces are at zero, and it sends every plaintext that its knobs
/// allow and that fits a Noise message.
pub proof fn law_new_session_is_ready(
    phase: Phase,
    config: NoiseConfig,
    response: Seq<u8>,
    session: Session,
    plaintext: Seq<u8>,
    result: Result<Seq<u8>, NoiseErrorView>,
    after: Session,
)
    requires
        completion(phase, config, response) == Ok::<Session, NoiseErrorView>(session),
        plaintext.len() <= config.max_frame_payload,
        plaintext.len() + TAG_LEN <= boundary::max_message(),
        encrypted(session, plaintext, result, after),
    ensures
        session.config == config,
        session.sending.open && session.sending.cipher is Some && session.sending.nonce == 0,
        session.receiving.open && session.receiving.cipher is Some && session.receiving.nonce == 0,
        result is Ok,
        after.sending.nonce == 1,
{
}

/// A handshake with the server that it was made for pairs the two sides.
///
/// The server's private key is `server`; it reads the message that the client
/// framed, and writes `reply`, framed in the response. Then the client's
/// handshake completes, and its session is in step with the server's in both
/// directions.
pub proof fn law_handshake_pairs(
    private: Seq<u8>,
    server: Seq<u8>,
    config: NoiseConfig,
    framed: Seq<u8>,
    phase: Phase,
    reply: Seq<u8>,
    rest: Seq<u8>,
    peer: Session,
)
    requires
        initiated(
            Phase::Ready { private, remote: boundary::x25519_public(server) },
            config.handshake_scratch_bytes as int,
            Ok(framed),
            phase,
        ),
        peer.sending.cipher is Some,
        peer.sending == boundary::fresh_channel(peer.sending.cipher.unwrap()),
        peer.receiving.cipher is Some,
        peer.receiving == boundary::fresh_channel(peer.receiving.cipher.unwrap()),
        boundary::answered(
            NOISE_PARAMS@,
            server,
            prologue_bytes(),
            framed.skip(5),
            reply,
            peer.sending.cipher.unwrap(),
            peer.receiving.cipher.unwrap(),
        ),
        reply.len() <= MAX_BODY_LEN,
        reply.len() <= boundary::reply_len(config.handshake_scratch_bytes as int),
        pairs_with_answer(phase, config, frame::response_frame(reply) + rest),
    ensures
        completion(phase, config, frame::response_frame(reply) + rest) matches Ok(session)
            && session.config == config && in_step(session, peer) && in_step(peer, session),
{
    law_response_round_trip(reply, rest);
    let client = boundary::initiator(phase->state);
    assert(client == awaiting(private, boundary::x25519_public(server), framed.skip(5)));
    assert(boundary::answered(
        client.suite,
        server,
        client.prologue,
        client.sent.unwrap(),
        reply,
        peer.sending.cipher.unwrap(),
        peer.receiving.cipher.unwrap(),
    ));
}

/// After a handshake with the server that it was made for, everything that the
/// client may send arrives: encryption succeeds, and the server decrypts the
/// frame's body to the plaintext.
pub proof fn law_handshake_round_trip(
    private: Seq<u8>,
    server: Seq<u8>,
    config: NoiseConfig,
    framed: Seq<u8>,
    phase: Phase,
    reply: Seq<u8>,
    rest: Seq<u8>,
    session: Session,
    session_after: Session,
    peer: Session,
    peer_after: Session,
    plaintext: Seq<u8>,
    sent: Result<Seq<u8>, NoiseErrorView>,
    received: Result<Seq<u8>, NoiseErrorView>,
)
    requires
        initiated(
            Phase::Ready { private, remote: boundary::x25519_public(server) },
            config.handshake_scratch_bytes as int,
            Ok(framed),
            phase,
        ),
        peer.sending.cipher is Some,
        peer.sending == boundary::fresh_channel(peer.sending.cipher.unwrap()),
        peer.receiving.cipher is Some,
        peer.receiving == boundary::fresh_channel(peer.receiving.cipher.unwrap()),
        boundary::answered(
            NOISE_PARAMS@,
            server,
            prologue_bytes(),
            framed.skip(5),
            reply,
            peer.sending.cipher.unwrap(),
            peer.receiving.cipher.unwrap(),
        ),
        reply.len() <= MAX_BODY_LEN,
        reply.len() <= boundary::reply_len(config.handshake_scratch_bytes as int),
        pairs_with_answer(phase, config, frame::response_frame(reply) + rest),
        completion(phase, config, frame::response_frame(reply) + rest) == Ok::<
            Session,
            NoiseErrorView,
        >(session),
        plaintext.len() <= config.max_frame_payload,
        plaintext.len() + TAG_LEN <= boundary::max_message(),
        encrypted(session, plaintext, sent, session_after),
        sent matches Ok(frame) ==> decrypted(
            peer,
            frame.skip(HEADER_LEN as int),
            received,
            peer_after,
        ),
    ensures
        sent is Ok,
        received == Ok::<Seq<u8>, NoiseErrorView>(plaintext),
        in_step(session_after, peer_after),
{
    law_handshake_pairs(private, server, config, framed, phase, reply, rest, peer);
    let response = frame::response_frame(reply) + rest;
    law_new_session_is_ready(phase, config, response, session, plaintext, sent, session_after);
    law_transport_round_trip(
        session,
        session_after,
        peer,
        peer_after,
        plaintext,
        sent->Ok_0,
        received,
    );
}

/// A session whose sending direction is usable sends exactly the plaintexts
/// that its knobs allow and that fit a Noise message, each in a frame that is
/// longer than it by the header and the tag.
pub proof fn law_payload_limit(
    before: Session,
    plaintext: Seq<u8>,
    result: Result<Seq<u8>, NoiseErrorView>,
    after: Session,
)
    requires
        before.sending.open,
        before.sending.cipher is Some,
        before.sending.nonce < u64::MAX,
        encrypted(before, plaintext, result, after),
    ensures
        result is Ok <==> plaintext.len() <= before.config.max_frame_payload && plaintext.len()
            + TAG_LEN <= boundary::max_message(),
        result matches Ok(framed) ==> framed.len() == HEADER_LEN + plaintext.len() + TAG_LEN,
{
}

/// What is received is authentic: with a cipher of the `snow` crate, decryption
/// gives a plaintext only where the cipher, at the session's nonce, opens the
/// ciphertext to that plaintext. A ciphertext that does not open is an error
/// and leaves the session as it was.
pub proof fn law_decryption_is_authentic(
    before: Session,
    ciphertext: Seq<u8>,
    result: Result<Seq<u8>, NoiseErrorView>,
    after: Session,
)
    requires
        decrypted(before, ciphertext, result, after),
        before.receiving.cipher is Some,
    ensures
        ({
            let opening = boundary::opened(
                before.receiving.cipher.unwrap(),
                before.receiving.nonce,
                ciphertext,
            );
            &&& result matches Ok(plaintext) ==> opening == Some(plaintext) && plaintext.len() + 16
                == ciphertext.len()
            &&& opening is None ==> result is Err && after == before
        }),
{
}

/// A session receives every ciphertext that opens, of a length that Noise
/// allows, as long as its receiving direction is in use and has nonces left.
pub proof fn law_authentic_messages_are_received(
    before: Session,
    ciphertext: Seq<u8>,
    plaintext: Seq<u8>,
    result: Result<Seq<u8>, NoiseErrorView>,
    after: Session,
)
    requires
        decrypted(before, ciphertext, result, after),
        before.receiving.open,
        before.receiving.cipher is Some,
        before.receiving.nonce < u64::MAX,
        16 <= ciphertext.len() <= 65535,
        boundary::opened(
            before.receiving.cipher.unwrap(),
            before.receiving.nonce,
            ciphertext,
        ) == Some(plaintext),
    ensures
        result == Ok::<Seq<u8>, NoiseErrorView>(plaintext),
{
}

/// What decryption does to a session: a received message moves the receiving
/// nonce on by one, an error changes nothing, and the rest always stays.
pub proof fn law_decryption_moves_one_nonce(
    before: Session,
    ciphertext: Seq<u8>,
    result: Result<Seq<u8>, NoiseErrorView>,
    after: Session,
)
    requires
        decrypted(before, ciphertext, result, after),
    ensures
        after.sending == before.sending,
        after.config == before.config,
        after.receiving.open == before.receiving.open,
        after.receiving.cipher == before.receiving.cipher,
        result is Ok ==> before.receiving.nonce < u64::MAX && after.receiving.nonce
            == before.receiving.nonce + 1,
        result is Err ==> after == before,
{
}

/// Every refusal to decrypt says why, and is owed exactly where it is stated:
/// no room for a tag, too long for Noise, a direction that is not in use, no
/// nonces left, or a ciphertext that does not open.
pub proof fn law_decryption_refusals(
    before: Session,
    ciphertext: Seq<u8>,
    result: Result<Seq<u8>, NoiseErrorView>,
    after: Session,
)
    requires
        decrypted(before, ciphertext, result, after),
    ensures
        ({
            let failed = |message: Seq<char>|
                Err::<Seq<u8>, NoiseErrorView>(NoiseErrorView::DecryptionFailed { message });
            if ciphertext.len() < 16 {
                result == failed("ciphertext too short for authentication tag"@)
            } else if ciphertext.len() > 65535 {
                result == failed("input error"@)
            } else if !before.receiving.open {
                result == failed("state error: OneWay"@)
            } else if before.receiving.nonce == u64::MAX {
                result == failed("state error: Exhausted"@)
            } else {
                before.receiving.cipher matches Some(cipher) ==> boundary::opened(
                    cipher,
                    before.receiving.nonce,
                    ciphertext,
                ) is None ==> result == failed("decrypt error"@)
            }
        }),
{
}

/// What is sent is the plaintext, sealed: with a cipher of the `snow` crate the
/// frame is of the transport type, announces the ciphertext's length, and goes
/// on with the plaintext sealed by the cipher at the session's nonce, which
/// opens again.
pub proof fn law_encryption_seals(
    before: Session,
    plaintext: Seq<u8>,
    framed: Seq<u8>,
    after: Session,
)
    requires
        encrypted(before, plaintext, Ok(framed), after),
        before.sending.cipher is Some,
    ensures
        ({
            let cipher = before.sending.cipher.unwrap();
            let nonce = before.sending.nonce;
            &&& framed.len() == plaintext.len() + 19
            &&& framed[0] == 4
            &&& 256 * framed[1] + framed[2] == plaintext.len() + 16
            &&& framed.skip(3) == boundary::sealed(cipher, nonce, plaintext)
            &&& boundary::opened(cipher, nonce, framed.skip(3)) == Some(plaintext)
        }),
{
    let ciphertext = boundary::sealed(
        before.sending.cipher.unwrap(),
        before.sending.nonce,
        plaintext,
    );
    frame::law_frame_bytes(4, ciphertext);
}

/// What encryption does to a session: a plaintext that is not refused moves the
/// sending nonce on by one, a refusal changes nothing, and the rest always
/// stays.
pub proof fn law_encryption_moves_one_nonce(
    before: Session,
    plaintext: Seq<u8>,
    result: Result<Seq<u8>, NoiseErrorView>,
    after: Session,
)
    requires
        encrypted(before, plaintext, result, after),
    ensures
        after.receiving == before.receiving,
        after.config == before.config,
        after.sending.open == before.sending.open,
        after.sending.cipher == before.sending.cipher,
        result is Ok ==> before.sending.nonce < u64::MAX && after.sending.nonce
            == before.sending.nonce + 1,
        result is Err && before.sending.cipher is Some ==> after == before,
{
}

/// Every refusal to encrypt says why, and is owed exactly where it is stated: a
/// plaintext beyond the knob, a direction that is not in use, a plaintext too
/// long for Noise, or no nonces left.
pub proof fn law_encryption_refusals(
    before: Session,
    plaintext: Seq<u8>,
    result: Result<Seq<u8>, NoiseErrorView>,
    after: Session,
)
    requires
        encrypted(before, plaintext, result, after),
    ensures
        ({
            let limit = before.config.max_frame_payload as nat;
            if plaintext.len() > limit {
                result == Err::<Seq<u8>, NoiseErrorView>(
                    NoiseErrorView::HandshakeFailed {
                        message: "payload too large: "@ + text::decimal(plaintext.len()) + " > "@
                            + text::decimal(limit),
                    },
                )
            } else if !before.sending.open {
                result == Err::<Seq<u8>, NoiseErrorView>(
                    NoiseErrorView::Snow { text: "state error: OneWay"@ },
                )
            } else if plaintext.len() + 16 > 65535 {
                result == Err::<Seq<u8>, NoiseErrorView>(
                    NoiseErrorView::Snow { text: "input error"@ },
                )
            } else if before.sending.nonce == u64::MAX {
                result == Err::<Seq<u8>, NoiseErrorView>(
                    NoiseErrorView::Snow { text: "state error: Exhausted"@ },
                )
            } else {
                before.sending.cipher is Some ==> result is Ok
            }
        }),
{
}

/// With a cipher from outside the `snow` crate, the frame announces what the
/// cipher reported and carries that many bytes of a buffer with room for the
/// plaintext and its tag, or all of it.
pub proof fn law_foreign_ciphers_are_framed(
    before: Session,
    plaintext: Seq<u8>,
    result: Result<Seq<u8>, NoiseErrorView>,
    after: Session,
)
    requires
        encrypted(before, plaintext, result, after),
        before.sending.cipher is None,
    ensures
        result matches Ok(framed) ==> {
            let announced = 256 * framed[1] + framed[2];
            let room = plaintext.len() + 16;
            &&& framed[0] == 4
            &&& framed.len() == 3 + if announced < room {
                announced
            } else {
                room as int
            }
        },
{
}

/// The prologue is the name of the protocol and its version.
pub proof fn law_prologue()
    ensures
        prologue_bytes() == encode_utf8("Tailscale Control Protocol v1"@),
{
    reveal_strlit("Tailscale Control Protocol v");
    reveal_strlit("Tailscale Control Protocol v1");
    assert(text::decimal(1) =~= seq!['1']);
    assert("Tailscale Control Protocol v"@ + text::decimal(1) =~= "Tailscale Control Protocol v1"@);
}

/// What the client sends first: a frame of 101 bytes, with the version, the
/// type and the length of the Noise message before it, and that message is the
/// one that the handshake remembers, made with the machine key, for the
/// server's key, under the protocol's name and prologue.
pub proof fn law_initiation_carries_the_message(
    private: Seq<u8>,
    remote: Seq<u8>,
    scratch: int,
    framed: Seq<u8>,
    after: Phase,
)
    requires
        initiated(Phase::Ready { private, remote }, scratch, Ok(framed), after),
    ensures
        framed.len() == 101,
        framed.take(5) == seq![1u8, 0u8, 1u8, 0u8, 96u8],
        after is AwaitingResponse,
        ({
            let client = boundary::initiator(after->state);
            &&& client.sent == Some(framed.skip(5))
            &&& client.private == private
            &&& client.remote == remote
            &&& client.suite == "Noise_IK_25519_ChaChaPoly_BLAKE2s"@
            &&& client.prologue == encode_utf8("Tailscale Control Protocol v1"@)
            &&& client.ciphers is None
        }),
{
    let message = framed.skip(5);
    frame::law_frame_bytes(1, message);
    law_prologue();
    assert(framed.take(5) =~= seq![1u8, 0u8, 1u8, 0u8, 96u8]);
}

/// When the initiation fails: never for want of room where the buffer takes 96
/// bytes, and always otherwise; random numbers may fail wherever the buffer
/// takes a key. A handshake that has begun refuses. Every failure ends it.
pub proof fn law_initiation_failures(
    before: Phase,
    scratch: int,
    result: Result<Seq<u8>, NoiseErrorView>,
    after: Phase,
)
    requires
        initiated(before, scratch, result, after),
    ensures
        result is Ok ==> before is Ready && scratch >= 96,
        result is Err ==> after is Completed,
        before is Ready && result is Err ==> {
            let error = result->Err_0;
            ||| error == (NoiseErrorView::Snow { text: "input error"@ }) && scratch < 96
            ||| error == (NoiseErrorView::Snow { text: "RNG error"@ }) && scratch >= 32
        },
        !(before is Ready) ==> result == Err::<Seq<u8>, NoiseErrorView>(
            NoiseErrorView::InvalidState { message: "initiation already generated"@ },
        ),
{
}

/// A handshake message is taken out of a response exactly where the response
/// starts with the response type, a length and that many bytes more; every
/// refusal says what was wrong.
pub proof fn law_response_reading(response: Seq<u8>)
    ensures
        ({
            let failed = |message: Seq<char>|
                Err::<Seq<u8>, NoiseErrorView>(NoiseErrorView::HandshakeFailed { message });
            let n = 256 * response[1] + response[2];
            response_message(response) == if response.len() < 3 {
                failed("response too short"@)
            } else if response[0] != 2 {
                failed("unexpected message type: 0x"@ + text::hex_pair(response[0]))
            } else if response.len() < 3 + n {
                failed("response payload truncated"@)
            } else {
                Ok::<Seq<u8>, NoiseErrorView>(response.subrange(3, 3 + n))
            }
        }),
{
}

/// A handshake ends in a session only where it awaits the response, the
/// response frames a reply, and the reply authenticates; the session then has
/// the ciphers agreed on, from nonce zero, and the handshake's knobs.
pub proof fn law_completion_is_authentic(
    phase: Phase,
    config: NoiseConfig,
    response: Seq<u8>,
    session: Session,
)
    requires
        completion(phase, config, response) == Ok::<Session, NoiseErrorView>(session),
    ensures
        phase is AwaitingResponse,
        ({
            let n = 256 * response[1] + response[2];
            let reply = response.subrange(3, 3 + n);
            let ciphers = boundary::agreed_ciphers(phase->state, reply);
            &&& response.len() >= 3 + n
            &&& response[0] == 2
            &&& 48 <= n <= 48 + config.handshake_scratch_bytes
            &&& boundary::reply_payload(phase->state, reply) is Some
            &&& session.sending == (Channel { open: true, cipher: Some(ciphers.0), nonce: 0 })
            &&& session.receiving == (Channel { open: true, cipher: Some(ciphers.1), nonce: 0 })
            &&& session.config == config
        }),
{
}

/// A handshake that awaits the response completes with every reply that
/// authenticates and whose payload fits the buffer, and fails with every other
/// one as the Noise library does; a handshake in another state refuses.
pub proof fn law_completion_outcomes(phase: Phase, config: NoiseConfig, reply: Seq<u8>, rest: Seq<u8>)
    requires
        reply.len() <= 65535,
    ensures
        ({
            let response = frame::frame(2, reply) + rest;
            let failed = |error: NoiseErrorView| Err::<Session, NoiseErrorView>(error);
            let result = completion(phase, config, response);
            match phase {
                Phase::Ready { .. } => result == failed(
                    NoiseErrorView::InvalidState { message: "initiation not yet sent"@ },
                ),
                Phase::Completed => result == failed(
                    NoiseErrorView::InvalidState { message: "handshake already completed"@ },
                ),
                Phase::AwaitingResponse { state } => if reply.len() < 32 {
                    result == failed(NoiseErrorView::Snow { text: "input error"@ })
                } else if reply.len() < 48 || reply.len() > 48 + config.handshake_scratch_bytes
                    || boundary::reply_payload(state, reply) is None {
                    result == failed(NoiseErrorView::Snow { text: "decrypt error"@ })
                } else {
                    result is Ok
                },
            }
        }),
{
    law_response_round_trip(reply, rest);
}

/// A response that frames no reply fails a handshake that awaits one in the way
/// that reading the frame does.
pub proof fn law_malformed_responses_fail(
    state: snow::HandshakeState,
    config: NoiseConfig,
    response: Seq<u8>,
)
    requires
        response_message(response) is Err,
    ensures
        completion(Phase::AwaitingResponse { state }, config, response) == Err::<
            Session,
            NoiseErrorView,
        >(response_message(response)->Err_0),
{
}

/// What an error of the Noise layer says holds everything that the error holds.
pub proof fn law_noise_error_sentences(error: NoiseError)
    ensures
        match error {
            NoiseError::HandshakeFailed { message } => error@.sentence()
                == "noise handshake failed: "@ + message@,
            NoiseError::DecryptionFailed { message } => error@.sentence()
                == "decryption failed: "@ + message@,
            NoiseError::InvalidState { message } => error@.sentence() == "invalid state: "@
                + message@,
            NoiseError::Snow { source } => error@.sentence() == "snow error: "@
                + boundary::snow_error_text(source),
        },
{
}

} // verus!
