//! Everything that the crate takes on trust from outside crates and from the
//! standard library.
//!
//! Each function below makes one outside call, or one chain of calls on a
//! builder. Verus believes its contract; the doc comment says which outside
//! function stands behind it and what is claimed of it. Nothing else in the
//! crate is unproved.

use crate::encoding::{base64_len, base64_text};
use vstd::prelude::*;
use vstd::utf8::{decode_utf8, valid_utf8};

verus! {

// ---------------------------------------------------------------------------
// Curve25519 keys
// ---------------------------------------------------------------------------

/// The Curve25519 public key of a 32-byte private key, as
/// `x25519_dalek::PublicKey::from(&StaticSecret)` computes it.
pub uninterp spec fn x25519_public(private: Seq<u8>) -> Seq<u8>;

/// `x25519_dalek::StaticSecret::random_from_rng` with `rand::rngs::OsRng`.
///
/// The bytes come from the operating system's random number generator, so
/// nothing is claimed of them. The call panics where that generator fails.
#[verifier::external_body]
pub(crate) fn random_secret() -> (bytes: [u8; 32])
{
    x25519_dalek::StaticSecret::random_from_rng(rand::rngs::OsRng).to_bytes()
}

/// `x25519_dalek::PublicKey::from(&StaticSecret)`: the public key is a
/// function of the private key's bytes alone.
#[verifier::external_body]
pub(crate) fn x25519_public_key(private: &[u8; 32]) -> (public: [u8; 32])
    ensures
        public@ == x25519_public(private@),
{
    let secret = x25519_dalek::StaticSecret::from(*private);
    *x25519_dalek::PublicKey::from(&secret).as_bytes()
}

/// `zeroize::Zeroize::zeroize` on a byte array sets every byte to zero.
#[verifier::external_body]
pub(crate) fn wipe(bytes: &mut [u8; 32])
    ensures
        forall|i: int| 0 <= i < 32 ==> final(bytes)@[i] == 0,
    opens_invariants none
    no_unwind
{
    zeroize::Zeroize::zeroize(bytes)
}

// ---------------------------------------------------------------------------
// Base64
// ---------------------------------------------------------------------------

/// `base64::Engine::encode` of `general_purpose::STANDARD`: the standard,
/// padded base64 text of the bytes. Encoding panics where the text cannot be
/// allocated.
#[verifier::external_body]
pub(crate) fn base64_encode(bytes: &[u8]) -> (text: String)
    requires
        base64_len(bytes@.len() as int) <= isize::MAX,
    ensures
        text@ == base64_text(bytes@),
{
    base64::Engine::encode(&base64::engine::general_purpose::STANDARD, bytes)
}

// ---------------------------------------------------------------------------
// JSON
// ---------------------------------------------------------------------------

#[verifier::external_type_specification]
#[verifier::external_body]
pub struct ExJsonValue(serde_json::Value);

#[verifier::external_type_specification]
#[verifier::external_body]
pub struct ExJsonError(serde_json::Error);

/// The JSON document that `serde_json::from_slice` reads from some bytes, or
/// `None` where it refuses them.
pub uninterp spec fn json_document(bytes: Seq<u8>) -> Option<serde_json::Value>;

/// What `serde_json` says is wrong with bytes that it refuses.
pub uninterp spec fn json_fault(bytes: Seq<u8>) -> Seq<char>;

/// The text that `serde_json::Error` displays.
pub uninterp spec fn json_error_text(error: serde_json::Error) -> Seq<char>;

/// The members of a JSON object by name; `None` for any other JSON value.
pub uninterp spec fn json_members(value: serde_json::Value) -> Option<
    Map<Seq<char>, serde_json::Value>,
>;

/// The characters of a JSON string; `None` for any other JSON value.
pub uninterp spec fn json_string(value: serde_json::Value) -> Option<Seq<char>>;

/// `serde_json::from_slice` into a `serde_json::Value`: the document, or the
/// error, is a function of the bytes.
#[verifier::external_body]
pub(crate) fn json_from_slice(bytes: &[u8]) -> (r: Result<serde_json::Value, serde_json::Error>)
    ensures
        match r {
            Ok(value) => json_document(bytes@) == Some(value),
            Err(error) => json_document(bytes@) is None && json_error_text(error) == json_fault(
                bytes@,
            ),
        },
{
    serde_json::from_slice(bytes)
}

/// `to_string` of a `serde_json::Error`: the text that the error displays.
#[verifier::external_body]
pub(crate) fn json_error_string(error: &serde_json::Error) -> (text: String)
    ensures
        text@ == json_error_text(*error),
{
    error.to_string()
}

/// `serde_json::Value::get` with a string: the member of that name, and `None`
/// where the value is no object or has no such member.
#[verifier::external_body]
pub(crate) fn json_get<'a>(value: &'a serde_json::Value, name: &str) -> (r: Option<
    &'a serde_json::Value,
>)
    ensures
        match json_members(*value) {
            Some(members) => if members.contains_key(name@) {
                r == Some(&members[name@])
            } else {
                r is None
            },
            None => r is None,
        },
{
    value.get(name)
}

/// `serde_json::Value::as_str`: the characters of a JSON string, and `None`
/// for any other value.
#[verifier::external_body]
pub(crate) fn json_as_str(value: &serde_json::Value) -> (r: Option<&str>)
    ensures
        match r {
            Some(text) => json_string(*value) == Some(text@),
            None => json_string(*value) is None,
        },
{
    value.as_str()
}

// ---------------------------------------------------------------------------
// TLS server names
// ---------------------------------------------------------------------------

#[verifier::external_type_specification]
#[verifier::external_body]
pub struct ExServerName<'a>(rustls::pki_types::ServerName<'a>);

#[verifier::external_type_specification]
#[verifier::external_body]
pub struct ExInvalidDnsNameError(rustls::pki_types::InvalidDnsNameError);

/// The TLS server name that `rustls` makes of a host, or `None` where the host
/// is neither a DNS name nor an IP address to it.
pub uninterp spec fn server_name(host: Seq<char>) -> Option<rustls::pki_types::ServerName<'static>>;

/// `rustls::pki_types::ServerName::try_from` on an owned string: the name, or
/// the refusal, is a function of the host.
#[verifier::external_body]
pub(crate) fn server_name_from(host: String) -> (r: Result<
    rustls::pki_types::ServerName<'static>,
    rustls::pki_types::InvalidDnsNameError,
>)
    ensures
        match r {
            Ok(name) => server_name(host@) == Some(name),
            Err(_) => server_name(host@) is None,
        },
{
    rustls::pki_types::ServerName::try_from(host)
}

// ---------------------------------------------------------------------------
// Standard library
// ---------------------------------------------------------------------------

#[verifier::external_type_specification]
#[verifier::external_body]
pub struct ExIoError(std::io::Error);

#[verifier::external_type_specification]
#[verifier::external_body]
pub struct ExFormatter<'a>(core::fmt::Formatter<'a>);

#[verifier::external_type_specification]
#[verifier::external_body]
pub struct ExFormatError(core::fmt::Error);

/// `String::push` puts one character behind those that the string already
/// holds.
pub assume_specification[ String::push ](s: &mut String, ch: char)
    ensures
        final(s)@ == old(s)@.push(ch),
;

/// `core::str::from_utf8`: a string exactly where the bytes are valid UTF-8,
/// and then the one that they encode.
#[verifier::external_body]
pub(crate) fn utf8_text(bytes: &[u8]) -> (r: Option<&str>)
    ensures
        match r {
            Some(text) => valid_utf8(bytes@) && text@ == decode_utf8(bytes@),
            None => !valid_utf8(bytes@),
        },
{
    core::str::from_utf8(bytes).ok()
}

/// `to_string` of a `std::io::Error`. The text comes from the operating system
/// and its language settings, so nothing is claimed of it.
#[verifier::external_body]
pub(crate) fn io_error_string(error: &std::io::Error) -> (text: String)
{
    error.to_string()
}

/// The text that has been written to the buffer that a formatter contains.
pub uninterp spec fn written(f: core::fmt::Formatter<'_>) -> Seq<char>;

/// `core::fmt::Formatter::write_str`: where it succeeds, the text has been
/// written to the formatter's buffer as it is. Whether the buffer takes it is
/// its owner's affair.
#[verifier::external_body]
pub(crate) fn write_text(f: &mut core::fmt::Formatter<'_>, text: &str) -> (r: core::fmt::Result)
    ensures
        r is Ok ==> written(*final(f)) == written(*old(f)) + text@,
{
    f.write_str(text)
}

#[verifier::external_type_specification]
#[verifier::external_body]
pub struct ExDebugTuple<'a, 'b: 'a>(core::fmt::DebugTuple<'a, 'b>);

/// The format parameters that a formatter was made with, as they stand behind
/// the colon in a format string.
pub uninterp spec fn format_spec(f: core::fmt::Formatter<'_>) -> Seq<char>;

/// A `core::fmt::DebugTuple` at work.
#[verifier::ext_equal]
pub struct TupleBuilder {
    /// The format parameters of the formatter that it writes to.
    pub spec: Seq<char>,
    /// The name of the tuple struct.
    pub name: Seq<char>,
    /// The fields that it has been given, each a text.
    pub fields: Seq<Seq<char>>,
    /// What had been written to the formatter when it was created.
    pub before: Seq<char>,
    /// What will have been written to the formatter when it lets go of it.
    pub after: Seq<char>,
}

/// What a `core::fmt::DebugTuple` that `debug_tuple` made holds. Of others
/// nothing is claimed.
pub uninterp spec fn tuple_builder(tuple: core::fmt::DebugTuple<'_, '_>) -> TupleBuilder;

/// The text of a tuple struct, of which the name and the texts in its fields
/// are given, under the given format parameters.
pub uninterp spec fn tuple_text(
    spec: Seq<char>,
    name: Seq<char>,
    fields: Seq<Seq<char>>,
) -> Seq<char>;

/// `core::fmt::Formatter::debug_tuple`: a builder with the given name and no
/// fields yet, which holds on to the formatter.
#[verifier::external_body]
pub(crate) fn debug_tuple<'a, 'b>(
    f: &'a mut core::fmt::Formatter<'b>,
    name: &str,
) -> (tuple: core::fmt::DebugTuple<'a, 'b>)
    ensures
        tuple_builder(tuple) == (TupleBuilder {
            spec: format_spec(*old(f)),
            name: name@,
            fields: Seq::empty(),
            before: written(*old(f)),
            after: written(*final(f)),
        }),
{
    f.debug_tuple(name)
}

/// `core::fmt::DebugTuple::field` with a text: the builder has one field more.
#[verifier::external_body]
pub(crate) fn debug_field(tuple: &mut core::fmt::DebugTuple<'_, '_>, field: &str)
    ensures
        tuple_builder(*final(tuple)) == (TupleBuilder {
            fields: tuple_builder(*old(tuple)).fields.push(field@),
            ..tuple_builder(*old(tuple))
        }),
{
    tuple.field(&field);
}

/// `core::fmt::DebugTuple::finish`, after which the builder is gone: where it
/// succeeds, the text of the tuple struct has been written to the formatter,
/// and nothing else. That text is a function of the format parameters, the name
/// and the fields; how it is laid out is not stated. Whether the formatter's
/// buffer takes it is its owner's affair.
#[verifier::external_body]
pub(crate) fn debug_finish(mut tuple: core::fmt::DebugTuple<'_, '_>) -> (r: core::fmt::Result)
    ensures
        r is Ok ==> tuple_builder(tuple).after == tuple_builder(tuple).before + tuple_text(
            tuple_builder(tuple).spec,
            tuple_builder(tuple).name,
            tuple_builder(tuple).fields,
        ),
{
    tuple.finish()
}

// ---------------------------------------------------------------------------
// Noise errors
// ---------------------------------------------------------------------------

#[verifier::external_type_specification]
#[verifier::external_body]
pub struct ExSnowError(snow::Error);

/// The text that a `snow::Error` displays.
pub uninterp spec fn snow_error_text(error: snow::Error) -> Seq<char>;

/// `to_string` of a `snow::Error`: the text that the error displays.
#[verifier::external_body]
pub(crate) fn snow_error_string(error: &snow::Error) -> (text: String)
    ensures
        text@ == snow_error_text(*error),
{
    error.to_string()
}

// ---------------------------------------------------------------------------
// Noise handshake
// ---------------------------------------------------------------------------

#[verifier::external_type_specification]
#[verifier::external_body]
pub struct ExHandshakeState(snow::HandshakeState);

/// The initiator's side of a Noise handshake.
pub struct Initiator {
    /// The name of the Noise protocol.
    pub suite: Seq<char>,
    /// The local static private key.
    pub private: Seq<u8>,
    /// The remote static public key.
    pub remote: Seq<u8>,
    /// The prologue.
    pub prologue: Seq<u8>,
    /// The first handshake message, once it has been written.
    pub sent: Option<Seq<u8>>,
    /// The ciphers for sending and for receiving, once the handshake is
    /// finished.
    pub ciphers: Option<(Seq<u8>, Seq<u8>)>,
}

/// What a `snow::HandshakeState` that `handshake_initiator` made holds. Of
/// other states nothing is claimed.
pub uninterp spec fn initiator(state: snow::HandshakeState) -> Initiator;

/// The payload that an initiator, having written its message, finds in a
/// reply; `None` where the reply does not authenticate.
pub uninterp spec fn reply_payload(state: snow::HandshakeState, reply: Seq<u8>) -> Option<Seq<u8>>;

/// The ciphers, for sending and for receiving, that an initiator arrives at
/// with a reply that authenticates.
pub uninterp spec fn agreed_ciphers(state: snow::HandshakeState, reply: Seq<u8>) -> (
    Seq<u8>,
    Seq<u8>,
);

/// Whether `snow` responders answer in this way: one that is built for the
/// named protocol with this static private key and this prologue, on `snow`'s
/// own primitives, and reads `message` as the first message, can write `reply`
/// as the second, and is then left with these ciphers for sending and for
/// receiving.
pub uninterp spec fn answered(
    suite: Seq<char>,
    private: Seq<u8>,
    prologue: Seq<u8>,
    message: Seq<u8>,
    reply: Seq<u8>,
    sending: Seq<u8>,
    receiving: Seq<u8>,
) -> bool;

/// The Noise protocol that the control plane speaks, by its name.
pub open spec fn is_control_suite(name: Seq<char>) -> bool {
    name == "Noise_IK_25519_ChaChaPoly_BLAKE2s"@
}

/// The length of an encoded public key.
pub open spec fn key_len() -> int {
    32
}

/// The length of the authentication tag behind each ciphertext.
pub open spec fn tag_len() -> int {
    16
}

/// The length of the largest Noise message.
pub open spec fn max_message() -> int {
    65535
}

/// The length of the first IK message around a payload: an ephemeral public
/// key, the encrypted static public key, and the encrypted payload.
pub open spec fn initiation_len(payload: int) -> int {
    key_len() + (key_len() + tag_len()) + (payload + tag_len())
}

/// The length of the second IK message around a payload: an ephemeral public
/// key and the encrypted payload.
pub open spec fn reply_len(payload: int) -> int {
    key_len() + (payload + tag_len())
}

/// `snow::Builder`: a builder for the named protocol, given the local private
/// key, the remote public key and the prologue, and built as initiator.
///
/// For the control plane's protocol, which `snow` knows, none of these calls
/// fails. The state holds what it was built from and has written nothing.
#[verifier::external_body]
pub(crate) fn handshake_initiator(
    suite: &str,
    private: &[u8; 32],
    remote: &[u8; 32],
    prologue: &[u8],
) -> (r: Result<snow::HandshakeState, snow::Error>)
    requires
        is_control_suite(suite@),
    ensures
        match r {
            Ok(state) => initiator(state) == (Initiator {
                suite: suite@,
                private: private@,
                remote: remote@,
                prologue: prologue@,
                sent: None,
                ciphers: None,
            }),
            Err(_) => false,
        },
{
    snow::Builder::new(suite.parse()?)
        .local_private_key(private)?
        .remote_public_key(remote)?
        .prologue(prologue)?
        .build_initiator()
}

/// `snow::HandshakeState::write_message` of an initiator that has written
/// nothing yet.
///
/// The message holds a fresh random key, so its bytes are not a function of
/// the arguments; its length is, and the state remembers the message. The call
/// fails with an input error where the buffer is too short for the message or
/// the message too long for Noise, and otherwise only where the random number
/// generator does. It panics where the buffer takes the static key but not
/// that key's tag.
#[verifier::external_body]
pub(crate) fn handshake_write(
    state: &mut snow::HandshakeState,
    payload: &[u8],
    message: &mut Vec<u8>,
) -> (r: Result<usize, snow::Error>)
    requires
        is_control_suite(initiator(*old(state)).suite),
        initiator(*old(state)).sent is None,
        initiator(*old(state)).ciphers is None,
        !(2 * key_len() <= old(message)@.len() < 2 * key_len() + tag_len()),
    ensures
        final(message)@.len() == old(message)@.len(),
        match r {
            Ok(n) => {
                &&& n == initiation_len(payload@.len() as int)
                &&& n <= old(message)@.len()
                &&& n <= max_message()
                &&& initiator(*final(state)) == (Initiator {
                    sent: Some(final(message)@.take(n as int)),
                    ..initiator(*old(state))
                })
            },
            Err(error) => {
                let n = initiation_len(payload@.len() as int);
                ||| snow_error_text(error) == "input error"@ && (n > old(message)@.len() || n
                    > max_message())
                ||| snow_error_text(error) == "RNG error"@ && old(message)@.len() >= key_len()
            },
        },
{
    state.write_message(payload, message)
}

/// `snow::HandshakeState::read_message` of an initiator that has written its
/// message and has not read a reply yet.
///
/// Whether the reply is accepted, the payload in it and the ciphers agreed on
/// are functions of the state and the reply. A reply is refused as input where
/// it is too long for Noise or too short for a public key, and otherwise where
/// it does not authenticate or its payload does not fit the buffer.
///
/// What a responder writes, the initiator reads: a reply to the initiator's own
/// message, by a `snow` responder with the same protocol and prologue whose
/// public key is the one that the initiator was built for, is accepted, and
/// each side then sends with the cipher that the other receives with.
#[verifier::external_body]
pub(crate) fn handshake_read(
    state: &mut snow::HandshakeState,
    reply: &[u8],
    payload: &mut Vec<u8>,
) -> (r: Result<usize, snow::Error>)
    requires
        is_control_suite(initiator(*old(state)).suite),
        initiator(*old(state)).sent is Some,
        initiator(*old(state)).ciphers is None,
    ensures
        final(payload)@.len() == old(payload)@.len(),
        match r {
            Ok(n) => {
                &&& n <= old(payload)@.len()
                &&& reply@.len() == reply_len(n as int)
                &&& reply@.len() <= max_message()
                &&& reply_payload(*old(state), reply@) == Some(final(payload)@.take(n as int))
                &&& initiator(*final(state)).suite == initiator(*old(state)).suite
                &&& initiator(*final(state)).ciphers == Some(agreed_ciphers(*old(state), reply@))
            },
            Err(error) => if reply@.len() > max_message() || reply@.len() < key_len() {
                snow_error_text(error) == "input error"@
            } else {
                &&& snow_error_text(error) == "decrypt error"@
                &&& {
                    ||| reply@.len() < reply_len(0)
                    ||| reply@.len() > reply_len(old(payload)@.len() as int)
                    ||| reply_payload(*old(state), reply@) is None
                }
            },
        },
        forall|server: Seq<u8>, sending: Seq<u8>, receiving: Seq<u8>| #[trigger]
            answered(
                initiator(*old(state)).suite,
                server,
                initiator(*old(state)).prologue,
                initiator(*old(state)).sent.unwrap(),
                reply@,
                sending,
                receiving,
            ) && initiator(*old(state)).remote == x25519_public(server) && reply@.len()
                <= max_message() && reply@.len() <= reply_len(old(payload)@.len() as int) ==> {
                &&& r is Ok
                &&& agreed_ciphers(*old(state), reply@) == (receiving, sending)
            },
{
    state.read_message(reply, payload)
}

/// `snow::HandshakeState::into_transport_mode` of an initiator: a finished
/// handshake becomes a transport that sends and receives with the ciphers
/// agreed on, from nonce zero; an unfinished one is refused.
#[verifier::external_body]
pub(crate) fn handshake_finish(state: snow::HandshakeState) -> (r: Result<
    snow::TransportState,
    snow::Error,
>)
    requires
        is_control_suite(initiator(state).suite),
    ensures
        match initiator(state).ciphers {
            Some((sending, receiving)) => match r {
                Ok(transport) => {
                    &&& outbound(transport) == fresh_channel(sending)
                    &&& inbound(transport) == fresh_channel(receiving)
                },
                Err(_) => false,
            },
            None => match r {
                Ok(_) => false,
                Err(error) => snow_error_text(error) == "state error: HandshakeNotFinished"@,
            },
        },
{
    state.into_transport_mode()
}

// ---------------------------------------------------------------------------
// Noise transport
// ---------------------------------------------------------------------------

#[verifier::external_type_specification]
#[verifier::external_body]
pub struct ExTransportState(snow::TransportState);

/// One direction of a Noise transport.
pub struct Channel {
    /// Whether the direction is in use: one-way patterns use only one.
    pub open: bool,
    /// The cipher's algorithm and key, written as one byte string; `None` for
    /// a cipher that is not one of `snow`'s own.
    pub cipher: Option<Seq<u8>>,
    /// The nonce of the next message.
    pub nonce: u64,
}

/// The sending direction of a transport.
pub uninterp spec fn outbound(transport: snow::TransportState) -> Channel;

/// The receiving direction of a transport.
pub uninterp spec fn inbound(transport: snow::TransportState) -> Channel;

/// What a cipher, at a nonce, makes of a plaintext: the ciphertext with its
/// authentication tag.
pub uninterp spec fn sealed(cipher: Seq<u8>, nonce: u64, plaintext: Seq<u8>) -> Seq<u8>;

/// What a cipher, at a nonce, makes of a ciphertext: the plaintext, or `None`
/// where the tag does not authenticate it.
pub uninterp spec fn opened(cipher: Seq<u8>, nonce: u64, ciphertext: Seq<u8>) -> Option<Seq<u8>>;

/// A direction that has carried no message yet.
pub open spec fn fresh_channel(cipher: Seq<u8>) -> Channel {
    Channel { open: true, cipher: Some(cipher), nonce: 0 }
}

/// A direction after one message more.
pub open spec fn advanced(channel: Channel) -> Channel {
    Channel { nonce: (channel.nonce + 1) as u64, ..channel }
}

/// Why a direction refuses to send a plaintext of some length into a buffer of
/// some length, as the text of the error; `None` where it sends it.
pub open spec fn send_refusal(channel: Channel, plaintext: int, buffer: int) -> Option<Seq<char>> {
    if !channel.open {
        Some("state error: OneWay"@)
    } else if plaintext + tag_len() > max_message() || plaintext + tag_len() > buffer {
        Some("input error"@)
    } else if channel.nonce == u64::MAX {
        Some("state error: Exhausted"@)
    } else {
        None
    }
}

/// Why a direction refuses to try a ciphertext of some length with a buffer of
/// some length, as the text of the error; `None` where it tries to open it.
pub open spec fn receive_refusal(channel: Channel, ciphertext: int, buffer: int) -> Option<
    Seq<char>,
> {
    if ciphertext > max_message() {
        Some("input error"@)
    } else if !channel.open {
        Some("state error: OneWay"@)
    } else if ciphertext < tag_len() || buffer < ciphertext - tag_len() {
        Some("decrypt error"@)
    } else if channel.nonce == u64::MAX {
        Some("state error: Exhausted"@)
    } else {
        None
    }
}

/// `snow::TransportState::write_message`.
///
/// Where the sending direction does not refuse, the buffer starts with the
/// plaintext sealed by the direction's cipher at its nonce, the same cipher at
/// the same nonce opens that to the plaintext again, and the nonce goes up by
/// one. Of the bytes that a cipher from outside `snow` writes nothing is
/// claimed. The receiving direction is left alone.
#[verifier::external_body]
pub(crate) fn transport_write(
    transport: &mut snow::TransportState,
    plaintext: &[u8],
    message: &mut Vec<u8>,
) -> (r: Result<usize, snow::Error>)
    ensures
        final(message)@.len() == old(message)@.len(),
        inbound(*final(transport)) == inbound(*old(transport)),
        match send_refusal(
            outbound(*old(transport)),
            plaintext@.len() as int,
            old(message)@.len() as int,
        ) {
            Some(text) => {
                &&& outbound(*final(transport)) == outbound(*old(transport))
                &&& match r {
                    Ok(_) => false,
                    Err(error) => snow_error_text(error) == text,
                }
            },
            None => {
                &&& outbound(*final(transport)) == advanced(outbound(*old(transport)))
                &&& r is Ok
            },
        },
        match (r, outbound(*old(transport)).cipher) {
            (Ok(n), Some(cipher)) => {
                let nonce = outbound(*old(transport)).nonce;
                &&& n == plaintext@.len() + tag_len()
                &&& final(message)@.take(n as int) == sealed(cipher, nonce, plaintext@)
                &&& opened(cipher, nonce, final(message)@.take(n as int)) == Some(plaintext@)
            },
            _ => true,
        },
{
    transport.write_message(plaintext, message)
}

/// `snow::TransportState::read_message`.
///
/// Where the receiving direction does not refuse, the ciphertext is opened by
/// the direction's cipher at its nonce. If that succeeds the buffer starts with
/// the plaintext, which is shorter than the ciphertext by the tag, and the
/// nonce goes up by one; if not, the error is a decryption error and the nonce
/// stays. What a cipher from outside `snow` opens is not claimed. The sending
/// direction is left alone.
#[verifier::external_body]
pub(crate) fn transport_read(
    transport: &mut snow::TransportState,
    ciphertext: &[u8],
    plaintext: &mut Vec<u8>,
) -> (r: Result<usize, snow::Error>)
    ensures
        final(plaintext)@.len() == old(plaintext)@.len(),
        outbound(*final(transport)) == outbound(*old(transport)),
        match r {
            Ok(_) => inbound(*final(transport)) == advanced(inbound(*old(transport))),
            Err(_) => inbound(*final(transport)) == inbound(*old(transport)),
        },
        match receive_refusal(
            inbound(*old(transport)),
            ciphertext@.len() as int,
            old(plaintext)@.len() as int,
        ) {
            Some(text) => match r {
                Ok(_) => false,
                Err(error) => snow_error_text(error) == text,
            },
            None => match inbound(*old(transport)).cipher {
                Some(cipher) => match r {
                    Ok(n) => {
                        &&& n == ciphertext@.len() - tag_len()
                        &&& opened(cipher, inbound(*old(transport)).nonce, ciphertext@) == Some(
                            final(plaintext)@.take(n as int),
                        )
                    },
                    Err(error) => {
                        &&& opened(cipher, inbound(*old(transport)).nonce, ciphertext@) is None
                        &&& snow_error_text(error) == "decrypt error"@
                    },
                },
                None => true,
            },
        },
{
    transport.read_message(ciphertext, plaintext)
}

} // verus!
