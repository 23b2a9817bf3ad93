//! The control connection: the upgrade request and the encrypted messages.
//!
//! 1. The client sends `POST /ts2021` with
//!    `Upgrade: tailscale-control-protocol` and the Noise initiation, in
//!    base64, in `X-Tailscale-Handshake`.
//! 2. The server responds `101 Switching Protocols`.
//! 3. The client finishes the Noise handshake with the server's reply.
//! 4. From then on every message is an encrypted frame.

use crate::boundary;
use crate::encoding;
use crate::frame;
use crate::noise;
use crate::noise::{NoiseError, NoiseErrorView, NoiseHandshake, NoiseTransport, Phase, Session};
use crate::text;
use vstd::prelude::*;

verus! {

/// The HTTP path of the upgrade to the control protocol.
pub const UPGRADE_PATH: &'static str = "/ts2021";

/// The value of the HTTP `Upgrade` header.
pub const UPGRADE_HEADER_VALUE: &'static str = "tailscale-control-protocol";

// ---------------------------------------------------------------------------
// Errors
// ---------------------------------------------------------------------------

/// What can go wrong on a control connection.
#[derive(Debug)]
pub enum TransportError {
    /// The Noise layer reported an error.
    Noise {
        /// The error of the Noise layer.
        source: NoiseError,
    },
    /// The control URL cannot be used.
    InvalidUrl {
        /// The URL.
        url: String,
    },
}

/// A [`TransportError`] with its strings as character sequences.
#[verifier::ext_equal]
pub enum TransportErrorView {
    /// The Noise layer reported an error.
    Noise { source: NoiseErrorView },
    /// The control URL cannot be used.
    InvalidUrl { url: Seq<char> },
}

impl View for TransportError {
    type V = TransportErrorView;

    open spec fn view(&self) -> TransportErrorView {
        match *self {
            TransportError::Noise { source } => TransportErrorView::Noise { source: source@ },
            TransportError::InvalidUrl { url } => TransportErrorView::InvalidUrl { url: url@ },
        }
    }
}

impl TransportErrorView {
    /// The error as a sentence.
    pub open spec fn sentence(self) -> Seq<char> {
        match self {
            TransportErrorView::Noise { source } => "noise error: "@ + source.sentence(),
            TransportErrorView::InvalidUrl { url } => "invalid control URL: "@ + url,
        }
    }
}

impl TransportError {
    /// The error as a sentence.
    pub fn describe(&self) -> (s: String)
        ensures
            s@ == self@.sentence(),
    {
        match self {
            TransportError::Noise { source } => text::joined(
                "noise error: ",
                source.describe().as_str(),
            ),
            TransportError::InvalidUrl { url } => text::joined(
                "invalid control URL: ",
                url.as_str(),
            ),
        }
    }
}

impl core::fmt::Display for TransportError {
    fn fmt(&self, f: &mut core::fmt::Formatter<'_>) -> (r: core::fmt::Result)
        ensures
            r is Ok ==> boundary::written(*final(f)) == boundary::written(*old(f))
                + self@.sentence(),
    {
        let s: String = self.describe();
        boundary::write_text(f, s.as_str())
    }
}

impl From<NoiseError> for TransportError {
    fn from(source: NoiseError) -> (error: Self) {
        TransportError::Noise { source }
    }
}

impl vstd::std_specs::convert::FromSpecImpl<NoiseError> for TransportError {
    open spec fn obeys_from_spec() -> bool {
        true
    }

    open spec fn from_spec(source: NoiseError) -> TransportError {
        TransportError::Noise { source }
    }
}

/// An error of the Noise layer, in a result of the control connection.
pub open spec fn noise_failure<T>(r: Result<T, TransportError>) -> Option<NoiseErrorView> {
    match r {
        Err(TransportError::Noise { source }) => Some(source@),
        _ => None,
    }
}

// ---------------------------------------------------------------------------
// Upgrade request
// ---------------------------------------------------------------------------

/// A prepared HTTP upgrade request, for the caller to send.
#[derive(Debug)]
pub struct UpgradeRequest {
    /// The full URL to POST to.
    pub url: String,
    /// The HTTP headers of the request, by name and value.
    pub headers: Vec<(String, String)>,
}

/// An [`UpgradeRequest`] with its strings as character sequences.
#[verifier::ext_equal]
pub struct UpgradeRequestView {
    /// The full URL to POST to.
    pub url: Seq<char>,
    /// The HTTP headers of the request, by name and value.
    pub headers: Seq<(Seq<char>, Seq<char>)>,
}

impl View for UpgradeRequest {
    type V = UpgradeRequestView;

    open spec fn view(&self) -> UpgradeRequestView {
        UpgradeRequestView {
            url: self.url@,
            headers: self.headers@.map_values(|h: (String, String)| (h.0@, h.1@)),
        }
    }
}

/// The URL of the upgrade endpoint of a control server: slashes at the end of
/// the server's URL do not count.
pub open spec fn upgrade_url(control_url: Seq<char>) -> Seq<char> {
    text::trim_slashes(control_url) + UPGRADE_PATH@
}

/// The upgrade request that carries a framed initiation to a control server.
pub open spec fn upgrade_request(control_url: Seq<char>, initiation: Seq<u8>) -> UpgradeRequestView {
    UpgradeRequestView {
        url: upgrade_url(control_url),
        headers: seq![
            ("Upgrade"@, UPGRADE_HEADER_VALUE@),
            ("Connection"@, "Upgrade"@),
            ("X-Tailscale-Handshake"@, encoding::base64_text(initiation)),
        ],
    }
}

/// Whether `value` can stand for the bytes of an initiation in a header: it is
/// base64 text, of the length that goes with the bytes, and no other bytes
/// have the same text.
pub open spec fn carries(value: Seq<char>, initiation: Seq<u8>) -> bool {
    &&& value.len() == encoding::base64_len(initiation.len() as int)
    &&& forall|i: int| 0 <= i < value.len() ==> encoding::is_base64_char(#[trigger] value[i])
    &&& forall|other: Seq<u8>| #[trigger]
        encoding::base64_text(other) == value ==> other == initiation
}

/// Prepare the upgrade request for a framed initiation.
pub fn prepare_upgrade_request(control_url: &str, initiation: &[u8]) -> (request: UpgradeRequest)
    requires
        encoding::base64_len(initiation@.len() as int) <= isize::MAX,
    ensures
        request@ == upgrade_request(control_url@, initiation@),
        carries(request@.headers[2].1, initiation@),
{
    let value: String = boundary::base64_encode(initiation);
    proof {
        encoding::law_base64_shape(initiation@);
        assert forall|other: Seq<u8>| #[trigger]
            encoding::base64_text(other) == value@ implies other == initiation@ by {
            encoding::law_base64_is_faithful(other, initiation@);
        }
    }
    let chars: Vec<char> = text::chars_of(control_url);
    let n: usize = text::trimmed_len(&chars);
    let mut url: String = text::text_between(&chars, 0, n);
    assert(url@ =~= text::trim_slashes(control_url@));
    url.append(UPGRADE_PATH);
    let mut headers: Vec<(String, String)> = Vec::with_capacity(3);
    headers.push((text::owned("Upgrade"), text::owned(UPGRADE_HEADER_VALUE)));
    headers.push((text::owned("Connection"), text::owned("Upgrade")));
    headers.push((text::owned("X-Tailscale-Handshake"), value));
    let request = UpgradeRequest { url, headers };
    assert(request@.headers =~= upgrade_request(control_url@, initiation@).headers);
    request
}

// ---------------------------------------------------------------------------
// Control connection
// ---------------------------------------------------------------------------

/// An established control connection. It encrypts and decrypts messages; the
/// caller moves the bytes.
pub struct ControlConnection {
    noise: NoiseTransport,
}

impl View for ControlConnection {
    type V = Session;

    closed spec fn view(&self) -> Session {
        self.noise@
    }
}

/// How [`ControlConnection::build_upgrade_request`] comes out for a URL that
/// is not empty: the request carries the frame that the handshake sent, or the
/// handshake failed and its error is passed on.
pub open spec fn upgrade_prepared(
    before: Phase,
    scratch: int,
    control_url: Seq<char>,
    r: Result<UpgradeRequest, TransportError>,
    after: Phase,
) -> bool {
    match r {
        Ok(request) => exists|framed: Seq<u8>| #[trigger]
            noise::initiated(before, scratch, Ok(framed), after) && request@ == upgrade_request(
                control_url,
                framed,
            ) && carries(request@.headers[2].1, framed),
        Err(error) => match error@ {
            TransportErrorView::Noise { source } => noise::initiated(
                before,
                scratch,
                Err(source),
                after,
            ),
            TransportErrorView::InvalidUrl { .. } => false,
        },
    }
}

/// What an upgrade request is for: its last header is the base64 text of the
/// version, the type and the length of the message that the handshake remembers
/// as sent, and then of that message.
pub open spec fn initiation_carried(request: UpgradeRequest, after: Phase) -> bool {
    match after {
        Phase::AwaitingResponse { state } => match boundary::initiator(state).sent {
            Some(message) => {
                &&& message.len() == 96
                &&& request.headers@.len() == 3
                &&& request.headers@[2].0@ == "X-Tailscale-Handshake"@
                &&& request.headers@[2].1@ == encoding::base64_text(
                    seq![1u8, 0u8, 1u8, 0u8, 96u8] + message,
                )
            },
            None => false,
        },
        _ => false,
    }
}

proof fn lemma_initiation_carried(
    before: Phase,
    scratch: int,
    control_url: Seq<char>,
    framed: Seq<u8>,
    request: UpgradeRequest,
    after: Phase,
)
    requires
        noise::initiated(before, scratch, Ok(framed), after),
        request@ == upgrade_request(control_url, framed),
    ensures
        initiation_carried(request, after),
{
    noise::law_initiation_carries_the_message(
        before->private,
        before->remote,
        scratch,
        framed,
        after,
    );
    assert(framed =~= seq![1u8, 0u8, 1u8, 0u8, 96u8] + framed.skip(5)) by {
        assert(framed =~= framed.take(5) + framed.skip(5));
    }
    assert(request@.headers.len() == 3);
    assert(request@.headers[2] == (request.headers@[2].0@, request.headers@[2].1@));
}

impl ControlConnection {
    /// Wrap an established Noise session.
    pub fn from_transport(noise: NoiseTransport) -> (connection: Self)
        ensures
            connection@ == noise@,
    {
        ControlConnection { noise }
    }

    /// Build the upgrade request for a control server, with the initiation of
    /// the handshake in it.
    ///
    /// # Errors
    ///
    /// Returns [`TransportError::InvalidUrl`] if the URL is empty, in which
    /// case the handshake is left alone, or [`TransportError::Noise`] if the
    /// initiation fails.
    pub fn build_upgrade_request(handshake: &mut NoiseHandshake, control_url: &str) -> (r: Result<
        UpgradeRequest,
        TransportError,
    >)
        requires
            control_url@.len() > 0 && old(handshake).phase() is Ready
                ==> old(handshake).knobs().can_initiate(),
        ensures
            final(handshake).knobs() == old(handshake).knobs(),
            if control_url@.len() == 0 {
                &&& final(handshake).phase() == old(handshake).phase()
                &&& match r {
                    Ok(_) => false,
                    Err(error) => error@ == (TransportErrorView::InvalidUrl { url: control_url@ }),
                }
            } else {
                upgrade_prepared(
                    old(handshake).phase(),
                    old(handshake).knobs().handshake_scratch_bytes as int,
                    control_url@,
                    r,
                    final(handshake).phase(),
                )
            },
            r matches Ok(request) ==> initiation_carried(request, final(handshake).phase()),
    {
        if control_url.is_empty() {
            return Err(TransportError::InvalidUrl { url: text::owned(control_url) });
        }
        let framed: Vec<u8> = match handshake.initiation_message() {
            Ok(framed) => framed,
            Err(source) => {
                return Err(TransportError::from(source));
            },
        };
        let request = prepare_upgrade_request(control_url, framed.as_slice());
        proof {
            lemma_initiation_carried(
                old(handshake).phase(),
                old(handshake).knobs().handshake_scratch_bytes as int,
                control_url@,
                framed@,
                request,
                handshake.phase(),
            );
        }
        Ok(request)
    }

    /// Finish the handshake with the server's reply, given as the frame that
    /// followed the response headers.
    ///
    /// # Errors
    ///
    /// Returns [`TransportError::Noise`] if the handshake fails.
    pub fn complete_handshake(handshake: NoiseHandshake, response_body: &[u8]) -> (r: Result<
        Self,
        TransportError,
    >)
        ensures
            noise::pairs_with_answer(handshake.phase(), handshake.knobs(), response_body@),
            match noise::completion(handshake.phase(), handshake.knobs(), response_body@) {
                Ok(session) => match r {
                    Ok(connection) => connection@ == session,
                    Err(_) => false,
                },
                Err(error) => noise_failure(r) == Some(error),
            },
    {
        match handshake.process_response(response_body) {
            Ok(noise) => Ok(ControlConnection { noise }),
            Err(source) => Err(TransportError::from(source)),
        }
    }

    /// Encrypt a control message and frame it.
    ///
    /// # Errors
    ///
    /// Returns [`TransportError::Noise`] if encryption fails.
    pub fn send(&mut self, payload: &[u8]) -> (r: Result<Vec<u8>, TransportError>)
        ensures
            match r {
                Ok(framed) => {
                    &&& noise::encrypted(old(self)@, payload@, Ok(framed@), final(self)@)
                    &&& noise::sends(old(self)@, payload@, Ok(framed@))
                },
                Err(TransportError::Noise { source }) => noise::encrypted(
                    old(self)@,
                    payload@,
                    Err(source@),
                    final(self)@,
                ),
                Err(TransportError::InvalidUrl { .. }) => false,
            },
    {
        match self.noise.encrypt(payload) {
            Ok(framed) => Ok(framed),
            Err(source) => Err(TransportError::from(source)),
        }
    }

    /// Decrypt a control message, given as ciphertext without its frame
    /// header.
    ///
    /// # Errors
    ///
    /// Returns [`TransportError::Noise`] if decryption fails.
    pub fn receive(&mut self, data: &[u8]) -> (r: Result<Vec<u8>, TransportError>)
        ensures
            match r {
                Ok(plaintext) => {
                    &&& noise::decrypted(old(self)@, data@, Ok(plaintext@), final(self)@)
                    &&& noise::receives(old(self)@, data@, Ok(plaintext@))
                },
                Err(TransportError::Noise { source }) => noise::decrypted(
                    old(self)@,
                    data@,
                    Err(source@),
                    final(self)@,
                ),
                Err(TransportError::InvalidUrl { .. }) => false,
            },
    {
        match self.noise.decrypt(data) {
            Ok(plaintext) => Ok(plaintext),
            Err(source) => Err(TransportError::from(source)),
        }
    }
}

// ---------------------------------------------------------------------------
// Laws
// ---------------------------------------------------------------------------

/// A slash at the end of the control URL makes no difference to the upgrade
/// request.
pub proof fn law_trailing_slash_is_ignored(control_url: Seq<char>, initiation: Seq<u8>)
    ensures
        upgrade_request(control_url.push('/'), initiation) == upgrade_request(
            control_url,
            initiation,
        ),
{
    assert(control_url.push('/').drop_last() =~= control_url);
}

/// The upgrade URL ends in the upgrade path, with exactly one slash between
/// the two parts.
pub proof fn law_upgrade_url_shape(control_url: Seq<char>)
    ensures
        UPGRADE_PATH@.is_suffix_of(upgrade_url(control_url)),
        text::trim_slashes(control_url).is_prefix_of(upgrade_url(control_url)),
        text::trim_slashes(control_url).is_prefix_of(control_url),
        text::trim_slashes(control_url).len() > 0 ==> text::trim_slashes(control_url).last() != '/',
{
    let url = upgrade_url(control_url);
    assert(url.subrange((url.len() - UPGRADE_PATH@.len()) as int, url.len() as int)
        =~= UPGRADE_PATH@);
    text::lemma_trim_slashes(control_url);
}

/// An upgrade request carries the initiation: its handshake header is the base64
/// text of the whole frame (version, type, length and message) around the very
/// message that the handshake remembers as sent; it goes to the upgrade path of
/// the server, and asks for the control protocol.
pub proof fn law_upgrade_request_carries_initiation(
    before: Phase,
    scratch: int,
    server: Seq<char>,
    slashes: Seq<char>,
    request: UpgradeRequest,
    after: Phase,
)
    requires
        upgrade_prepared(before, scratch, server + slashes, Ok(request), after),
        server.len() > 0 ==> server.last() != '/',
        forall|i: int| 0 <= i < slashes.len() ==> slashes[i] == '/',
    ensures
        before is Ready,
        after is AwaitingResponse,
        boundary::initiator(after->state).sent is Some,
        ({
            let message = boundary::initiator(after->state).sent.unwrap();
            let headers = request.headers@;
            &&& message.len() == 96
            &&& request.url@ == server + "/ts2021"@
            &&& headers.len() == 3
            &&& headers[0].0@ == "Upgrade"@ && headers[0].1@ == "tailscale-control-protocol"@
            &&& headers[1].0@ == "Connection"@ && headers[1].1@ == "Upgrade"@
            &&& headers[2].0@ == "X-Tailscale-Handshake"@
            &&& headers[2].1@ == encoding::base64_text(
                seq![1u8, 0u8, 1u8, 0u8, 96u8] + message,
            )
            &&& headers[2].1@ == encoding::base64_text(frame::initiation_frame(message))
        }),
{
    let control_url = server + slashes;
    let framed = choose|framed: Seq<u8>| #[trigger]
        noise::initiated(before, scratch, Ok(framed), after) && request@ == upgrade_request(
            control_url,
            framed,
        ) && carries(request@.headers[2].1, framed);
    let message = framed.skip(5);
    noise::law_initiation_carries_the_message(
        before->private,
        before->remote,
        scratch,
        framed,
        after,
    );
    assert(framed =~= seq![1u8, 0u8, 1u8, 0u8, 96u8] + message) by {
        assert(framed =~= framed.take(5) + framed.skip(5));
    }
    text::lemma_trim_slashes(control_url);
    let trimmed = text::trim_slashes(control_url);
    assert(trimmed =~= server) by {
        if trimmed.len() < server.len() {
            assert(control_url[server.len() - 1] == '/');
        } else if trimmed.len() > server.len() {
            assert(trimmed.last() == control_url[trimmed.len() - 1]);
            assert(trimmed.last() == slashes[trimmed.len() - 1 - server.len()]);
        }
    }
    assert(request@.headers.len() == 3);
    assert(request@.headers[0] == (request.headers@[0].0@, request.headers@[0].1@));
    assert(request@.headers[1] == (request.headers@[1].0@, request.headers@[1].1@));
    assert(request@.headers[2] == (request.headers@[2].0@, request.headers@[2].1@));
}

/// An upgrade request fails exactly as the initiation in it does.
pub proof fn law_upgrade_request_failures(
    before: Phase,
    scratch: int,
    control_url: Seq<char>,
    error: TransportError,
    after: Phase,
)
    requires
        upgrade_prepared(before, scratch, control_url, Err(error), after),
    ensures
        error is Noise,
        noise::initiated(before, scratch, Err((error->source)@), after),
{
}

/// What an error of the control connection says holds everything that the error
/// holds.
pub proof fn law_transport_error_sentences(error: TransportError)
    ensures
        match error {
            TransportError::Noise { source } => error@.sentence() == "noise error: "@
                + source@.sentence(),
            TransportError::InvalidUrl { url } => error@.sentence() == "invalid control URL: "@
                + url@,
        },
{
}

} // verus!
