//! What goes over the wire, and what is made of what comes back.
//!
//! 1. `GET /key?v=71` yields `{"PublicKey":"mkey:..."}`, the server's public
//!    machine key.
//! 2. `POST /ts2021` asks for the upgrade and carries the Noise initiation.
//! 3. The server answers with HTTP 101, followed in the stream by the frame
//!    with its handshake message.
//! 4. From then on every message is an encrypted frame.
//!
//! The functions here build the requests and read the responses; moving the
//! bytes is left to the caller.

use crate::authority;
use crate::boundary;
use crate::config::Config;
use crate::frame;
use crate::frame::HEADER_LEN;
use crate::keys;
use crate::keys::{KeyError, KeyErrorView, MachinePrivate, MachinePublic};
use crate::noise;
use crate::noise::{NoiseError, NoiseErrorView};
use crate::text;
use crate::transport::{ControlConnection, TransportError, TransportErrorView};
use vstd::prelude::*;
use vstd::utf8::{decode_utf8, valid_utf8};

verus! {

/// The HTTP path of the upgrade to the control protocol.
pub const UPGRADE_PATH: &'static str = "/ts2021";

/// The HTTP path of the key endpoint, with the protocol version that this
/// client speaks.
pub const KEY_PATH: &'static str = "/key?v=71";

/// The value of the HTTP `Upgrade` header.
pub const UPGRADE_HEADER: &'static str = "tailscale-control-protocol";

/// The type of the frames that follow the handshake.
pub const FRAME_TYPE_TRANSPORT: u8 = 0x04;

// ---------------------------------------------------------------------------
// Errors
// ---------------------------------------------------------------------------

/// What can go wrong in the wire layer.
#[derive(Debug)]
#[non_exhaustive]
pub enum WireError {
    /// The server could not be reached.
    TcpConnect {
        /// The I/O error.
        source: std::io::Error,
    },
    /// The TLS handshake, or I/O on the TLS stream, failed.
    Tls {
        /// The I/O error.
        source: std::io::Error,
    },
    /// The control URL has no usable host.
    InvalidUrl {
        /// The URL.
        url: String,
    },
    /// The server did not answer with HTTP status 101.
    UnexpectedStatus {
        /// The first line of the response.
        status_line: String,
    },
    /// The response headers are malformed or too long.
    MalformedHeaders {
        /// Description of the problem.
        message: String,
    },
    /// The key endpoint's response is not what it should be.
    KeyParse {
        /// Description of the problem.
        message: String,
    },
    /// The key that the server returned is not a key.
    ServerKey {
        /// What is wrong with it.
        source: KeyError,
    },
    /// The Noise layer reported an error.
    Noise {
        /// The error of the Noise layer.
        source: NoiseError,
    },
    /// A message frame is malformed.
    Frame {
        /// Description of the problem.
        message: String,
    },
}

/// A [`WireError`] with its strings as character sequences.
#[verifier::ext_equal]
pub enum WireErrorView {
    /// The server could not be reached.
    TcpConnect { source: std::io::Error },
    /// The TLS handshake, or I/O on the TLS stream, failed.
    Tls { source: std::io::Error },
    /// The control URL has no usable host.
    InvalidUrl { url: Seq<char> },
    /// The server did not answer with HTTP status 101.
    UnexpectedStatus { status_line: Seq<char> },
    /// The response headers are malformed or too long.
    MalformedHeaders { message: Seq<char> },
    /// The key endpoint's response is not what it should be.
    KeyParse { message: Seq<char> },
    /// The key that the server returned is not a key.
    ServerKey { source: KeyErrorView },
    /// The Noise layer reported an error.
    Noise { source: NoiseErrorView },
    /// A message frame is malformed.
    Frame { message: Seq<char> },
}

impl View for WireError {
    type V = WireErrorView;

    open spec fn view(&self) -> WireErrorView {
        match *self {
            WireError::TcpConnect { source } => WireErrorView::TcpConnect { source },
            WireError::Tls { source } => WireErrorView::Tls { source },
            WireError::InvalidUrl { url } => WireErrorView::InvalidUrl { url: url@ },
            WireError::UnexpectedStatus { status_line } => WireErrorView::UnexpectedStatus {
                status_line: status_line@,
            },
            WireError::MalformedHeaders { message } => WireErrorView::MalformedHeaders {
                message: message@,
            },
            WireError::KeyParse { message } => WireErrorView::KeyParse { message: message@ },
            WireError::ServerKey { source } => WireErrorView::ServerKey { source: source@ },
            WireError::Noise { source } => WireErrorView::Noise { source: source@ },
            WireError::Frame { message } => WireErrorView::Frame { message: message@ },
        }
    }
}

impl WireErrorView {
    /// What the sentence that describes the error starts with.
    pub open spec fn opening(self) -> Seq<char> {
        match self {
            WireErrorView::TcpConnect { .. } => "TCP connect failed: "@,
            WireErrorView::Tls { .. } => "TLS error: "@,
            WireErrorView::InvalidUrl { .. } => "invalid control URL (no host): "@,
            WireErrorView::UnexpectedStatus { .. } => "expected HTTP 101, got: "@,
            WireErrorView::MalformedHeaders { .. } => "malformed HTTP headers: "@,
            WireErrorView::KeyParse { .. } => "key endpoint parse error: "@,
            WireErrorView::ServerKey { .. } => "server key invalid: "@,
            WireErrorView::Noise { .. } => "noise error: "@,
            WireErrorView::Frame { .. } => "frame error: "@,
        }
    }

    /// What the sentence that describes the error goes on with; `None` where
    /// that is the operating system's text.
    pub open spec fn detail(self) -> Option<Seq<char>> {
        match self {
            WireErrorView::TcpConnect { .. } => None,
            WireErrorView::Tls { .. } => None,
            WireErrorView::InvalidUrl { url } => Some(url),
            WireErrorView::UnexpectedStatus { status_line } => Some(status_line),
            WireErrorView::MalformedHeaders { message } => Some(message),
            WireErrorView::KeyParse { message } => Some(message),
            WireErrorView::ServerKey { source } => Some(source.sentence()),
            WireErrorView::Noise { source } => Some(source.sentence()),
            WireErrorView::Frame { message } => Some(message),
        }
    }

    /// The sentence that describes the error, given the operating system's
    /// text for it where there is one.
    pub open spec fn sentence(self, io_text: Seq<char>) -> Seq<char> {
        match self.detail() {
            Some(detail) => self.opening() + detail,
            None => self.opening() + io_text,
        }
    }

    /// Whether `s` is the sentence that describes the error, whatever the
    /// operating system says of it.
    pub open spec fn is_sentence(self, s: Seq<char>) -> bool {
        exists|io_text: Seq<char>| s == #[trigger] self.sentence(io_text)
    }
}

impl WireError {
    /// The error as a sentence, given the operating system's text for it,
    /// which only errors of I/O have.
    pub fn describe_with(&self, io_text: &str) -> (s: String)
        ensures
            s@ == self@.sentence(io_text@),
    {
        match self {
            WireError::TcpConnect { .. } => text::joined("TCP connect failed: ", io_text),
            WireError::Tls { .. } => text::joined("TLS error: ", io_text),
            WireError::InvalidUrl { url } => text::joined(
                "invalid control URL (no host): ",
                url.as_str(),
            ),
            WireError::UnexpectedStatus { status_line } => text::joined(
                "expected HTTP 101, got: ",
                status_line.as_str(),
            ),
            WireError::MalformedHeaders { message } => text::joined(
                "malformed HTTP headers: ",
                message.as_str(),
            ),
            WireError::KeyParse { message } => text::joined(
                "key endpoint parse error: ",
                message.as_str(),
            ),
            WireError::ServerKey { source } => text::joined(
                "server key invalid: ",
                source.describe().as_str(),
            ),
            WireError::Noise { source } => text::joined(
                "noise error: ",
                source.describe().as_str(),
            ),
            WireError::Frame { message } => text::joined("frame error: ", message.as_str()),
        }
    }

    /// The operating system's text for an error of I/O; nothing for any other
    /// error.
    pub fn io_text(&self) -> (s: String)
        ensures
            self@.detail() is Some ==> s@.len() == 0,
    {
        match self {
            WireError::TcpConnect { source } => boundary::io_error_string(source),
            WireError::Tls { source } => boundary::io_error_string(source),
            _ => String::new(),
        }
    }

    /// The error as a sentence.
    pub fn describe(&self) -> (s: String)
        ensures
            self@.is_sentence(s@),
    {
        let io_text: String = self.io_text();
        self.describe_with(io_text.as_str())
    }
}

impl core::fmt::Display for WireError {
    fn fmt(&self, f: &mut core::fmt::Formatter<'_>) -> (r: core::fmt::Result)
        ensures
            r is Ok ==> exists|s: Seq<char>|
                #![trigger self@.is_sentence(s)]
                self@.is_sentence(s) && boundary::written(*final(f)) == boundary::written(*old(f))
                    + s,
    {
        let s: String = self.describe();
        boundary::write_text(f, s.as_str())
    }
}

impl From<NoiseError> for WireError {
    fn from(source: NoiseError) -> (error: Self) {
        WireError::Noise { source }
    }
}

impl vstd::std_specs::convert::FromSpecImpl<NoiseError> for WireError {
    open spec fn obeys_from_spec() -> bool {
        true
    }

    open spec fn from_spec(source: NoiseError) -> WireError {
        WireError::Noise { source }
    }
}

/// An error of the control connection, as the wire layer reports it.
pub open spec fn as_wire_error(error: TransportErrorView) -> WireErrorView {
    match error {
        TransportErrorView::Noise { source } => WireErrorView::Noise { source },
        TransportErrorView::InvalidUrl { url } => WireErrorView::Noise {
            source: NoiseErrorView::InvalidState { message: url },
        },
    }
}

/// Report an error of the control connection as one of the wire layer.
pub fn wire_error(error: TransportError) -> (e: WireError)
    ensures
        e@ == as_wire_error(error@),
{
    let source: NoiseError = match error {
        TransportError::Noise { source } => source,
        TransportError::InvalidUrl { url } => NoiseError::InvalidState { message: url },
    };
    WireError::Noise { source }
}

// ---------------------------------------------------------------------------
// Configuration
// ---------------------------------------------------------------------------

/// What a connection to a control server is made with.
pub struct ControlConfig {
    /// The base URL of the control server.
    pub control_url: String,
    /// This machine's private key.
    pub machine_key: MachinePrivate,
    /// The tuning knobs.
    pub config: Config,
}

impl ControlConfig {
    /// A configuration with the default knobs.
    #[must_use]
    pub fn new(control_url: String, machine_key: MachinePrivate) -> (config: Self)
        ensures
            config.control_url == control_url,
            config.machine_key == machine_key,
            config.config.noise.max_frame_payload == crate::config::DEFAULT_MAX_FRAME_PAYLOAD,
            config.config.noise.handshake_scratch_bytes
                == crate::config::DEFAULT_HANDSHAKE_SCRATCH_BYTES,
            config.config.wire.max_header_bytes == crate::config::DEFAULT_MAX_HEADER_BYTES,
            config.config.wire.header_read_initial_capacity
                == crate::config::DEFAULT_HEADER_READ_INITIAL_CAPACITY,
            config.config.wire.response_read_chunk_bytes
                == crate::config::DEFAULT_RESPONSE_READ_CHUNK_BYTES,
            config.config.wire.key_response_limit == crate::config::DEFAULT_KEY_RESPONSE_MAX_BYTES,
    {
        ControlConfig { control_url, machine_key, config: Config::default() }
    }
}

// ---------------------------------------------------------------------------
// Where to connect
// ---------------------------------------------------------------------------

/// Extract the host and the port from a control URL. Only `https://` URLs are
/// accepted, since what goes to the control server must be protected.
///
/// # Errors
///
/// Returns [`WireError::InvalidUrl`] if the URL is not of that form.
pub fn parse_host_port(url: &str) -> (r: Result<(String, u16), WireError>)
    ensures
        match r {
            Ok((host, port)) => authority::host_port(url@) == Some((host@, port)),
            Err(error) => {
                &&& authority::host_port(url@) is None
                &&& error@ == (WireErrorView::InvalidUrl { url: url@ })
            },
        },
        r matches Ok((host, _)) ==> ("https://"@ + host@).is_prefix_of(url@),
{
    proof {
        authority::law_host_stands_in_url(url@);
    }
    match authority::parse_url(url) {
        Some((host, port)) => Ok((host, port)),
        None => Err(WireError::InvalidUrl { url: text::owned(url) }),
    }
}

/// The text of an address: the host, a colon and the port.
pub open spec fn address_text(host: Seq<char>, port: u16) -> Seq<char> {
    host + ":"@ + text::decimal(port as nat)
}

/// The address to connect to: the host, a colon and the port.
pub fn socket_address(host: &str, port: u16) -> (address: String)
    ensures
        address@ == host@ + ":"@ + text::decimal(port as nat),
        address@ == address_text(host@, port),
{
    let mut address: String = text::joined(host, ":");
    text::push_decimal(&mut address, port as usize);
    address
}

/// Take the TLS server name that `rustls` made of the host of a URL, or refuse
/// the URL.
///
/// # Errors
///
/// Returns [`WireError::InvalidUrl`] if `rustls` refused the host.
pub fn accept_server_name(
    name: Result<rustls::pki_types::ServerName<'static>, rustls::pki_types::InvalidDnsNameError>,
    url: &str,
) -> (r: Result<rustls::pki_types::ServerName<'static>, WireError>)
    ensures
        match name {
            Ok(n) => r == Ok::<rustls::pki_types::ServerName<'static>, WireError>(n),
            Err(_) => match r {
                Ok(_) => false,
                Err(error) => error@ == (WireErrorView::InvalidUrl { url: url@ }),
            },
        },
{
    match name {
        Ok(n) => Ok(n),
        Err(_) => Err(WireError::InvalidUrl { url: text::owned(url) }),
    }
}

/// The TLS server name for the host of a URL.
///
/// # Errors
///
/// Returns [`WireError::InvalidUrl`] if the host is no name that TLS can use.
pub fn tls_server_name(host: &str, url: &str) -> (r: Result<
    rustls::pki_types::ServerName<'static>,
    WireError,
>)
    ensures
        match r {
            Ok(name) => boundary::server_name(host@) == Some(name),
            Err(error) => {
                &&& boundary::server_name(host@) is None
                &&& error@ == (WireErrorView::InvalidUrl { url: url@ })
            },
        },
{
    accept_server_name(boundary::server_name_from(text::owned(host)), url)
}

// ---------------------------------------------------------------------------
// Requests
// ---------------------------------------------------------------------------

/// The line that some text starts with, up to a line feed.
pub open spec fn line_of(s: Seq<char>) -> Seq<char> {
    s.take(text::first_index(s, '\n'))
}

/// What follows the line that some text starts with.
pub open spec fn after_line(s: Seq<char>) -> Seq<char> {
    s.skip(text::first_index(s, '\n') + 1)
}

/// Whether the second line of a request names the host, all of it; a host with
/// a line feed in it names none.
pub open spec fn names_host(request: Seq<char>, host: Seq<char>) -> bool {
    (forall|i: int| 0 <= i < host.len() ==> host[i] != '\n') ==> line_of(after_line(request))
        == "Host: "@ + host + "\r"@
}

/// The text of the request to the key endpoint.
pub open spec fn key_request_text(host: Seq<char>) -> Seq<char> {
    "GET "@ + KEY_PATH@ + " HTTP/1.1\r\nHost: "@ + host + "\r\nConnection: close\r\n\r\n"@
}

/// Build the request to the key endpoint.
pub fn build_key_request(host: &str) -> (request: String)
    ensures
        request@ == key_request_text(host@),
        names_host(request@, host@),
{
    proof {
        if forall|i: int| 0 <= i < host@.len() ==> host@[i] != '\n' {
            law_key_request_reads_back(host@);
        }
    }
    let mut request: String = text::joined("GET ", KEY_PATH);
    request.append(" HTTP/1.1\r\nHost: ");
    request.append(host);
    request.append("\r\nConnection: close\r\n\r\n");
    request
}

/// The text of the upgrade request that carries an initiation in base64.
pub open spec fn upgrade_request_text(host: Seq<char>, initiation: Seq<char>) -> Seq<char> {
    "POST "@ + UPGRADE_PATH@ + " HTTP/1.1\r\nHost: "@ + host + "\r\nUpgrade: "@ + UPGRADE_HEADER@
        + "\r\nConnection: Upgrade\r\nX-Tailscale-Handshake: "@ + initiation
        + "\r\nContent-Length: 0\r\n\r\n"@
}

/// Build the upgrade request.
pub fn build_upgrade_request(host: &str, init_b64: &str) -> (request: String)
    ensures
        request@ == upgrade_request_text(host@, init_b64@),
        (forall|i: int| 0 <= i < init_b64@.len() ==> init_b64@[i] != '\n') ==> names_host(
            request@,
            host@,
        ),
{
    proof {
        if (forall|i: int| 0 <= i < host@.len() ==> host@[i] != '\n') && (forall|i: int|
            0 <= i < init_b64@.len() ==> init_b64@[i] != '\n') {
            law_upgrade_request_reads_back(host@, init_b64@);
        }
    }
    let mut request: String = text::joined("POST ", UPGRADE_PATH);
    request.append(" HTTP/1.1\r\nHost: ");
    request.append(host);
    request.append("\r\nUpgrade: ");
    request.append(UPGRADE_HEADER);
    request.append("\r\nConnection: Upgrade\r\nX-Tailscale-Handshake: ");
    request.append(init_b64);
    request.append("\r\nContent-Length: 0\r\n\r\n");
    request
}

// ---------------------------------------------------------------------------
// Response headers
// ---------------------------------------------------------------------------

/// What ends the headers of an HTTP message: two line ends in a row.
pub open spec fn terminator() -> Seq<u8> {
    seq![13u8, 10u8, 13u8, 10u8]
}

/// Whether the header terminator stands in `s` at position `i`.
pub open spec fn terminator_at(s: Seq<u8>, i: int) -> bool {
    0 <= i && i + 4 <= s.len() && s[i] == 13 && s[i + 1] == 10 && s[i + 2] == 13 && s[i + 3] == 10
}

/// Whether `s` ends with the header terminator.
pub open spec fn ends_headers(s: Seq<u8>) -> bool {
    terminator_at(s, s.len() - 4)
}

/// The position of the first header terminator in `s`, if there is one.
pub open spec fn first_terminator(s: Seq<u8>) -> Option<int>
    decreases s.len(),
{
    if s.len() < 4 {
        None
    } else if terminator_at(s, 0) {
        Some(0)
    } else {
        match first_terminator(s.drop_first()) {
            Some(i) => Some(i + 1),
            None => None,
        }
    }
}

/// `first_terminator` is the one position with the terminator at it and none
/// before it; it is `None` exactly where there is no terminator.
pub proof fn lemma_first_terminator(s: Seq<u8>)
    ensures
        match first_terminator(s) {
            Some(k) => {
                &&& terminator_at(s, k)
                &&& forall|i: int| 0 <= i < k ==> !#[trigger] terminator_at(s, i)
            },
            None => forall|i: int| !#[trigger] terminator_at(s, i),
        },
    decreases s.len(),
{
    if s.len() >= 4 && !terminator_at(s, 0) {
        let t = s.drop_first();
        lemma_first_terminator(t);
        assert forall|i: int| 0 < i implies #[trigger] terminator_at(s, i) == terminator_at(
            t,
            i - 1,
        ) by {}
        if first_terminator(t) is Some {
            let k = first_terminator(t).unwrap();
            assert(terminator_at(s, k + 1) == terminator_at(t, k));
        }
    }
}

/// Whether the header terminator stands in `s` at position `i`.
fn is_terminator_at(s: &[u8], i: usize) -> (b: bool)
    requires
        i + 4 <= s@.len(),
    ensures
        b == terminator_at(s@, i as int),
{
    s[i] == 13 && s[i + 1] == 10 && s[i + 2] == 13 && s[i + 3] == 10
}

/// Find the first header terminator.
pub fn find_terminator(s: &[u8]) -> (r: Option<usize>)
    ensures
        match r {
            Some(i) => first_terminator(s@) == Some(i as int),
            None => first_terminator(s@) is None,
        },
{
    proof {
        lemma_first_terminator(s@);
    }
    if s.len() < 4 {
        return None;
    }
    let last: usize = s.len() - 4;
    let mut i: usize = 0;
    while i < last
        invariant
            last + 4 == s@.len(),
            i <= last,
            forall|j: int| 0 <= j < i ==> !#[trigger] terminator_at(s@, j),
            match first_terminator(s@) {
                Some(k) => {
                    &&& terminator_at(s@, k)
                    &&& forall|j: int| 0 <= j < k ==> !#[trigger] terminator_at(s@, j)
                },
                None => forall|j: int| !#[trigger] terminator_at(s@, j),
            },
        decreases last - i,
    {
        if is_terminator_at(s, i) {
            return Some(i);
        }
        i = i + 1;
    }
    if is_terminator_at(s, last) {
        Some(last)
    } else {
        None
    }
}

/// What is said of headers that are longer than the limit.
pub open spec fn headers_too_long(limit: nat) -> WireErrorView {
    WireErrorView::MalformedHeaders {
        message: "headers exceeded "@ + text::decimal(limit) + " bytes"@,
    }
}

/// Take one byte of the response headers, and say whether it was the last one.
///
/// # Errors
///
/// Returns [`WireError::MalformedHeaders`] if the headers are now longer than
/// the limit.
pub fn accept_header_byte(buf: &mut Vec<u8>, byte: u8, max_header_bytes: usize) -> (r: Result<
    bool,
    WireError,
>)
    ensures
        final(buf)@ == old(buf)@.push(byte),
        match r {
            Ok(done) => {
                &&& final(buf)@.len() <= max_header_bytes
                &&& done == ends_headers(final(buf)@)
            },
            Err(error) => {
                &&& final(buf)@.len() > max_header_bytes
                &&& error@ == headers_too_long(max_header_bytes as nat)
            },
        },
{
    buf.push(byte);
    if buf.len() > max_header_bytes {
        let mut message: String = text::owned("headers exceeded ");
        text::push_decimal(&mut message, max_header_bytes);
        message.append(" bytes");
        return Err(WireError::MalformedHeaders { message });
    }
    if buf.len() < 4 {
        return Ok(false);
    }
    Ok(is_terminator_at(buf.as_slice(), buf.len() - 4))
}

/// The first line of some text: up to the first line feed, without a carriage
/// return right before it.
pub open spec fn first_line(s: Seq<char>) -> Seq<char> {
    let n = text::first_index(s, '\n');
    let line = s.take(n);
    if n < s.len() && line.len() > 0 && line.last() == '\r' {
        line.drop_last()
    } else {
        line
    }
}

/// Read the first line of some text.
pub fn read_first_line(s: &str) -> (line: String)
    ensures
        line@ == first_line(s@),
{
    let chars: Vec<char> = text::chars_of(s);
    let n: usize = text::find_first(&chars, '\n');
    proof {
        text::lemma_first_index(s@, '\n');
    }
    let ghost whole = s@.take(n as int);
    if n < chars.len() && n > 0 && chars[n - 1] == '\r' {
        assert(whole.last() == '\r');
        let line: String = text::text_between(&chars, 0, n - 1);
        assert(line@ =~= whole.drop_last());
        line
    } else {
        let line: String = text::text_between(&chars, 0, n);
        assert(line@ =~= whole);
        assert(whole.len() > 0 ==> whole.last() == chars@[n - 1]);
        line
    }
}

/// The first line of a response and what follows its headers; or what is wrong
/// with the headers.
pub open spec fn upgrade_response(buf: Seq<u8>) -> Result<(Seq<char>, Seq<u8>), WireErrorView> {
    match first_terminator(buf) {
        None => Err(
            WireErrorView::MalformedHeaders { message: "header terminator not found"@ },
        ),
        Some(end) => if !valid_utf8(buf.take(end)) {
            Err(WireErrorView::MalformedHeaders { message: "headers are not valid UTF-8"@ })
        } else {
            Ok((first_line(decode_utf8(buf.take(end))), buf.skip(end + 4)))
        },
    }
}

/// Split a response into its first line and what follows its headers.
///
/// # Errors
///
/// Returns [`WireError::MalformedHeaders`] if the headers do not end or are
/// not UTF-8.
pub fn parse_upgrade_response(buf: &[u8]) -> (r: Result<(String, Vec<u8>), WireError>)
    ensures
        match r {
            Ok((line, rest)) => upgrade_response(buf@) == Ok::<
                (Seq<char>, Seq<u8>),
                WireErrorView,
            >((line@, rest@)),
            Err(error) => upgrade_response(buf@) == Err::<(Seq<char>, Seq<u8>), WireErrorView>(
                error@,
            ),
        },
{
    let end: usize = match find_terminator(buf) {
        Some(end) => end,
        None => {
            return Err(
                WireError::MalformedHeaders { message: text::owned("header terminator not found") },
            );
        },
    };
    proof {
        lemma_first_terminator(buf@);
    }
    let headers: &[u8] = vstd::slice::slice_subrange(buf, 0, end);
    assert(headers@ =~= buf@.take(end as int));
    let total: usize = buf.len();
    let rest: &[u8] = vstd::slice::slice_subrange(buf, end + 4, total);
    assert(rest@ =~= buf@.skip(end + 4));
    match boundary::utf8_text(headers) {
        Some(s) => Ok((read_first_line(s), vstd::slice::slice_to_vec(rest))),
        None => Err(
            WireError::MalformedHeaders { message: text::owned("headers are not valid UTF-8") },
        ),
    }
}

/// Whether a character parts the words of a status line.
pub open spec fn is_blank(c: char) -> bool {
    c == ' ' || c == '\t' || c == '\u{b}' || c == '\u{c}' || c == '\r'
}

/// How many blanks `s` starts with.
pub open spec fn blank_len(s: Seq<char>) -> int
    decreases s.len(),
{
    if s.len() > 0 && is_blank(s[0]) {
        1 + blank_len(s.drop_first())
    } else {
        0
    }
}

/// How many characters that are no blanks `s` starts with.
pub open spec fn word_len(s: Seq<char>) -> int
    decreases s.len(),
{
    if s.len() > 0 && !is_blank(s[0]) {
        1 + word_len(s.drop_first())
    } else {
        0
    }
}

/// The status code in the first line of a response: the line's second word,
/// where blanks, one or more, part words. `None` where the line has no second
/// word.
pub open spec fn status_code(status_line: Seq<char>) -> Option<Seq<char>> {
    let words = status_line.skip(blank_len(status_line));
    let behind = words.skip(word_len(words));
    let rest = behind.skip(blank_len(behind));
    if rest.len() == 0 {
        None
    } else {
        Some(rest.take(word_len(rest)))
    }
}

/// Whether a first line reports the status that an upgrade needs.
pub open spec fn reports_switch(status_line: Seq<char>) -> bool {
    status_code(status_line) == Some("101"@)
}

/// Skip blanks, or the characters of a word, from a position on; return the
/// position behind them.
fn skip_run(s: &[char], from: usize, blanks: bool) -> (to: usize)
    requires
        from <= s@.len(),
    ensures
        from <= to <= s@.len(),
        to - from == if blanks {
            blank_len(s@.skip(from as int))
        } else {
            word_len(s@.skip(from as int))
        },
{
    let mut to: usize = from;
    let ghost total = if blanks {
        blank_len(s@.skip(from as int))
    } else {
        word_len(s@.skip(from as int))
    };
    while to < s.len()
        invariant
            from <= to <= s@.len(),
            total == to - from + if blanks {
                blank_len(s@.skip(to as int))
            } else {
                word_len(s@.skip(to as int))
            },
        ensures
            from <= to <= s@.len(),
            total == to - from,
        decreases s@.len() - to,
    {
        let c: char = s[to];
        let blank: bool = c == ' ' || c == '\t' || c == '\u{b}' || c == '\u{c}' || c == '\r';
        assert(s@.skip(to as int)[0] == c);
        assert(s@.skip(to as int).drop_first() =~= s@.skip(to + 1));
        if blank != blanks {
            break;
        }
        to = to + 1;
    }
    to
}

/// Read the status code in the first line of a response.
pub fn read_status_code(status_line: &str) -> (code: Option<String>)
    ensures
        match code {
            Some(c) => status_code(status_line@) == Some(c@),
            None => status_code(status_line@) is None,
        },
{
    let chars: Vec<char> = text::chars_of(status_line);
    let first: usize = skip_run(&chars, 0, true);
    assert(chars@.skip(0) =~= status_line@);
    let behind: usize = skip_run(&chars, first, false);
    assert(chars@.skip(behind as int) =~= chars@.skip(first as int).skip(behind - first));
    let start: usize = skip_run(&chars, behind, true);
    assert(chars@.skip(start as int) =~= chars@.skip(behind as int).skip(start - behind));
    if start == chars.len() {
        return None;
    }
    let end: usize = skip_run(&chars, start, false);
    let code: String = text::text_between(&chars, start, end);
    assert(code@ =~= chars@.skip(start as int).take(end - start));
    Some(code)
}

/// Accept the first line of a response to an upgrade request, or refuse it.
///
/// # Errors
///
/// Returns [`WireError::UnexpectedStatus`] if the line's status code is not
/// 101.
pub fn accept_status(status_line: String) -> (r: Result<(), WireError>)
    ensures
        match r {
            Ok(_) => reports_switch(status_line@),
            Err(error) => {
                &&& !reports_switch(status_line@)
                &&& error@ == (WireErrorView::UnexpectedStatus { status_line: status_line@ })
            },
        },
        r is Ok <==> status_code(status_line@) == Some(seq!['1', '0', '1']),
{
    proof {
        reveal_strlit("101");
        assert("101"@ =~= seq!['1', '0', '1']);
    }
    match read_status_code(status_line.as_str()) {
        Some(code) => {
            if code == text::owned("101") {
                return Ok(());
            }
        },
        None => {},
    }
    Err(WireError::UnexpectedStatus { status_line })
}

// ---------------------------------------------------------------------------
// Key endpoint
// ---------------------------------------------------------------------------

/// What has been received of a response after one more piece of it, where a
/// piece of nothing ends it; or an error where that is more than the limit.
pub open spec fn gathered(received: Seq<u8>, piece: Seq<u8>, limit: int) -> Result<
    Seq<u8>,
    WireErrorView,
> {
    if piece.len() > 0 && received.len() + piece.len() > limit {
        Err(WireErrorView::KeyParse { message: "response too large"@ })
    } else {
        Ok(received + piece)
    }
}

/// What has been received of a response after one read into a chunk, and whether
/// the response is complete, or the error.
pub open spec fn read_taken(received: Seq<u8>, chunk: Seq<u8>, n: int, limit: int) -> (
    Seq<u8>,
    Result<bool, WireErrorView>,
) {
    if n > chunk.len() {
        (
            received,
            Err(WireErrorView::KeyParse { message: "read returned more bytes than buffer"@ }),
        )
    } else {
        (
            received + chunk.take(n),
            match gathered(received, chunk.take(n), limit) {
                Ok(_) => Ok(n == 0),
                Err(error) => Err(error),
            },
        )
    }
}

/// Take what one read of the key endpoint's response put into `chunk`, and say
/// whether the response is complete: a read of nothing ends it.
///
/// # Errors
///
/// Returns [`WireError::KeyParse`] if the read claims more bytes than the
/// chunk holds, or if the response is now larger than the limit.
pub fn accept_response_read(buf: &mut Vec<u8>, chunk: &[u8], n: usize, max_body: usize) -> (r:
    Result<bool, WireError>)
    ensures
        final(buf)@ == if n <= chunk@.len() {
            old(buf)@ + chunk@.take(n as int)
        } else {
            old(buf)@
        },
        match r {
            Ok(done) => {
                &&& n <= chunk@.len()
                &&& done == (n == 0)
                &&& gathered(old(buf)@, chunk@.take(n as int), max_body as int) == Ok::<
                    Seq<u8>,
                    WireErrorView,
                >(final(buf)@)
            },
            Err(error) => if n > chunk@.len() {
                error@ == (WireErrorView::KeyParse {
                    message: "read returned more bytes than buffer"@,
                })
            } else {
                gathered(old(buf)@, chunk@.take(n as int), max_body as int) == Err::<
                    Seq<u8>,
                    WireErrorView,
                >(error@)
            },
        },
        final(buf)@ == read_taken(old(buf)@, chunk@, n as int, max_body as int).0,
        match r {
            Ok(done) => read_taken(old(buf)@, chunk@, n as int, max_body as int).1 == Ok::<
                bool,
                WireErrorView,
            >(done),
            Err(error) => read_taken(old(buf)@, chunk@, n as int, max_body as int).1 == Err::<
                bool,
                WireErrorView,
            >(error@),
        },
{
    if n == 0 {
        assert(old(buf)@ + chunk@.take(0) =~= old(buf)@);
        return Ok(true);
    }
    if n > chunk.len() {
        return Err(
            WireError::KeyParse { message: text::owned("read returned more bytes than buffer") },
        );
    }
    let part: &[u8] = vstd::slice::slice_subrange(chunk, 0, n);
    assert(part@ =~= chunk@.take(n as int));
    buf.extend_from_slice(part);
    assert(buf@ =~= old(buf)@ + chunk@.take(n as int));
    if buf.len() > max_body {
        return Err(WireError::KeyParse { message: text::owned("response too large") });
    }
    Ok(false)
}

/// The body of a response: what follows its headers, or all of it where it has
/// none.
pub open spec fn response_body(response: Seq<u8>) -> Seq<u8> {
    match first_terminator(response) {
        Some(end) => response.skip(end + 4),
        None => response,
    }
}

/// The text of the `PublicKey` member of a JSON document, if it has one.
pub open spec fn public_key_field(document: serde_json::Value) -> Option<Seq<char>> {
    match boundary::json_members(document) {
        Some(members) => if members.contains_key("PublicKey"@) {
            boundary::json_string(members["PublicKey"@])
        } else {
            None
        },
        None => None,
    }
}

/// The key that the text of the `PublicKey` member stands for.
pub open spec fn field_key(field: Option<Seq<char>>) -> Result<Seq<u8>, WireErrorView> {
    match field {
        None => Err(WireErrorView::KeyParse { message: "missing 'PublicKey' field"@ }),
        Some(s) => match keys::machine_public_value(s) {
            Ok(key) => Ok(key),
            Err(source) => Err(WireErrorView::ServerKey { source }),
        },
    }
}

/// The key in a response of the key endpoint.
pub open spec fn response_key(response: Seq<u8>) -> Result<Seq<u8>, WireErrorView> {
    let body = response_body(response);
    match boundary::json_document(body) {
        None => Err(WireErrorView::KeyParse { message: boundary::json_fault(body) }),
        Some(document) => field_key(public_key_field(document)),
    }
}

/// A result in which the key and the error stand by their views.
pub open spec fn key_outcome(r: Result<MachinePublic, WireError>) -> Result<Seq<u8>, WireErrorView> {
    match r {
        Ok(key) => Ok(key@),
        Err(error) => Err(error@),
    }
}

/// Take the body out of a response.
pub fn read_response_body(response: &[u8]) -> (body: &[u8])
    ensures
        body@ == response_body(response@),
{
    proof {
        lemma_first_terminator(response@);
    }
    let total: usize = response.len();
    match find_terminator(response) {
        Some(end) => {
            let body: &[u8] = vstd::slice::slice_subrange(response, end + 4, total);
            assert(body@ =~= response@.skip(end + 4));
            body
        },
        None => response,
    }
}

/// Read the server's key from the text of the `PublicKey` member, once the
/// document has been searched for it.
///
/// # Errors
///
/// Returns [`WireError::KeyParse`] if there is no such text, or
/// [`WireError::ServerKey`] if it is not a key.
pub fn server_key_from_field(field: Option<&str>) -> (r: Result<MachinePublic, WireError>)
    ensures
        key_outcome(r) == field_key(
            match field {
                Some(s) => Some(s@),
                None => None,
            },
        ),
{
    match field {
        None => Err(WireError::KeyParse { message: text::owned("missing 'PublicKey' field") }),
        Some(s) => match MachinePublic::from_hex(s) {
            Ok(key) => Ok(key),
            Err(source) => Err(WireError::ServerKey { source }),
        },
    }
}

/// Read the server's key from the raw bytes of the key endpoint's response.
///
/// # Errors
///
/// Returns [`WireError::KeyParse`] if the body is not JSON or has no
/// `PublicKey` string, or [`WireError::ServerKey`] if that is not a key.
pub fn parse_server_key_response(response: &[u8]) -> (r: Result<MachinePublic, WireError>)
    ensures
        key_outcome(r) == response_key(response@),
{
    let body: &[u8] = read_response_body(response);
    let document: serde_json::Value = match boundary::json_from_slice(body) {
        Ok(document) => document,
        Err(error) => {
            return Err(WireError::KeyParse { message: boundary::json_error_string(&error) });
        },
    };
    let field: Option<&str> = match boundary::json_get(&document, "PublicKey") {
        Some(value) => boundary::json_as_str(value),
        None => None,
    };
    server_key_from_field(field)
}

// ---------------------------------------------------------------------------
// Messages
// ---------------------------------------------------------------------------

/// The length of the ciphertext that follows the header of a transport frame;
/// or an error where the frame is of another type.
pub open spec fn transport_body_len(header: Seq<u8>) -> Result<int, WireErrorView> {
    if header[0] == FRAME_TYPE_TRANSPORT {
        Ok(frame::announced_len(header))
    } else {
        Err(
            WireErrorView::Frame {
                message: "unexpected frame type: 0x"@ + text::hex_pair(header[0]),
            },
        )
    }
}

/// Read the header of a transport frame: the length of the ciphertext that
/// follows it.
///
/// # Errors
///
/// Returns [`WireError::Frame`] if the frame is of another type.
pub fn read_transport_header(header: &[u8; 3]) -> (r: Result<usize, WireError>)
    ensures
        match r {
            Ok(n) => {
                &&& header@[0] == FRAME_TYPE_TRANSPORT
                &&& n == frame::announced_len(header@)
            },
            Err(error) => {
                &&& header@[0] != FRAME_TYPE_TRANSPORT
                &&& error@ == (WireErrorView::Frame {
                    message: "unexpected frame type: 0x"@ + text::hex_pair(header@[0]),
                })
            },
        },
        match r {
            Ok(n) => transport_body_len(header@) == Ok::<int, WireErrorView>(n as int),
            Err(error) => transport_body_len(header@) == Err::<int, WireErrorView>(error@),
        },
        r matches Ok(n) ==> n == 256 * header@[1] + header@[2],
{
    let kind: u8 = header[0];
    if kind != FRAME_TYPE_TRANSPORT {
        let mut message: String = text::owned("unexpected frame type: 0x");
        text::push_hex(&mut message, kind);
        return Err(WireError::Frame { message });
    }
    Ok(frame::read_announced_len(header[1], header[2]))
}

/// Encrypt a message into the frame that is to be written to the stream.
///
/// # Errors
///
/// Returns [`WireError::Noise`] if encryption fails.
pub fn seal_message(conn: &mut ControlConnection, payload: &[u8]) -> (r: Result<Vec<u8>, WireError>)
    ensures
        match r {
            Ok(framed) => {
                &&& noise::encrypted(old(conn)@, payload@, Ok(framed@), final(conn)@)
                &&& noise::sends(old(conn)@, payload@, Ok(framed@))
            },
            Err(error) => match error@ {
                WireErrorView::Noise { source } => noise::encrypted(
                    old(conn)@,
                    payload@,
                    Err(source),
                    final(conn)@,
                ),
                _ => false,
            },
        },
{
    match conn.send(payload) {
        Ok(framed) => Ok(framed),
        Err(error) => Err(wire_error(error)),
    }
}

/// Decrypt the ciphertext that followed a transport frame's header.
///
/// # Errors
///
/// Returns [`WireError::Noise`] if decryption fails.
pub fn open_message(conn: &mut ControlConnection, ciphertext: &[u8]) -> (r: Result<
    Vec<u8>,
    WireError,
>)
    ensures
        match r {
            Ok(plaintext) => {
                &&& noise::decrypted(old(conn)@, ciphertext@, Ok(plaintext@), final(conn)@)
                &&& noise::receives(old(conn)@, ciphertext@, Ok(plaintext@))
            },
            Err(error) => match error@ {
                WireErrorView::Noise { source } => noise::decrypted(
                    old(conn)@,
                    ciphertext@,
                    Err(source),
                    final(conn)@,
                ),
                _ => false,
            },
        },
{
    match conn.receive(ciphertext) {
        Ok(plaintext) => Ok(plaintext),
        Err(error) => Err(wire_error(error)),
    }
}

// ---------------------------------------------------------------------------
// Laws
// ---------------------------------------------------------------------------

/// A message that one party seals is read by the other party, in step with it,
/// as it was sent: the frame's header is one of a transport frame and announces
/// exactly the bytes that follow it, and these open to the message.
pub proof fn law_message_round_trip(
    sender: noise::Session,
    sender_after: noise::Session,
    receiver: noise::Session,
    receiver_after: noise::Session,
    payload: Seq<u8>,
    framed: Seq<u8>,
    result: Result<Seq<u8>, NoiseErrorView>,
)
    requires
        noise::in_step(sender, receiver),
        noise::encrypted(sender, payload, Ok(framed), sender_after),
        noise::decrypted(receiver, framed.skip(HEADER_LEN as int), result, receiver_after),
    ensures
        framed[0] == FRAME_TYPE_TRANSPORT,
        framed.len() == HEADER_LEN + frame::announced_len(framed),
        result == Ok::<Seq<u8>, NoiseErrorView>(payload),
        noise::in_step(sender_after, receiver_after),
{
    let cipher = sender.sending.cipher.unwrap();
    let ciphertext = boundary::sealed(cipher, sender.sending.nonce, payload);
    frame::law_frame_round_trip(FRAME_TYPE_TRANSPORT, ciphertext);
    noise::law_transport_round_trip(
        sender,
        sender_after,
        receiver,
        receiver_after,
        payload,
        framed,
        result,
    );
}

/// All pieces of a response, one behind the other.
pub open spec fn all_pieces(pieces: Seq<Seq<u8>>) -> Seq<u8>
    decreases pieces.len(),
{
    if pieces.len() == 0 {
        Seq::empty()
    } else {
        all_pieces(pieces.drop_last()) + pieces.last()
    }
}

/// What has been received of a response after a number of pieces; or the error
/// that ended it.
pub open spec fn gathered_all(pieces: Seq<Seq<u8>>, limit: int) -> Result<Seq<u8>, WireErrorView>
    decreases pieces.len(),
{
    if pieces.len() == 0 {
        Ok(Seq::empty())
    } else {
        match gathered_all(pieces.drop_last(), limit) {
            Ok(received) => gathered(received, pieces.last(), limit),
            Err(error) => Err(error),
        }
    }
}

/// A response that comes in pieces is put together whole where it is within
/// the limit, and is refused where it is not, however it is cut.
pub proof fn law_response_is_gathered(pieces: Seq<Seq<u8>>, limit: int)
    requires
        0 <= limit,
    ensures
        gathered_all(pieces, limit) == if all_pieces(pieces).len() <= limit {
            Ok::<Seq<u8>, WireErrorView>(all_pieces(pieces))
        } else {
            Err::<Seq<u8>, WireErrorView>(
                WireErrorView::KeyParse { message: "response too large"@ },
            )
        },
    decreases pieces.len(),
{
    if pieces.len() > 0 {
        law_response_is_gathered(pieces.drop_last(), limit);
    }
}

/// The body of a response is what follows the first header terminator.
pub proof fn law_response_body_is_found(headers: Seq<u8>, body: Seq<u8>)
    requires
        forall|i: int|
            0 <= i < headers.len() ==> !#[trigger] terminator_at(headers + terminator() + body, i),
    ensures
        response_body(headers + terminator() + body) == body,
{
    let response = headers + terminator() + body;
    let h = headers.len() as int;
    lemma_first_terminator(response);
    assert(terminator_at(response, h));
    assert(response.skip(h + 4) =~= body);
}

/// A key that a server publishes as text in its `PublicKey` member is the key
/// that is read from its response.
pub proof fn law_published_key_is_read(
    headers: Seq<u8>,
    body: Seq<u8>,
    document: serde_json::Value,
    key: Seq<u8>,
)
    requires
        forall|i: int|
            0 <= i < headers.len() ==> !#[trigger] terminator_at(headers + terminator() + body, i),
        boundary::json_document(body) == Some(document),
        public_key_field(document) == Some(keys::machine_public_text(key)),
        key.len() == keys::KEY_LEN,
    ensures
        response_key(headers + terminator() + body) == Ok::<Seq<u8>, WireErrorView>(key),
{
    law_response_body_is_found(headers, body);
    keys::law_machine_public_round_trip(key);
}

/// Text that is put together of a line, a line feed and a rest comes apart in
/// the same way.
proof fn lemma_line(line: Seq<char>, rest: Seq<char>)
    requires
        forall|i: int| 0 <= i < line.len() ==> line[i] != '\n',
    ensures
        line_of(line.push('\n') + rest) == line,
        after_line(line.push('\n') + rest) == rest,
{
    let s = line.push('\n') + rest;
    text::lemma_first_index_of_join(line, '\n', rest);
    assert(s.take(line.len() as int) =~= line);
    assert(s.skip(line.len() as int + 1) =~= rest);
}

/// The request to the key endpoint reads back, line by line: it asks for the key
/// path, names the whole host, closes the connection, and ends with an empty
/// line.
pub proof fn law_key_request_reads_back(host: Seq<char>)
    requires
        forall|i: int| 0 <= i < host.len() ==> host[i] != '\n',
    ensures
        ({
            let first = key_request_text(host);
            let second = after_line(first);
            let third = after_line(second);
            let fourth = after_line(third);
            &&& line_of(first) == "GET /key?v=71 HTTP/1.1\r"@
            &&& line_of(second) == "Host: "@ + host + "\r"@
            &&& line_of(third) == "Connection: close\r"@
            &&& line_of(fourth) == "\r"@
            &&& after_line(fourth) == Seq::<char>::empty()
        }),
{
    reveal_strlit("GET ");
    reveal_strlit("/key?v=71");
    reveal_strlit(" HTTP/1.1\r\nHost: ");
    reveal_strlit("\r\nConnection: close\r\n\r\n");
    reveal_strlit("GET /key?v=71 HTTP/1.1\r");
    reveal_strlit("Host: ");
    reveal_strlit("\r");
    reveal_strlit("Connection: close\r");
    let one = "GET /key?v=71 HTTP/1.1\r"@;
    let two = "Host: "@ + host + "\r"@;
    let three = "Connection: close\r"@;
    let four = "\r"@;
    let rest4 = four.push('\n') + Seq::<char>::empty();
    let rest3 = three.push('\n') + rest4;
    let rest2 = two.push('\n') + rest3;
    assert("\r\nConnection: close\r\n\r\n"@ =~= seq!['\r', '\n'] + rest3);
    assert("GET "@ + "/key?v=71"@ + " HTTP/1.1\r\nHost: "@ =~= one.push('\n') + "Host: "@);
    assert(key_request_text(host) =~= one.push('\n') + rest2);
    assert forall|i: int| 0 <= i < two.len() implies two[i] != '\n' by {
        if 6 <= i < 6 + host.len() {
            assert(two[i] == host[i - 6]);
        }
    }
    lemma_line(one, rest2);
    lemma_line(two, rest3);
    lemma_line(three, rest4);
    lemma_line(four, Seq::<char>::empty());
}

/// Two hosts never get the same request to the key endpoint.
pub proof fn law_key_requests_differ(a: Seq<char>, b: Seq<char>)
    requires
        key_request_text(a) == key_request_text(b),
    ensures
        a == b,
{
    let front = "GET "@ + KEY_PATH@ + " HTTP/1.1\r\nHost: "@;
    let n = front.len() as int;
    assert(key_request_text(a).len() == n + a.len() + "\r\nConnection: close\r\n\r\n"@.len());
    assert(key_request_text(b).len() == n + b.len() + "\r\nConnection: close\r\n\r\n"@.len());
    assert(key_request_text(a).subrange(n, n + a.len()) =~= a);
    assert(key_request_text(b).subrange(n, n + b.len()) =~= b);
}

/// The upgrade request reads back, line by line: it posts to the upgrade path,
/// names the whole host, asks for the control protocol, carries the whole
/// initiation, and ends with an empty line and no body.
pub proof fn law_upgrade_request_reads_back(host: Seq<char>, initiation: Seq<char>)
    requires
        forall|i: int| 0 <= i < host.len() ==> host[i] != '\n',
        forall|i: int| 0 <= i < initiation.len() ==> initiation[i] != '\n',
    ensures
        ({
            let first = upgrade_request_text(host, initiation);
            let second = after_line(first);
            let third = after_line(second);
            let fourth = after_line(third);
            let fifth = after_line(fourth);
            let sixth = after_line(fifth);
            let seventh = after_line(sixth);
            &&& line_of(first) == "POST /ts2021 HTTP/1.1\r"@
            &&& line_of(second) == "Host: "@ + host + "\r"@
            &&& line_of(third) == "Upgrade: tailscale-control-protocol\r"@
            &&& line_of(fourth) == "Connection: Upgrade\r"@
            &&& line_of(fifth) == "X-Tailscale-Handshake: "@ + initiation + "\r"@
            &&& line_of(sixth) == "Content-Length: 0\r"@
            &&& line_of(seventh) == "\r"@
            &&& after_line(seventh) == Seq::<char>::empty()
        }),
{
    reveal_strlit("POST ");
    reveal_strlit("/ts2021");
    reveal_strlit(" HTTP/1.1\r\nHost: ");
    reveal_strlit("\r\nUpgrade: ");
    reveal_strlit("tailscale-control-protocol");
    reveal_strlit("\r\nConnection: Upgrade\r\nX-Tailscale-Handshake: ");
    reveal_strlit("\r\nContent-Length: 0\r\n\r\n");
    reveal_strlit("POST /ts2021 HTTP/1.1\r");
    reveal_strlit("Host: ");
    reveal_strlit("\r");
    reveal_strlit("Upgrade: tailscale-control-protocol\r");
    reveal_strlit("Connection: Upgrade\r");
    reveal_strlit("X-Tailscale-Handshake: ");
    reveal_strlit("Content-Length: 0\r");
    let one = "POST /ts2021 HTTP/1.1\r"@;
    let two = "Host: "@ + host + "\r"@;
    let three = "Upgrade: tailscale-control-protocol\r"@;
    let four = "Connection: Upgrade\r"@;
    let five = "X-Tailscale-Handshake: "@ + initiation + "\r"@;
    let six = "Content-Length: 0\r"@;
    let seven = "\r"@;
    let rest7 = seven.push('\n') + Seq::<char>::empty();
    let rest6 = six.push('\n') + rest7;
    let rest5 = five.push('\n') + rest6;
    let rest4 = four.push('\n') + rest5;
    let rest3 = three.push('\n') + rest4;
    let rest2 = two.push('\n') + rest3;
    let end = seq!['\r', '\n'];
    assert("\r\nContent-Length: 0\r\n\r\n"@ =~= end + rest6);
    assert("\r\nConnection: Upgrade\r\nX-Tailscale-Handshake: "@ =~= end + four.push('\n')
        + "X-Tailscale-Handshake: "@);
    assert("\r\nUpgrade: "@ + "tailscale-control-protocol"@ + end =~= end + three.push('\n'));
    assert("POST "@ + "/ts2021"@ + " HTTP/1.1\r\nHost: "@ =~= one.push('\n') + "Host: "@);
    let from_four = "\r\nConnection: Upgrade\r\nX-Tailscale-Handshake: "@ + initiation
        + "\r\nContent-Length: 0\r\n\r\n"@;
    assert(from_four =~= end + rest4);
    let from_three = "\r\nUpgrade: "@ + "tailscale-control-protocol"@ + from_four;
    assert(from_three =~= ("\r\nUpgrade: "@ + "tailscale-control-protocol"@ + end) + rest4);
    assert(from_three =~= end + rest3);
    assert(upgrade_request_text(host, initiation) =~= ("POST "@ + "/ts2021"@
        + " HTTP/1.1\r\nHost: "@) + host + from_three);
    assert(upgrade_request_text(host, initiation) =~= one.push('\n') + rest2);
    assert forall|i: int| 0 <= i < two.len() implies two[i] != '\n' by {
        if 6 <= i < 6 + host.len() {
            assert(two[i] == host[i - 6]);
        }
    }
    assert forall|i: int| 0 <= i < five.len() implies five[i] != '\n' by {
        if 23 <= i < 23 + initiation.len() {
            assert(five[i] == initiation[i - 23]);
        }
    }
    lemma_line(one, rest2);
    lemma_line(two, rest3);
    lemma_line(three, rest4);
    lemma_line(four, rest5);
    lemma_line(five, rest6);
    lemma_line(six, rest7);
    lemma_line(seven, Seq::<char>::empty());
}

/// An address reads back: what stands before its last colon is the host, and
/// what stands behind it are the digits of the port.
pub proof fn law_address_reads_back(host: Seq<char>, port: u16)
    ensures
        ({
            let address = address_text(host, port);
            let colon = text::last_index(address, ':');
            &&& colon == host.len()
            &&& address.take(colon) == host
            &&& address.skip(colon + 1).len() > 0
            &&& forall|i: int|
                colon < i < address.len() ==> '0' <= #[trigger] address[i] <= '9'
            &&& text::decimal_value(address.skip(colon + 1)) == port
        }),
{
    reveal_strlit(":");
    let digits = text::decimal(port as nat);
    let address = address_text(host, port);
    text::lemma_decimal_round_trip(port as nat);
    text::lemma_last_index(address, ':');
    let h = host.len() as int;
    assert(address[h] == ':');
    assert forall|i: int| h < i < address.len() implies '0' <= #[trigger] address[i] <= '9' by {
        assert(address[i] == digits[i - h - 1]);
        assert(text::is_decimal(digits[i - h - 1]));
    }
    assert(text::last_index(address, ':') == h);
    assert(address.take(h) =~= host);
    assert(address.skip(h + 1) =~= digits);
}

/// The first line of some text is what stands before its first line end, and all
/// of it where there is none.
pub proof fn law_first_line_reading(line: Seq<char>, rest: Seq<char>)
    requires
        forall|i: int| 0 <= i < line.len() ==> line[i] != '\n',
    ensures
        first_line(line + seq!['\r', '\n'] + rest) == line,
        line.len() == 0 || line.last() != '\r' ==> first_line(line + seq!['\n'] + rest) == line,
        first_line(line) == line,
{
    let with_return = line.push('\r');
    assert(line + seq!['\r', '\n'] + rest =~= with_return.push('\n') + rest);
    text::lemma_first_index_of_join(with_return, '\n', rest);
    let a = with_return.push('\n') + rest;
    assert(a.take(with_return.len() as int) =~= with_return);
    assert(with_return.drop_last() =~= line);
    assert(line + seq!['\n'] + rest =~= line.push('\n') + rest);
    text::lemma_first_index_of_join(line, '\n', rest);
    assert((line.push('\n') + rest).take(line.len() as int) =~= line);
    text::lemma_first_index(line, '\n');
    assert(line.take(line.len() as int) =~= line);
}

proof fn lemma_word(word: Seq<char>, rest: Seq<char>)
    requires
        forall|i: int| 0 <= i < word.len() ==> !is_blank(#[trigger] word[i]),
        rest.len() > 0 ==> is_blank(rest[0]),
    ensures
        word_len(word + rest) == word.len(),
    decreases word.len(),
{
    if word.len() > 0 {
        assert((word + rest).drop_first() =~= word.drop_first() + rest);
        assert forall|i: int| 0 <= i < word.drop_first().len() implies !is_blank(
            #[trigger] word.drop_first()[i],
        ) by {
            assert(word.drop_first()[i] == word[i + 1]);
        }
        assert((word + rest)[0] == word[0]);
        lemma_word(word.drop_first(), rest);
    } else {
        assert(word + rest =~= rest);
    }
}

proof fn lemma_blanks(blanks: Seq<char>, rest: Seq<char>)
    requires
        forall|i: int| 0 <= i < blanks.len() ==> is_blank(#[trigger] blanks[i]),
        rest.len() > 0 ==> !is_blank(rest[0]),
    ensures
        blank_len(blanks + rest) == blanks.len(),
    decreases blanks.len(),
{
    if blanks.len() > 0 {
        assert((blanks + rest).drop_first() =~= blanks.drop_first() + rest);
        assert forall|i: int| 0 <= i < blanks.drop_first().len() implies is_blank(
            #[trigger] blanks.drop_first()[i],
        ) by {
            assert(blanks.drop_first()[i] == blanks[i + 1]);
        }
        assert((blanks + rest)[0] == blanks[0]);
        lemma_blanks(blanks.drop_first(), rest);
    } else {
        assert(blanks + rest =~= rest);
    }
}

proof fn lemma_status_code(
    version: Seq<char>,
    blanks: Seq<char>,
    code: Seq<char>,
    rest: Seq<char>,
)
    requires
        version.len() > 0,
        code.len() > 0,
        blanks.len() > 0,
        forall|i: int| 0 <= i < version.len() ==> !is_blank(#[trigger] version[i]),
        forall|i: int| 0 <= i < code.len() ==> !is_blank(#[trigger] code[i]),
        forall|i: int| 0 <= i < blanks.len() ==> is_blank(#[trigger] blanks[i]),
        rest.len() > 0 ==> is_blank(rest[0]),
    ensures
        status_code(version + blanks + code + rest) == Some(code),
{
    let line = version + blanks + code + rest;
    let tail = code + rest;
    let behind = blanks + tail;
    assert(line =~= version + behind);
    assert(line[0] == version[0]);
    assert(blank_len(line) == 0);
    assert(line.skip(0) =~= line);
    assert(word_len(line) == version.len()) by {
        assert(behind[0] == blanks[0]);
        lemma_word(version, behind);
    }
    assert(line.skip(version.len() as int) =~= behind);
    assert(blank_len(behind) == blanks.len()) by {
        assert(tail[0] == code[0]);
        lemma_blanks(blanks, tail);
    }
    assert(behind.skip(blanks.len() as int) =~= tail);
    assert(word_len(tail) == code.len()) by {
        lemma_word(code, rest);
    }
    assert(tail.take(code.len() as int) =~= code);
}

/// A status line that is made of a version, blanks, a code and a rest, where the
/// code ends with the line or at a blank, has that code and no other, and is
/// accepted exactly where the code is 101.
pub proof fn law_status_line(
    version: Seq<char>,
    blanks: Seq<char>,
    code: Seq<char>,
    rest: Seq<char>,
)
    requires
        version.len() > 0,
        code.len() > 0,
        blanks.len() > 0,
        forall|i: int|
            #![trigger version[i]]
            0 <= i < version.len() ==> version[i] != ' ' && version[i] != '\t' && version[i]
                != '\u{b}' && version[i] != '\u{c}' && version[i] != '\r',
        forall|i: int|
            #![trigger code[i]]
            0 <= i < code.len() ==> code[i] != ' ' && code[i] != '\t' && code[i] != '\u{b}'
                && code[i] != '\u{c}' && code[i] != '\r',
        forall|i: int|
            #![trigger blanks[i]]
            0 <= i < blanks.len() ==> blanks[i] == ' ' || blanks[i] == '\t' || blanks[i]
                == '\u{b}' || blanks[i] == '\u{c}' || blanks[i] == '\r',
        rest.len() > 0 ==> rest[0] == ' ' || rest[0] == '\t' || rest[0] == '\u{b}' || rest[0]
            == '\u{c}' || rest[0] == '\r',
    ensures
        status_code(version + blanks + code + rest) == Some(code),
        reports_switch(version + blanks + code + rest) <==> code == seq!['1', '0', '1'],
{
    lemma_status_code(version, blanks, code, rest);
    assert("101"@ =~= seq!['1', '0', '1']) by {
        reveal_strlit("101");
    }
}

/// The plain form of a status line: version, code and reason with one space
/// between them.
pub proof fn law_plain_status_line(version: Seq<char>, code: Seq<char>, reason: Seq<char>)
    requires
        version.len() > 0,
        code.len() > 0,
        forall|i: int|
            #![trigger version[i]]
            0 <= i < version.len() ==> version[i] != ' ' && version[i] != '\t' && version[i]
                != '\u{b}' && version[i] != '\u{c}' && version[i] != '\r',
        forall|i: int|
            #![trigger code[i]]
            0 <= i < code.len() ==> code[i] != ' ' && code[i] != '\t' && code[i] != '\u{b}'
                && code[i] != '\u{c}' && code[i] != '\r',
    ensures
        reports_switch(version + " "@ + code + " "@ + reason) <==> code == "101"@,
        reports_switch(version + " "@ + code) <==> code == "101"@,
{
    reveal_strlit(" ");
    reveal_strlit("101");
    assert("101"@ =~= seq!['1', '0', '1']);
    law_status_line(version, " "@, code, " "@ + reason);
    assert(version + " "@ + code + " "@ + reason =~= version + " "@ + code + (" "@ + reason));
    law_status_line(version, " "@, code, Seq::empty());
    assert(version + " "@ + code =~= version + " "@ + code + Seq::<char>::empty());
}

/// A first line of fewer than two words reports no status.
pub proof fn law_status_needs_two_words(before: Seq<char>, word: Seq<char>, after: Seq<char>)
    requires
        forall|i: int|
            #![trigger word[i]]
            0 <= i < word.len() ==> word[i] != ' ' && word[i] != '\t' && word[i] != '\u{b}'
                && word[i] != '\u{c}' && word[i] != '\r',
        forall|i: int|
            #![trigger before[i]]
            0 <= i < before.len() ==> before[i] == ' ' || before[i] == '\t' || before[i]
                == '\u{b}' || before[i] == '\u{c}' || before[i] == '\r',
        forall|i: int|
            #![trigger after[i]]
            0 <= i < after.len() ==> after[i] == ' ' || after[i] == '\t' || after[i] == '\u{b}'
                || after[i] == '\u{c}' || after[i] == '\r',
        word.len() > 0,
    ensures
        !reports_switch(before + word + after),
        !reports_switch(word),
        !reports_switch(Seq::<char>::empty()),
{
    lemma_one_word(before, word, after);
    lemma_one_word(Seq::empty(), word, Seq::empty());
    assert(Seq::<char>::empty() + word + Seq::<char>::empty() =~= word);
    let none = Seq::<char>::empty();
    lemma_blanks(none, none);
    lemma_word(none, none);
    assert(none + none =~= none);
    assert(none.skip(0) =~= none);
}

proof fn lemma_one_word(before: Seq<char>, word: Seq<char>, after: Seq<char>)
    requires
        word.len() > 0,
        forall|i: int| 0 <= i < before.len() ==> is_blank(#[trigger] before[i]),
        forall|i: int| 0 <= i < word.len() ==> !is_blank(#[trigger] word[i]),
        forall|i: int| 0 <= i < after.len() ==> is_blank(#[trigger] after[i]),
    ensures
        status_code(before + word + after) is None,
{
    let line = before + word + after;
    let words = word + after;
    assert(line =~= before + words);
    assert(words[0] == word[0]);
    lemma_blanks(before, words);
    assert(line.skip(before.len() as int) =~= words);
    lemma_word(word, after);
    assert(words.skip(word.len() as int) =~= after);
    lemma_blanks(after, Seq::empty());
    assert(after + Seq::<char>::empty() =~= after);
    assert(after.skip(after.len() as int) =~= Seq::<char>::empty());
}

/// Headers are complete exactly where they end in two line ends in a row.
pub proof fn law_headers_end(s: Seq<u8>)
    ensures
        ends_headers(s) <==> s.len() >= 4 && s.skip(s.len() - 4) == seq![13u8, 10u8, 13u8, 10u8],
{
    if s.len() >= 4 {
        let tail = s.skip(s.len() - 4);
        let k = s.len() - 4;
        assert(tail[0] == s[k] && tail[1] == s[k + 1] && tail[2] == s[k + 2] && tail[3] == s[k
            + 3]);
        if ends_headers(s) {
            assert(tail =~= seq![13u8, 10u8, 13u8, 10u8]);
        }
    }
}

/// A response comes apart at its first two line ends in a row: the first line of
/// the text before them, and the bytes behind them.
pub proof fn law_response_comes_apart(response: Seq<u8>, headers: Seq<u8>, rest: Seq<u8>)
    requires
        response == headers + seq![13u8, 10u8, 13u8, 10u8] + rest,
        forall|i: int|
            0 <= i < headers.len() ==> #[trigger] response.subrange(i, i + 4) != seq![
                13u8,
                10u8,
                13u8,
                10u8,
            ],
    ensures
        response_body(response) == rest,
        upgrade_response(response) == if valid_utf8(headers) {
            Ok::<(Seq<char>, Seq<u8>), WireErrorView>((first_line(decode_utf8(headers)), rest))
        } else {
            Err::<(Seq<char>, Seq<u8>), WireErrorView>(
                WireErrorView::MalformedHeaders { message: "headers are not valid UTF-8"@ },
            )
        },
{
    let end = seq![13u8, 10u8, 13u8, 10u8];
    let h = headers.len() as int;
    lemma_first_terminator(response);
    assert(terminator_at(response, h));
    let k = first_terminator(response).unwrap();
    if k < h {
        assert(response.subrange(k, k + 4) =~= end);
    }
    assert(response.take(h) =~= headers);
    assert(response.skip(h + 4) =~= rest);
}

/// A response without two line ends in a row has no headers: it is all body, and
/// no answer to an upgrade.
pub proof fn law_response_without_headers(response: Seq<u8>)
    requires
        forall|i: int|
            0 <= i <= response.len() - 4 ==> #[trigger] response.subrange(i, i + 4) != seq![
                13u8,
                10u8,
                13u8,
                10u8,
            ],
    ensures
        response_body(response) == response,
        upgrade_response(response) == Err::<(Seq<char>, Seq<u8>), WireErrorView>(
            WireErrorView::MalformedHeaders { message: "header terminator not found"@ },
        ),
{
    lemma_first_terminator(response);
    if first_terminator(response) is Some {
        let k = first_terminator(response).unwrap();
        assert(response.subrange(k, k + 4) =~= seq![13u8, 10u8, 13u8, 10u8]);
    }
}

/// Whatever is wrong with the key endpoint's answer is reported: a body that is
/// not JSON, a document that is no object, lacks the member, or has no text in
/// it, and a text that is not a key; and a text that is a key is that key.
pub proof fn law_key_response_reading(response: Seq<u8>)
    ensures
        ({
            let body = response_body(response);
            let result = response_key(response);
            let missing = Err::<Seq<u8>, WireErrorView>(
                WireErrorView::KeyParse { message: "missing 'PublicKey' field"@ },
            );
            match boundary::json_document(body) {
                None => result == Err::<Seq<u8>, WireErrorView>(
                    WireErrorView::KeyParse { message: boundary::json_fault(body) },
                ),
                Some(document) => match boundary::json_members(document) {
                    None => result == missing,
                    Some(members) => if !members.contains_key("PublicKey"@) {
                        result == missing
                    } else {
                        match boundary::json_string(members["PublicKey"@]) {
                            None => result == missing,
                            Some(key) => match keys::machine_public_value(key) {
                                Ok(bytes) => result == Ok::<Seq<u8>, WireErrorView>(bytes),
                                Err(source) => result == Err::<Seq<u8>, WireErrorView>(
                                    WireErrorView::ServerKey { source },
                                ),
                            },
                        }
                    },
                },
            }
        }),
{
}

/// The header of a transport frame gives the length of what follows; a header of
/// another type is refused, and the refusal names the type in two hexadecimal
/// digits.
pub proof fn law_transport_header_reading(header: Seq<u8>)
    requires
        header.len() == 3,
    ensures
        header[0] == 4 ==> transport_body_len(header) == Ok::<int, WireErrorView>(
            256 * header[1] + header[2],
        ),
        header[0] != 4 ==> transport_body_len(header) == Err::<int, WireErrorView>(
            WireErrorView::Frame {
                message: "unexpected frame type: 0x"@ + seq![
                    "0123456789abcdef"@[header[0] as int / 16],
                    "0123456789abcdef"@[header[0] as int % 16],
                ],
            },
        ),
{
    text::law_hex_digits(header, 0);
}

/// Headers beyond the limit are reported with the limit.
pub proof fn law_long_headers_are_reported(limit: nat)
    ensures
        headers_too_long(limit) == (WireErrorView::MalformedHeaders {
            message: "headers exceeded "@ + text::decimal(limit) + " bytes"@,
        }),
{
}

/// An error of the control connection loses nothing when the wire layer reports
/// it.
pub proof fn law_connection_errors_are_kept(error: TransportError)
    ensures
        match error {
            TransportError::Noise { source } => as_wire_error(error@) == (WireErrorView::Noise {
                source: source@,
            }),
            TransportError::InvalidUrl { url } => as_wire_error(error@) == (WireErrorView::Noise {
                source: NoiseErrorView::InvalidState { message: url@ },
            }),
        },
{
}

/// What an error of the wire layer says holds everything that the error holds.
pub proof fn law_wire_error_sentences(error: WireError, io_text: Seq<char>)
    ensures
        ({
            let said = error@.sentence(io_text);
            match error {
                WireError::TcpConnect { .. } => said == "TCP connect failed: "@ + io_text,
                WireError::Tls { .. } => said == "TLS error: "@ + io_text,
                WireError::InvalidUrl { url } => said == "invalid control URL (no host): "@ + url@,
                WireError::UnexpectedStatus { status_line } => said
                    == "expected HTTP 101, got: "@ + status_line@,
                WireError::MalformedHeaders { message } => said == "malformed HTTP headers: "@
                    + message@,
                WireError::KeyParse { message } => said == "key endpoint parse error: "@
                    + message@,
                WireError::ServerKey { source } => said == "server key invalid: "@
                    + source@.sentence(),
                WireError::Noise { source } => said == "noise error: "@ + source@.sentence(),
                WireError::Frame { message } => said == "frame error: "@ + message@,
            }
        }),
{
}

/// A read adds exactly the bytes that it read, ends the response where it read
/// none, and fails where it claims more than the chunk holds or where the
/// response outgrows the limit.
pub proof fn law_read_is_taken(received: Seq<u8>, read: Seq<u8>, unused: Seq<u8>, limit: int)
    ensures
        ({
            let taken = read_taken(received, read + unused, read.len() as int, limit);
            &&& taken.0 == received + read
            &&& taken.1 == if read.len() == 0 {
                Ok::<bool, WireErrorView>(true)
            } else if received.len() + read.len() <= limit {
                Ok::<bool, WireErrorView>(false)
            } else {
                Err::<bool, WireErrorView>(
                    WireErrorView::KeyParse { message: "response too large"@ },
                )
            }
        }),
        forall|n: int|
            #![trigger read_taken(received, read, n, limit)]
            n > read.len() ==> read_taken(received, read, n, limit) == (
                received,
                Err::<bool, WireErrorView>(
                    WireErrorView::KeyParse { message: "read returned more bytes than buffer"@ },
                ),
            ),
{
    assert((read + unused).take(read.len() as int) =~= read);
}

} // verus!
