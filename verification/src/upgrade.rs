//! The upgrade of a stream to a control connection, step by step.
//!
//! An [`Upgrade`] says how many bytes it wants next and is fed exactly those,
//! until the handshake is finished or has failed. It reads the response
//! headers one byte at a time, so that nothing behind them is taken from the
//! stream, and then the frame with the server's handshake message.

use crate::boundary;
use crate::config::{NoiseConfig, WireConfig};
use crate::encoding;
use crate::frame;
use crate::frame::HEADER_LEN;
use crate::keys::{MachinePrivate, MachinePublic};
use crate::noise;
use crate::noise::{NoiseHandshake, Phase, Session};
use crate::transport::ControlConnection;
use crate::wire;
use crate::wire::{ControlConfig, WireError, WireErrorView};
use vstd::prelude::*;
use vstd::utf8::{decode_utf8, valid_utf8};

verus! {

// ---------------------------------------------------------------------------
// What the steps are
// ---------------------------------------------------------------------------

/// What an upgrade is reading.
#[verifier::ext_equal]
pub enum Stage {
    /// The response headers, of which some bytes have come.
    Headers { received: Seq<u8> },
    /// The header of the frame with the server's handshake message.
    FrameHeader,
    /// The body of that frame, whose header has come.
    FrameBody { header: Seq<u8> },
}

/// An [`Upgrade`] as its contracts see it.
#[verifier::ext_equal]
pub struct UpgradeView {
    /// Where the handshake stands.
    pub phase: Phase,
    /// The knobs of the Noise layer.
    pub noise: NoiseConfig,
    /// The knobs of the wire layer.
    pub wire: WireConfig,
    /// What is being read.
    pub stage: Stage,
}

/// What comes of a step of an upgrade.
pub enum StepView {
    /// There is more to read.
    More { next: UpgradeView },
    /// The connection is established.
    Done { session: Session },
}

/// How many bytes an upgrade wants next.
pub open spec fn wanted_bytes(stage: Stage) -> int {
    match stage {
        Stage::Headers { .. } => 1,
        Stage::FrameHeader => HEADER_LEN as int,
        Stage::FrameBody { header } => frame::announced_len(header),
    }
}

/// What an upgrade does once the response headers are complete.
pub open spec fn after_headers(upgrade: UpgradeView, headers: Seq<u8>) -> Result<
    StepView,
    WireErrorView,
> {
    match wire::upgrade_response(headers) {
        Err(error) => Err(error),
        Ok((status_line, _)) => if !wire::reports_switch(status_line) {
            Err(WireErrorView::UnexpectedStatus { status_line })
        } else {
            Ok(StepView::More { next: UpgradeView { stage: Stage::FrameHeader, ..upgrade } })
        },
    }
}

/// What an upgrade does with the bytes that it wanted.
pub open spec fn step(upgrade: UpgradeView, data: Seq<u8>) -> Result<StepView, WireErrorView> {
    match upgrade.stage {
        Stage::Headers { received } => {
            let headers = received.push(data[0]);
            if headers.len() > upgrade.wire.max_header_bytes {
                Err(wire::headers_too_long(upgrade.wire.max_header_bytes as nat))
            } else if wire::ends_headers(headers) {
                after_headers(upgrade, headers)
            } else {
                Ok(
                    StepView::More {
                        next: UpgradeView {
                            stage: Stage::Headers { received: headers },
                            ..upgrade
                        },
                    },
                )
            }
        },
        Stage::FrameHeader => Ok(
            StepView::More {
                next: UpgradeView { stage: Stage::FrameBody { header: data }, ..upgrade },
            },
        ),
        Stage::FrameBody { header } => match noise::completion(
            upgrade.phase,
            upgrade.noise,
            header + data,
        ) {
            Ok(session) => Ok(StepView::Done { session }),
            Err(source) => Err(WireErrorView::Noise { source }),
        },
    }
}

/// Whether `request` is what an upgrade starts with: the upgrade request that
/// carries the frame that the handshake sent.
pub open spec fn request_sent(
    before: Phase,
    scratch: int,
    host: Seq<char>,
    request: Seq<char>,
    after: Phase,
) -> bool {
    exists|framed: Seq<u8>| #[trigger]
        noise::initiated(before, scratch, Ok(framed), after) && request
            == wire::upgrade_request_text(host, encoding::base64_text(framed))
}

// ---------------------------------------------------------------------------
// The steps
// ---------------------------------------------------------------------------

/// The upgrade of a stream to a control connection, under way.
pub struct Upgrade {
    handshake: NoiseHandshake,
    wire: WireConfig,
    reading: Reading,
}

enum Reading {
    Headers { received: Vec<u8> },
    FrameHeader,
    FrameBody { header: [u8; 3] },
}

impl Reading {
    spec fn stage(self) -> Stage {
        match self {
            Reading::Headers { received } => Stage::Headers { received: received@ },
            Reading::FrameHeader => Stage::FrameHeader,
            Reading::FrameBody { header } => Stage::FrameBody { header: header@ },
        }
    }
}

/// What a step of an upgrade leads to.
pub enum Progress {
    /// There is more to read.
    More(Upgrade),
    /// The connection is established.
    Done(ControlConnection),
}

impl View for Upgrade {
    type V = UpgradeView;

    closed spec fn view(&self) -> UpgradeView {
        UpgradeView {
            phase: self.handshake.phase(),
            noise: self.handshake.knobs(),
            wire: self.wire,
            stage: self.reading.stage(),
        }
    }
}

impl View for Progress {
    type V = StepView;

    open spec fn view(&self) -> StepView {
        match *self {
            Progress::More(upgrade) => StepView::More { next: upgrade@ },
            Progress::Done(connection) => StepView::Done { session: connection@ },
        }
    }
}

impl Upgrade {
    /// Start the upgrade of a stream to a control server whose public key is
    /// known: create the handshake and build the request, which is to be
    /// written to the stream.
    ///
    /// # Errors
    ///
    /// Returns [`WireError::Noise`] if the initiation fails.
    pub fn start(config: &ControlConfig, server_key: MachinePublic, host: &str) -> (r: Result<
        (Self, String),
        WireError,
    >)
        requires
            config.config.noise.can_initiate(),
            config.config.wire.header_read_initial_capacity <= isize::MAX,
        ensures
            ({
                let ready = Phase::Ready { private: config.machine_key@, remote: server_key@ };
                let scratch = config.config.noise.handshake_scratch_bytes as int;
                match r {
                    Ok((upgrade, request)) => {
                        &&& upgrade@.noise == config.config.noise
                        &&& upgrade@.wire == config.config.wire
                        &&& upgrade@.stage == (Stage::Headers { received: Seq::empty() })
                        &&& request_sent(ready, scratch, host@, request@, upgrade@.phase)
                        &&& wire::names_host(request@, host@)
                    },
                    Err(error) => match error@ {
                        WireErrorView::Noise { source } => noise::initiated(
                            ready,
                            scratch,
                            Err(source),
                            Phase::Completed,
                        ),
                        _ => false,
                    },
                }
            }),
    {
        let machine_key: MachinePrivate = MachinePrivate::from_bytes(
            *config.machine_key.as_bytes(),
        );
        let mut handshake: NoiseHandshake = NoiseHandshake::with_config(
            machine_key,
            server_key,
            config.config.noise,
        );
        let framed: Vec<u8> = match handshake.initiation_message() {
            Ok(framed) => framed,
            Err(source) => {
                return Err(WireError::from(source));
            },
        };
        let value: String = boundary::base64_encode(framed.as_slice());
        proof {
            encoding::law_base64_shape(framed@);
            assert forall|i: int| 0 <= i < value@.len() implies value@[i] != '\n' by {
                assert(encoding::is_base64_char(value@[i]));
            }
        }
        let request: String = wire::build_upgrade_request(host, value.as_str());
        let received: Vec<u8> = Vec::with_capacity(config.config.wire.header_read_initial_capacity);
        let upgrade = Upgrade {
            handshake,
            wire: config.config.wire,
            reading: Reading::Headers { received },
        };
        Ok((upgrade, request))
    }

    /// How many bytes are wanted next.
    pub fn wanted(&self) -> (n: usize)
        ensures
            n == wanted_bytes(self@.stage),
    {
        match &self.reading {
            Reading::Headers { .. } => 1,
            Reading::FrameHeader => HEADER_LEN,
            Reading::FrameBody { header } => frame::read_announced_len(header[1], header[2]),
        }
    }

    /// Take the bytes that were wanted, and go on.
    ///
    /// # Errors
    ///
    /// Returns [`WireError::MalformedHeaders`] or
    /// [`WireError::UnexpectedStatus`] if the response is not the one that an
    /// upgrade needs, or [`WireError::Noise`] if the handshake fails.
    pub fn feed(self, data: &[u8]) -> (r: Result<Progress, WireError>)
        requires
            data@.len() == wanted_bytes(self@.stage),
        ensures
            self@.stage matches Stage::FrameBody { header } ==> noise::pairs_with_answer(
                self@.phase,
                self@.noise,
                header + data@,
            ),
            match r {
                Ok(progress) => step(self@, data@) == Ok::<StepView, WireErrorView>(progress@),
                Err(error) => step(self@, data@) == Err::<StepView, WireErrorView>(error@),
            },
    {
        let handshake = self.handshake;
        let wire_config: WireConfig = self.wire;
        match self.reading {
            Reading::Headers { received } => {
                let mut received: Vec<u8> = received;
                let done: bool = match wire::accept_header_byte(
                    &mut received,
                    data[0],
                    wire_config.max_header_bytes,
                ) {
                    Ok(done) => done,
                    Err(error) => {
                        return Err(error);
                    },
                };
                if !done {
                    return Ok(
                        Progress::More(
                            Upgrade {
                                handshake,
                                wire: wire_config,
                                reading: Reading::Headers { received },
                            },
                        ),
                    );
                }
                let (status_line, _) = match wire::parse_upgrade_response(received.as_slice()) {
                    Ok(parts) => parts,
                    Err(error) => {
                        return Err(error);
                    },
                };
                match wire::accept_status(status_line) {
                    Ok(_) => Ok(
                        Progress::More(
                            Upgrade {
                                handshake,
                                wire: wire_config,
                                reading: Reading::FrameHeader,
                            },
                        ),
                    ),
                    Err(error) => Err(error),
                }
            },
            Reading::FrameHeader => {
                let header: [u8; 3] = [data[0], data[1], data[2]];
                assert(header@ =~= data@);
                Ok(
                    Progress::More(
                        Upgrade {
                            handshake,
                            wire: wire_config,
                            reading: Reading::FrameBody { header },
                        },
                    ),
                )
            },
            Reading::FrameBody { header } => {
                let mut framed: Vec<u8> = Vec::with_capacity(HEADER_LEN);
                framed.extend_from_slice(&header);
                framed.extend_from_slice(data);
                assert(framed@ =~= header@ + data@);
                match ControlConnection::complete_handshake(handshake, framed.as_slice()) {
                    Ok(connection) => Ok(Progress::Done(connection)),
                    Err(error) => Err(wire::wire_error(error)),
                }
            },
        }
    }
}

// ---------------------------------------------------------------------------
// Laws
// ---------------------------------------------------------------------------

/// What comes of feeding an upgrade from a stream, and how many bytes it takes
/// from it; `None` where the stream ends before the upgrade does.
pub open spec fn run(upgrade: UpgradeView, stream: Seq<u8>) -> Option<
    (Result<Session, WireErrorView>, int),
>
    decreases stream.len(),
{
    let n = wanted_bytes(upgrade.stage);
    if stream.len() < n {
        None
    } else {
        match step(upgrade, stream.take(n)) {
            Err(error) => Some((Err(error), n)),
            Ok(StepView::Done { session }) => Some((Ok(session), n)),
            Ok(StepView::More { next }) => if n <= 0 {
                None
            } else {
                match run(next, stream.skip(n)) {
                    Some((result, taken)) => Some((result, n + taken)),
                    None => None,
                }
            },
        }
    }
}

/// Whether `headers` is a complete header block: it ends with the terminator,
/// and no shorter part of it does.
pub open spec fn is_header_block(headers: Seq<u8>) -> bool {
    &&& wire::ends_headers(headers)
    &&& forall|k: int|
        0 <= k < headers.len() ==> !wire::ends_headers(#[trigger] headers.take(k))
}

/// A header block holds exactly one terminator, at its end, so nothing follows
/// the headers in it.
pub proof fn law_header_block_has_no_rest(headers: Seq<u8>)
    requires
        is_header_block(headers),
    ensures
        wire::first_terminator(headers) == Some(headers.len() - 4),
        wire::upgrade_response(headers) matches Ok((_, rest)) ==> rest.len() == 0,
{
    wire::lemma_first_terminator(headers);
    assert(wire::terminator_at(headers, headers.len() - 4));
    let k = wire::first_terminator(headers).unwrap();
    if k < headers.len() - 4 {
        let short = headers.take(k + 4);
        assert(wire::ends_headers(short));
    }
}

/// While the headers are not complete, an upgrade takes one byte after the
/// other.
proof fn lemma_run_in_headers(upgrade: UpgradeView, stream: Seq<u8>, from: int, to: int)
    requires
        0 <= from <= to <= stream.len(),
        to <= upgrade.wire.max_header_bytes,
        forall|k: int| from < k <= to ==> !wire::ends_headers(#[trigger] stream.take(k)),
    ensures
        ({
            let at_from = UpgradeView {
                stage: Stage::Headers { received: stream.take(from) },
                ..upgrade
            };
            let at_to = UpgradeView {
                stage: Stage::Headers { received: stream.take(to) },
                ..upgrade
            };
            run(at_from, stream.skip(from)) == match run(at_to, stream.skip(to)) {
                Some((result, taken)) => Some((result, to - from + taken)),
                None => None,
            }
        }),
    decreases to - from,
{
    if from < to {
        let at_from = UpgradeView {
            stage: Stage::Headers { received: stream.take(from) },
            ..upgrade
        };
        let at_next = UpgradeView {
            stage: Stage::Headers { received: stream.take(from + 1) },
            ..upgrade
        };
        let rest = stream.skip(from);
        assert(stream.take(from).push(rest.take(1)[0]) =~= stream.take(from + 1));
        assert(rest.skip(1) =~= stream.skip(from + 1));
        assert(step(at_from, rest.take(1)) == Ok::<StepView, WireErrorView>(
            StepView::More { next: at_next },
        ));
        lemma_run_in_headers(upgrade, stream, from + 1, to);
    }
}

/// An upgrade that is answered with a header block that reports status 101 and
/// then a frame takes exactly those bytes from the stream, whatever follows
/// them, and comes out as the handshake does on that frame.
pub proof fn law_upgrade_takes_headers_and_frame(
    upgrade: UpgradeView,
    headers: Seq<u8>,
    kind: u8,
    message: Seq<u8>,
    rest: Seq<u8>,
)
    requires
        upgrade.stage == (Stage::Headers { received: Seq::empty() }),
        is_header_block(headers),
        headers.len() <= upgrade.wire.max_header_bytes,
        valid_utf8(headers.take(headers.len() - 4)),
        wire::reports_switch(wire::first_line(decode_utf8(headers.take(headers.len() - 4)))),
        message.len() <= frame::MAX_BODY_LEN,
    ensures
        run(upgrade, headers + frame::frame(kind, message) + rest) == Some(
            (
                match noise::completion(
                    upgrade.phase,
                    upgrade.noise,
                    frame::frame(kind, message),
                ) {
                    Ok(session) => Ok::<Session, WireErrorView>(session),
                    Err(source) => Err::<Session, WireErrorView>(WireErrorView::Noise { source }),
                },
                (headers.len() + HEADER_LEN + message.len()) as int,
            ),
        ),
{
    let framed = frame::frame(kind, message);
    let stream = headers + framed + rest;
    let h = headers.len() as int;
    frame::law_frame_round_trip(kind, message);
    law_header_block_has_no_rest(headers);

    // All header bytes but the last.
    assert forall|k: int| 0 < k <= h - 1 implies !wire::ends_headers(#[trigger] stream.take(k)) by {
        assert(stream.take(k) =~= headers.take(k));
    }
    lemma_run_in_headers(upgrade, stream, 0, h - 1);
    assert(stream.take(0) =~= Seq::<u8>::empty());
    assert(stream.skip(0) =~= stream);

    // The last header byte.
    let at_last = UpgradeView { stage: Stage::Headers { received: stream.take(h - 1) }, ..upgrade };
    let at_header = UpgradeView { stage: Stage::FrameHeader, ..upgrade };
    let tail = stream.skip(h - 1);
    assert(stream.take(h - 1).push(tail.take(1)[0]) =~= headers);
    assert(step(at_last, tail.take(1)) == Ok::<StepView, WireErrorView>(
        StepView::More { next: at_header },
    ));
    assert(tail.skip(1) =~= framed + rest);

    // The frame's header.
    let header = framed.take(HEADER_LEN as int);
    let at_body = UpgradeView { stage: Stage::FrameBody { header }, ..upgrade };
    assert((framed + rest).take(HEADER_LEN as int) =~= header);
    assert(step(at_header, header) == Ok::<StepView, WireErrorView>(
        StepView::More { next: at_body },
    ));
    assert((framed + rest).skip(HEADER_LEN as int) =~= message + rest);
    assert(frame::announced_len(header) == message.len());

    // The frame's body.
    assert((message + rest).take(message.len() as int) =~= message);
    assert(header + message =~= framed);
    assert(run(at_body, message + rest) is Some);
    assert(run(at_header, framed + rest) is Some);
}

/// An upgrade that is not answered with a complete header block within the
/// limit fails, with the byte that goes beyond it.
pub proof fn law_long_headers_are_refused(upgrade: UpgradeView, stream: Seq<u8>)
    requires
        upgrade.stage == (Stage::Headers { received: Seq::empty() }),
        stream.len() > upgrade.wire.max_header_bytes,
        forall|k: int|
            0 < k <= upgrade.wire.max_header_bytes ==> !wire::ends_headers(
                #[trigger] stream.take(k),
            ),
    ensures
        run(upgrade, stream) == Some(
            (
                Err::<Session, WireErrorView>(
                    wire::headers_too_long(upgrade.wire.max_header_bytes as nat),
                ),
                upgrade.wire.max_header_bytes + 1,
            ),
        ),
{
    let limit = upgrade.wire.max_header_bytes as int;
    lemma_run_in_headers(upgrade, stream, 0, limit);
    assert(stream.take(0) =~= Seq::<u8>::empty());
    assert(stream.skip(0) =~= stream);
    let at_limit = UpgradeView {
        stage: Stage::Headers { received: stream.take(limit) },
        ..upgrade
    };
    assert(step(at_limit, stream.skip(limit).take(1)) is Err);
}

/// An upgrade whose answer reports another status fails with the answer's
/// first line, right after the headers.
pub proof fn law_other_status_is_refused(upgrade: UpgradeView, headers: Seq<u8>, rest: Seq<u8>)
    requires
        upgrade.stage == (Stage::Headers { received: Seq::empty() }),
        is_header_block(headers),
        headers.len() <= upgrade.wire.max_header_bytes,
        valid_utf8(headers.take(headers.len() - 4)),
        !wire::reports_switch(wire::first_line(decode_utf8(headers.take(headers.len() - 4)))),
    ensures
        run(upgrade, headers + rest) == Some(
            (
                Err::<Session, WireErrorView>(
                    WireErrorView::UnexpectedStatus {
                        status_line: wire::first_line(
                            decode_utf8(headers.take(headers.len() - 4)),
                        ),
                    },
                ),
                headers.len() as int,
            ),
        ),
{
    let stream = headers + rest;
    let h = headers.len() as int;
    law_header_block_has_no_rest(headers);
    assert forall|k: int| 0 < k <= h - 1 implies !wire::ends_headers(#[trigger] stream.take(k)) by {
        assert(stream.take(k) =~= headers.take(k));
    }
    lemma_run_in_headers(upgrade, stream, 0, h - 1);
    assert(stream.take(0) =~= Seq::<u8>::empty());
    assert(stream.skip(0) =~= stream);
    let at_last = UpgradeView { stage: Stage::Headers { received: stream.take(h - 1) }, ..upgrade };
    let tail = stream.skip(h - 1);
    assert(stream.take(h - 1).push(tail.take(1)[0]) =~= headers);
    assert(step(at_last, tail.take(1)) is Err);
}

/// The request that an upgrade starts with names the whole host and carries the
/// base64 text of the whole frame around the very message that the handshake
/// remembers as sent.
pub proof fn law_upgrade_starts_with_initiation(
    private: Seq<u8>,
    remote: Seq<u8>,
    scratch: int,
    host: Seq<char>,
    request: Seq<char>,
    after: Phase,
)
    requires
        request_sent(Phase::Ready { private, remote }, scratch, host, request, after),
        forall|i: int| 0 <= i < host.len() ==> host[i] != '\n',
    ensures
        after is AwaitingResponse,
        ({
            let client = boundary::initiator(after->state);
            let message = client.sent.unwrap();
            let second = wire::after_line(request);
            let third = wire::after_line(second);
            let fourth = wire::after_line(third);
            let fifth = wire::after_line(fourth);
            &&& client.sent is Some
            &&& client.private == private
            &&& client.remote == remote
            &&& message.len() == 96
            &&& wire::line_of(request) == "POST /ts2021 HTTP/1.1\r"@
            &&& wire::line_of(second) == "Host: "@ + host + "\r"@
            &&& wire::line_of(third) == "Upgrade: tailscale-control-protocol\r"@
            &&& wire::line_of(fourth) == "Connection: Upgrade\r"@
            &&& wire::line_of(fifth) == "X-Tailscale-Handshake: "@ + encoding::base64_text(
                seq![1u8, 0u8, 1u8, 0u8, 96u8] + message,
            ) + "\r"@
        }),
{
    let ready = Phase::Ready { private, remote };
    let framed = choose|framed: Seq<u8>| #[trigger]
        noise::initiated(ready, scratch, Ok(framed), after) && request
            == wire::upgrade_request_text(host, encoding::base64_text(framed));
    noise::law_initiation_carries_the_message(private, remote, scratch, framed, after);
    assert(framed =~= seq![1u8, 0u8, 1u8, 0u8, 96u8] + framed.skip(5)) by {
        assert(framed =~= framed.take(5) + framed.skip(5));
    }
    let value = encoding::base64_text(framed);
    encoding::law_base64_shape(framed);
    assert forall|i: int| 0 <= i < value.len() implies value[i] != '\n' by {
        assert(encoding::is_base64_char(value[i]));
    }
    wire::law_upgrade_request_reads_back(host, value);
}

/// An upgrade whose answer has headers that are not UTF-8 fails, right after the
/// headers.
pub proof fn law_unreadable_headers_are_refused(
    upgrade: UpgradeView,
    headers: Seq<u8>,
    rest: Seq<u8>,
)
    requires
        upgrade.stage == (Stage::Headers { received: Seq::empty() }),
        is_header_block(headers),
        headers.len() <= upgrade.wire.max_header_bytes,
        !valid_utf8(headers.take(headers.len() - 4)),
    ensures
        run(upgrade, headers + rest) == Some(
            (
                Err::<Session, WireErrorView>(
                    WireErrorView::MalformedHeaders { message: "headers are not valid UTF-8"@ },
                ),
                headers.len() as int,
            ),
        ),
{
    let stream = headers + rest;
    let h = headers.len() as int;
    law_header_block_has_no_rest(headers);
    assert forall|k: int| 0 < k <= h - 1 implies !wire::ends_headers(#[trigger] stream.take(k)) by {
        assert(stream.take(k) =~= headers.take(k));
    }
    lemma_run_in_headers(upgrade, stream, 0, h - 1);
    assert(stream.take(0) =~= Seq::<u8>::empty());
    assert(stream.skip(0) =~= stream);
    let at_last = UpgradeView { stage: Stage::Headers { received: stream.take(h - 1) }, ..upgrade };
    let tail = stream.skip(h - 1);
    assert(stream.take(h - 1).push(tail.take(1)[0]) =~= headers);
    assert(step(at_last, tail.take(1)) is Err);
}

/// What an upgrade wants next: one byte of the headers, three bytes of a frame's
/// header, and then as many bytes as that header announces.
pub proof fn law_wanted_bytes(received: Seq<u8>, header: Seq<u8>)
    ensures
        wanted_bytes(Stage::Headers { received }) == 1,
        wanted_bytes(Stage::FrameHeader) == 3,
        wanted_bytes(Stage::FrameBody { header }) == 256 * header[1] + header[2],
{
}

} // verus!
