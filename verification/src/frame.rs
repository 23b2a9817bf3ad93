//! The frames of the control protocol.
//!
//! - Initiation: `[2B version LE][1B type=0x01][2B length BE][message]`
//! - Response: `[1B type=0x02][2B length BE][message]`
//! - Transport: `[1B type=0x04][2B length BE][ciphertext]`

use vstd::prelude::*;

verus! {

/// Version of the Noise handshake, which the prologue and the initiation frame
/// carry.
pub const PROTOCOL_VERSION: u16 = 1;

/// Type of the initiator's first message.
pub const MSG_TYPE_INITIATION: u8 = 0x01;

/// Type of the responder's reply.
pub const MSG_TYPE_RESPONSE: u8 = 0x02;

/// Type of the frames that follow the handshake.
pub const MSG_TYPE_TRANSPORT: u8 = 0x04;

/// The length of a frame's header: its type and its length.
pub const HEADER_LEN: usize = 3;

/// The largest length that a frame's header can announce.
pub const MAX_BODY_LEN: usize = 65535;

// ---------------------------------------------------------------------------
// What the frames are
// ---------------------------------------------------------------------------

/// A number below 65536 as two bytes, the high one first.
pub open spec fn be16(n: int) -> Seq<u8> {
    seq![(n / 256) as u8, (n % 256) as u8]
}

/// The number that two bytes stand for, the high one first.
pub open spec fn be16_value(hi: u8, lo: u8) -> int {
    256 * hi + lo
}

/// A body behind its type and an announced length.
pub open spec fn frame_announcing(kind: u8, announced: int, body: Seq<u8>) -> Seq<u8> {
    seq![kind] + be16(announced) + body
}

/// A body behind its type and its length.
pub open spec fn frame(kind: u8, body: Seq<u8>) -> Seq<u8> {
    frame_announcing(kind, body.len() as int, body)
}

/// The frame of the initiator's first message.
pub open spec fn initiation_frame(message: Seq<u8>) -> Seq<u8> {
    seq![(PROTOCOL_VERSION % 256) as u8, (PROTOCOL_VERSION / 256) as u8] + frame(
        MSG_TYPE_INITIATION,
        message,
    )
}

/// The frame of the responder's reply.
pub open spec fn response_frame(message: Seq<u8>) -> Seq<u8> {
    frame(MSG_TYPE_RESPONSE, message)
}

/// The frame of a ciphertext.
pub open spec fn transport_frame(ciphertext: Seq<u8>) -> Seq<u8> {
    frame(MSG_TYPE_TRANSPORT, ciphertext)
}

/// The length that a frame's header announces.
pub open spec fn announced_len(header: Seq<u8>) -> int {
    be16_value(header[1], header[2])
}

// ---------------------------------------------------------------------------
// Building and reading
// ---------------------------------------------------------------------------

/// Put a body behind its type and an announced length.
pub fn build_frame_announcing(kind: u8, announced: usize, body: &[u8]) -> (framed: Vec<u8>)
    requires
        announced <= MAX_BODY_LEN,
    ensures
        framed@ == frame_announcing(kind, announced as int, body@),
{
    let mut framed: Vec<u8> = Vec::with_capacity(HEADER_LEN + announced);
    framed.push(kind);
    framed.push((announced / 256) as u8);
    framed.push((announced % 256) as u8);
    framed.extend_from_slice(body);
    assert(framed@ =~= frame_announcing(kind, announced as int, body@));
    framed
}

/// Frame the initiator's first message.
pub fn build_initiation_frame(message: &[u8]) -> (framed: Vec<u8>)
    requires
        message@.len() <= MAX_BODY_LEN,
    ensures
        framed@ == initiation_frame(message@),
{
    let n: usize = message.len();
    let mut framed: Vec<u8> = Vec::with_capacity(2 + HEADER_LEN + n);
    framed.push((PROTOCOL_VERSION % 256) as u8);
    framed.push((PROTOCOL_VERSION / 256) as u8);
    framed.push(MSG_TYPE_INITIATION);
    framed.push((n / 256) as u8);
    framed.push((n % 256) as u8);
    framed.extend_from_slice(message);
    assert(framed@ =~= initiation_frame(message@));
    framed
}

/// The length that a frame's header announces.
pub fn read_announced_len(hi: u8, lo: u8) -> (n: usize)
    ensures
        n == be16_value(hi, lo),
        n <= MAX_BODY_LEN,
{
    256 * (hi as usize) + (lo as usize)
}

// ---------------------------------------------------------------------------
// Laws
// ---------------------------------------------------------------------------

/// The header of a frame gives back the frame's type and the length that it
/// announces, and what follows the header is the body.
pub proof fn law_announcement_round_trip(kind: u8, announced: int, body: Seq<u8>)
    requires
        0 <= announced <= MAX_BODY_LEN,
    ensures
        frame_announcing(kind, announced, body).len() == HEADER_LEN + body.len(),
        frame_announcing(kind, announced, body)[0] == kind,
        announced_len(frame_announcing(kind, announced, body)) == announced,
        frame_announcing(kind, announced, body).skip(HEADER_LEN as int) == body,
{
    assert(256 * (announced / 256) + announced % 256 == announced);
    assert(frame_announcing(kind, announced, body).skip(HEADER_LEN as int) =~= body);
}

/// The header of a frame gives back the frame's type and the length of its
/// body, and what follows the header is the body.
pub proof fn law_frame_round_trip(kind: u8, body: Seq<u8>)
    requires
        body.len() <= MAX_BODY_LEN,
    ensures
        frame(kind, body).len() == HEADER_LEN + body.len(),
        frame(kind, body)[0] == kind,
        announced_len(frame(kind, body)) == body.len(),
        frame(kind, body).skip(HEADER_LEN as int) == body,
{
    law_announcement_round_trip(kind, body.len() as int, body);
}

/// Frames that are equal have the same type and the same body.
pub proof fn law_frame_is_faithful(kind: u8, body: Seq<u8>, other_kind: u8, other_body: Seq<u8>)
    requires
        body.len() <= MAX_BODY_LEN,
        other_body.len() <= MAX_BODY_LEN,
        frame(kind, body) == frame(other_kind, other_body),
    ensures
        kind == other_kind,
        body == other_body,
{
    law_frame_round_trip(kind, body);
    law_frame_round_trip(other_kind, other_body);
}

/// An initiation frame starts with the protocol version, low byte first, and
/// goes on as a frame of the initiation type; the message stands behind the
/// first five bytes.
pub proof fn law_initiation_frame_shape(message: Seq<u8>)
    requires
        message.len() <= MAX_BODY_LEN,
    ensures
        initiation_frame(message).len() == 5 + message.len(),
        initiation_frame(message).take(2) == seq![1u8, 0u8],
        initiation_frame(message)[2] == MSG_TYPE_INITIATION,
        announced_len(initiation_frame(message).skip(2)) == message.len(),
        initiation_frame(message).skip(5) == message,
{
    law_frame_round_trip(MSG_TYPE_INITIATION, message);
    assert(initiation_frame(message).skip(2) =~= frame(MSG_TYPE_INITIATION, message));
    assert(initiation_frame(message).skip(5) =~= message);
    assert(initiation_frame(message).take(2) =~= seq![1u8, 0u8]);
}

/// The bytes of each frame: the type, the length of the body with the high byte
/// first, and the body; an initiation has the version, low byte first, before
/// that.
pub proof fn law_frame_bytes(kind: u8, body: Seq<u8>)
    requires
        body.len() <= 65535,
    ensures
        frame(kind, body).len() == 3 + body.len(),
        frame(kind, body)[0] == kind,
        256 * frame(kind, body)[1] + frame(kind, body)[2] == body.len(),
        frame(kind, body).skip(3) == body,
        response_frame(body) == frame(2, body),
        transport_frame(body) == frame(4, body),
        initiation_frame(body) == seq![1u8, 0u8] + frame(1, body),
        announced_len(frame(kind, body)) == body.len(),
{
    let n = body.len() as int;
    assert(256 * (n / 256) + n % 256 == n);
    assert(frame(kind, body).skip(3) =~= body);
    assert(initiation_frame(body) =~= seq![1u8, 0u8] + frame(1, body));
}

/// The bytes of a frame whose announced length is given apart from its body.
pub proof fn law_announcing_frame_bytes(kind: u8, announced: int, body: Seq<u8>)
    requires
        0 <= announced <= 65535,
    ensures
        frame_announcing(kind, announced, body).len() == 3 + body.len(),
        frame_announcing(kind, announced, body)[0] == kind,
        256 * frame_announcing(kind, announced, body)[1] + frame_announcing(
            kind,
            announced,
            body,
        )[2] == announced,
        frame_announcing(kind, announced, body).skip(3) == body,
{
    law_announcement_round_trip(kind, announced, body);
}

/// The length that a header announces, whatever the header.
pub proof fn law_announced_len(header: Seq<u8>)
    ensures
        announced_len(header) == 256 * header[1] + header[2],
{
}

} // verus!
