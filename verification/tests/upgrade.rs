//! The upgrade of a stream, against a simulated server.

use base64::Engine;
use dictyon::config::{NoiseConfig, WireConfig};
use dictyon::keys::MachinePrivate;
use dictyon::noise::{prologue, NoiseTransport, NOISE_PARAMS};
use dictyon::transport::ControlConnection;
use dictyon::upgrade::{Progress, Upgrade};
use dictyon::wire::{open_message, seal_message, ControlConfig, WireError};

/// Feed an upgrade from a stream until it ends; also say how many bytes it
/// took.
fn drive(start: Upgrade, stream: &[u8]) -> (Result<ControlConnection, WireError>, usize) {
    let mut upgrade = start;
    let mut taken = 0;
    loop {
        let n = upgrade.wanted();
        let data = &stream[taken..taken + n];
        taken += n;
        match upgrade.feed(data) {
            Ok(Progress::More(next)) => upgrade = next,
            Ok(Progress::Done(connection)) => return (Ok(connection), taken),
            Err(error) => return (Err(error), taken),
        }
    }
}

fn configuration() -> ControlConfig {
    ControlConfig::new("https://h".to_string(), MachinePrivate::generate())
}

/// Start an upgrade, and let a server answer the initiation in its request.
fn started() -> (Upgrade, Vec<u8>, ControlConnection) {
    let server_key = MachinePrivate::generate();
    let config = configuration();
    let (upgrade, request) = Upgrade::start(&config, server_key.public_key(), "h")
        .ok()
        .expect("starts");

    let prefix = "POST /ts2021 HTTP/1.1\r\nHost: h\r\nUpgrade: tailscale-control-protocol\r\n\
                  Connection: Upgrade\r\nX-Tailscale-Handshake: ";
    let suffix = "\r\nContent-Length: 0\r\n\r\n";
    let value = request
        .strip_prefix(prefix)
        .and_then(|rest| rest.strip_suffix(suffix))
        .expect("the request is exact");
    let framed = base64::engine::general_purpose::STANDARD
        .decode(value)
        .expect("base64");
    assert_eq!(&framed[..5], &[1, 0, 1, 0, 96]);
    assert_eq!(framed.len(), 101);

    let mut responder = snow::Builder::new(NOISE_PARAMS.parse().expect("params"))
        .local_private_key(server_key.as_bytes())
        .expect("key")
        .prologue(&prologue())
        .expect("prologue")
        .build_responder()
        .expect("responder");
    let mut scratch = vec![0u8; 1024];
    responder.read_message(&framed[5..], &mut scratch).expect("read");
    assert_eq!(
        responder.get_remote_static().expect("known"),
        config.machine_key.public_key().as_bytes()
    );
    let n = responder.write_message(&[], &mut scratch).expect("write");
    let mut reply = vec![2u8, 0, n as u8];
    reply.extend_from_slice(&scratch[..n]);
    let peer = ControlConnection::from_transport(NoiseTransport::from_snow(
        responder.into_transport_mode().expect("transport"),
    ));
    (upgrade, reply, peer)
}

#[test]
fn upgrade_takes_headers_and_frame_and_no_more() {
    let (upgrade, reply, mut peer) = started();
    let headers = b"HTTP/1.1 101 Switching Protocols\r\nUpgrade: x\r\n\r\n";
    let mut stream = headers.to_vec();
    stream.extend_from_slice(&reply);
    let answer = stream.len();
    let early = seal_message(&mut peer, b"map").expect("seals");
    stream.extend_from_slice(&early);

    let (result, taken) = drive(upgrade, &stream);
    assert_eq!(taken, answer);
    let mut connection = result.ok().expect("established");
    assert_eq!(open_message(&mut connection, &stream[taken + 3..]).expect("opens"), b"map");
    let framed = seal_message(&mut connection, b"hello").expect("seals");
    assert_eq!(open_message(&mut peer, &framed[3..]).expect("opens"), b"hello");
}

#[test]
fn other_status_is_refused_after_the_headers() {
    let (upgrade, reply, _peer) = started();
    let headers = b"HTTP/1.1 403 Forbidden\r\nA: b\r\n\r\n";
    let mut stream = headers.to_vec();
    stream.extend_from_slice(&reply);
    let (result, taken) = drive(upgrade, &stream);
    assert_eq!(taken, headers.len());
    match result.err().expect("refused") {
        WireError::UnexpectedStatus { status_line } => {
            assert_eq!(status_line, "HTTP/1.1 403 Forbidden");
        }
        other => panic!("unexpected error: {other:?}"),
    }
}

#[test]
fn digits_elsewhere_in_the_first_line_do_not_count() {
    for line in ["HTTP/1.1 500 Error 101", "HTTP/1.1 1010 X", "HTTP/1.101 200 OK"] {
        let (upgrade, reply, _peer) = started();
        let mut stream = format!("{line}\r\n\r\n").into_bytes();
        let head = stream.len();
        stream.extend_from_slice(&reply);
        let (result, taken) = drive(upgrade, &stream);
        assert_eq!(taken, head);
        match result.err().expect("refused") {
            WireError::UnexpectedStatus { status_line } => assert_eq!(status_line, line),
            other => panic!("unexpected error: {other:?}"),
        }
    }
}

#[test]
fn endless_headers_are_refused() {
    let (upgrade, _reply, _peer) = started();
    let (result, taken) = drive(upgrade, &vec![b'a'; 10_000]);
    assert_eq!(taken, 8193);
    assert_eq!(
        result.err().expect("refused").to_string(),
        "malformed HTTP headers: headers exceeded 8192 bytes"
    );
}

#[test]
fn malformed_answers_are_told_apart() {
    let failure = |answer: &[u8]| {
        let (upgrade, _reply, _peer) = started();
        drive(upgrade, answer).0.err().expect("refused").to_string()
    };
    assert_eq!(
        failure(b"HTTP/1.1 101 \xff\r\n\r\n"),
        "malformed HTTP headers: headers are not valid UTF-8"
    );
    assert_eq!(
        failure(b"HTTP/1.1 101\r\n\r\n\x04\x00\x00"),
        "noise error: noise handshake failed: unexpected message type: 0x04"
    );
    assert_eq!(
        failure(b"HTTP/1.1 101\r\n\r\n\x02\x00\x00"),
        "noise error: snow error: input error"
    );
    let mut forged = b"HTTP/1.1 101\r\n\r\n\x02\x00\x30".to_vec();
    forged.extend_from_slice(&[5u8; 48]);
    assert_eq!(failure(&forged), "noise error: snow error: decrypt error");
}

#[test]
fn start_reports_a_failed_initiation() {
    let mut config = configuration();
    config.config.noise = NoiseConfig { max_frame_payload: 4096, handshake_scratch_bytes: 10 };
    config.config.wire = WireConfig { max_header_bytes: 1, ..WireConfig::default() };
    let server = MachinePrivate::generate().public_key();
    let error = Upgrade::start(&config, server, "h").err().expect("refused");
    assert_eq!(error.to_string(), "noise error: snow error: input error");
}
