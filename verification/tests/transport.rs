//! The upgrade request and the control connection.

use base64::Engine;
use dictyon::keys::MachinePrivate;
use dictyon::noise::{NoiseError, NoiseHandshake};
use dictyon::transport::{prepare_upgrade_request, ControlConnection, TransportError};

#[test]
fn build_upgrade_request_sets_correct_headers() {
    let machine_key = MachinePrivate::generate();
    let server_key = MachinePrivate::generate();
    let server_pub = server_key.public_key();

    let mut handshake = NoiseHandshake::new(machine_key, server_pub);
    let req = ControlConnection::build_upgrade_request(
        &mut handshake,
        "https://controlplane.tailscale.com",
    )
    .expect("build_upgrade_request should succeed");

    // URL should end with /ts2021
    assert!(
        req.url.ends_with("/ts2021"),
        "URL should end with /ts2021: {}",
        req.url
    );
    assert_eq!(req.url, "https://controlplane.tailscale.com/ts2021");

    // Check headers
    let header_map: std::collections::HashMap<&str, &str> = req
        .headers
        .iter()
        .map(|(k, v)| (k.as_str(), v.as_str()))
        .collect();

    assert_eq!(
        header_map.get("Upgrade"),
        Some(&"tailscale-control-protocol")
    );
    assert_eq!(header_map.get("Connection"), Some(&"Upgrade"));
    assert!(
        header_map.contains_key("X-Tailscale-Handshake"),
        "should have X-Tailscale-Handshake header"
    );

    // Handshake value should be valid base64
    let handshake_b64 = header_map["X-Tailscale-Handshake"];
    assert!(!handshake_b64.is_empty(), "handshake should be non-empty");
    let decoded = base64::engine::general_purpose::STANDARD
        .decode(handshake_b64)
        .expect("handshake header should be valid base64");
    assert!(
        decoded.len() > 5,
        "decoded handshake should contain framed noise message"
    );
}

#[test]
fn build_upgrade_request_strips_trailing_slash() {
    let machine_key = MachinePrivate::generate();
    let server_key = MachinePrivate::generate();
    let server_pub = server_key.public_key();

    let mut handshake = NoiseHandshake::new(machine_key, server_pub);
    let req = ControlConnection::build_upgrade_request(
        &mut handshake,
        "https://controlplane.tailscale.com/",
    )
    .expect("should succeed");

    assert_eq!(req.url, "https://controlplane.tailscale.com/ts2021");
}

#[test]
fn send_encrypts_payload() {
    // Build a full handshake to get a working ControlConnection
    let machine_key = MachinePrivate::generate();
    let server_key = MachinePrivate::generate();
    let server_pub = server_key.public_key();

    // Do the handshake manually through snow
    let params: snow::params::NoiseParams = "Noise_IK_25519_ChaChaPoly_BLAKE2s"
        .parse()
        .expect("params should parse");
    let prologue_bytes = "Tailscale Control Protocol v1".as_bytes();

    let mut initiator = snow::Builder::new(params.clone())
        .local_private_key(machine_key.as_bytes())
        .expect("set key")
        .remote_public_key(server_pub.as_bytes())
        .expect("set remote key")
        .prologue(prologue_bytes)
        .expect("set prologue")
        .build_initiator()
        .expect("build initiator");

    let params2: snow::params::NoiseParams = "Noise_IK_25519_ChaChaPoly_BLAKE2s"
        .parse()
        .expect("params should parse");

    let mut responder = snow::Builder::new(params2)
        .local_private_key(server_key.as_bytes())
        .expect("set key")
        .prologue(prologue_bytes)
        .expect("set prologue")
        .build_responder()
        .expect("build responder");

    let mut buf = vec![0u8; 65535];
    let mut payload_buf = vec![0u8; 65535];

    let len = initiator.write_message(&[], &mut buf).expect("write msg1");
    responder
        .read_message(&buf[..len], &mut payload_buf)
        .expect("read msg1");

    let len = responder.write_message(&[], &mut buf).expect("write msg2");
    initiator
        .read_message(&buf[..len], &mut payload_buf)
        .expect("read msg2");

    let client_transport = dictyon::noise::NoiseTransport::from_snow(
        initiator
            .into_transport_mode()
            .expect("initiator transport"),
    );

    let mut conn = ControlConnection::from_transport(client_transport);

    let plaintext = b"test control message";
    let encrypted = conn.send(plaintext).expect("send should succeed");

    // Encrypted output should differ from plaintext
    assert_ne!(
        &encrypted[3..],
        plaintext,
        "encrypted payload should differ from plaintext"
    );
    // And should be longer (due to auth tag)
    assert!(
        encrypted.len() > plaintext.len(),
        "encrypted should be longer than plaintext"
    );

    // The other side reads it, and what it sends back is received.
    let mut peer = ControlConnection::from_transport(dictyon::noise::NoiseTransport::from_snow(
        responder.into_transport_mode().expect("responder transport"),
    ));
    assert_eq!(peer.receive(&encrypted[3..]).expect("receive"), plaintext);
    let reply = peer.send(b"reply").expect("send");
    assert_eq!(conn.receive(&reply[3..]).expect("receive"), b"reply");
    match conn.receive(&reply[3..]) {
        Err(TransportError::Noise { source: NoiseError::DecryptionFailed { message } }) => {
            assert_eq!(message, "decrypt error");
        }
        other => panic!("unexpected outcome: {other:?}"),
    }
    match conn.send(&vec![0u8; 5000]) {
        Err(error) => assert_eq!(
            error.to_string(),
            "noise error: noise handshake failed: payload too large: 5000 > 4096"
        ),
        Ok(_) => panic!("too large"),
    }
}

fn new_handshake() -> NoiseHandshake {
    let server = MachinePrivate::generate();
    NoiseHandshake::new(MachinePrivate::generate(), server.public_key())
}

#[test]
fn empty_url_is_refused_and_leaves_the_handshake_alone() {
    let mut handshake = new_handshake();
    match ControlConnection::build_upgrade_request(&mut handshake, "") {
        Err(TransportError::InvalidUrl { url }) => assert_eq!(url, ""),
        other => panic!("unexpected outcome: {other:?}"),
    }
    assert!(handshake.initiation_message().is_ok());
}

#[test]
fn second_upgrade_request_is_refused() {
    let mut handshake = new_handshake();
    assert!(ControlConnection::build_upgrade_request(&mut handshake, "https://h").is_ok());
    match ControlConnection::build_upgrade_request(&mut handshake, "https://h") {
        Err(error) => assert_eq!(
            error.to_string(),
            "noise error: invalid state: initiation already generated"
        ),
        Ok(_) => panic!("sent twice"),
    }
}

#[test]
fn prepared_request_is_exact() {
    let request = prepare_upgrade_request("https://h///", b"\x01\x00\x01\x00\x02hi");
    assert_eq!(request.url, "https://h/ts2021");
    let headers: Vec<(&str, &str)> = request
        .headers
        .iter()
        .map(|(k, v)| (k.as_str(), v.as_str()))
        .collect();
    assert_eq!(
        headers,
        vec![
            ("Upgrade", "tailscale-control-protocol"),
            ("Connection", "Upgrade"),
            ("X-Tailscale-Handshake", "AQABAAJoaQ=="),
        ]
    );
    assert_eq!(
        prepare_upgrade_request("https://h", b"\xfb\xff\xfe").headers[2].1,
        "+//+"
    );
    assert_eq!(prepare_upgrade_request("/", b"").url, "/ts2021");
    let values: Vec<String> = [&b""[..], b"f", b"fo", b"foo", b"foob", b"fooba", b"foobar"]
        .iter()
        .map(|bytes| prepare_upgrade_request("h", bytes).headers[2].1.clone())
        .collect();
    assert_eq!(
        values,
        ["", "Zg==", "Zm8=", "Zm9v", "Zm9vYg==", "Zm9vYmE=", "Zm9vYmFy"]
    );
}

#[test]
fn transport_error_text_is_exact() {
    let error = TransportError::InvalidUrl { url: "nowhere".to_string() };
    assert_eq!(error.to_string(), "invalid control URL: nowhere");
    let error = TransportError::from(NoiseError::InvalidState { message: "odd".to_string() });
    assert_eq!(error.to_string(), "noise error: invalid state: odd");
}
