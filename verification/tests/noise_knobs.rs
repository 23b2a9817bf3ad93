//! Handshakes and sessions with explicit knobs.

use dictyon::config::{NoiseConfig, DEFAULT_MAX_FRAME_PAYLOAD};
use dictyon::frame::{MSG_TYPE_INITIATION, MSG_TYPE_RESPONSE, MSG_TYPE_TRANSPORT};
use dictyon::keys::MachinePrivate;
use dictyon::noise::{
    frame_ciphertext, frame_initiation, prologue, unframe_response, NoiseError, NoiseHandshake,
    NoiseTransport, NOISE_PARAMS, TAG_LEN,
};
use snow::{Builder, HandshakeState, TransportState};

const MAX_FRAME_PAYLOAD: usize = DEFAULT_MAX_FRAME_PAYLOAD;

/// Helper: perform a full handshake and return paired raw snow transport
/// states. Lets callers wrap with whichever [`NoiseConfig`] they want to
/// exercise.
fn paired_snow_transports() -> (TransportState, TransportState) {
    let machine_key = MachinePrivate::generate();
    let server_key = MachinePrivate::generate();
    let server_pub = server_key.public_key();

    // Initiator
    let params = NOISE_PARAMS
        .parse::<snow::params::NoiseParams>()
        .expect("params should parse");
    let prologue_bytes = prologue();

    let mut initiator = Builder::new(params)
        .local_private_key(machine_key.as_bytes())
        .expect("local_private_key should succeed")
        .remote_public_key(server_pub.as_bytes())
        .expect("remote_public_key should succeed")
        .prologue(&prologue_bytes)
        .expect("prologue should succeed")
        .build_initiator()
        .expect("build_initiator should succeed");

    // Responder
    let params2 = NOISE_PARAMS
        .parse::<snow::params::NoiseParams>()
        .expect("params should parse");
    let mut responder = Builder::new(params2)
        .local_private_key(server_key.as_bytes())
        .expect("local_private_key should succeed")
        .prologue(&prologue_bytes)
        .expect("prologue should succeed")
        .build_responder()
        .expect("build_responder should succeed");

    let mut buf = vec![0u8; 65535];
    let mut payload = vec![0u8; 65535];

    // msg1: initiator -> responder
    let len = initiator.write_message(&[], &mut buf).expect("write msg1");
    responder
        .read_message(&buf[..len], &mut payload)
        .expect("read msg1");

    // msg2: responder -> initiator
    let len = responder.write_message(&[], &mut buf).expect("write msg2");
    initiator
        .read_message(&buf[..len], &mut payload)
        .expect("read msg2");

    let client_state = initiator
        .into_transport_mode()
        .expect("initiator transport");
    let server_state = responder
        .into_transport_mode()
        .expect("responder transport");

    (client_state, server_state)
}

/// Helper: perform a full handshake and return paired transport states
/// wrapped with default `NoiseConfig`.
fn paired_transports() -> (NoiseTransport, NoiseTransport) {
    let (client_state, server_state) = paired_snow_transports();
    (
        NoiseTransport::from_snow_with_config(client_state, NoiseConfig::default()),
        NoiseTransport::from_snow_with_config(server_state, NoiseConfig::default()),
    )
}

/// Helper: build a snow responder for testing against our initiator.
fn build_responder(server_private: &[u8; 32]) -> Result<HandshakeState, NoiseError> {
    let params = NOISE_PARAMS.parse().map_err(NoiseError::from)?;
    let prologue = prologue();
    let responder = Builder::new(params)
        .local_private_key(server_private)?
        .prologue(&prologue)?
        .build_responder()?;
    Ok(responder)
}

#[test]
fn tests_handshake_initiation_produces_message() {
    let machine_key = MachinePrivate::generate();
    let server_key = MachinePrivate::generate();
    let server_pub = server_key.public_key();

    let mut handshake = NoiseHandshake::with_config(machine_key, server_pub, NoiseConfig::default());
    let msg = handshake
        .initiation_message()
        .expect("initiation should succeed");

    // Framed message: 2B version + 1B type + 2B length + noise payload
    assert!(msg.len() > 5, "message should contain header + payload");

    // Check version (LE u16)
    assert_eq!(msg[0], 0x01); // version 1 low byte
    assert_eq!(msg[1], 0x00); // version 1 high byte

    // Check message type
    assert_eq!(msg[2], MSG_TYPE_INITIATION);
}

#[test]
fn tests_noise_ik_handshake_completes() {
    let machine_key = MachinePrivate::generate();
    let server_key = MachinePrivate::generate();
    let server_pub = server_key.public_key();

    // --- Initiator side ---
    let mut handshake = NoiseHandshake::with_config(machine_key, server_pub, NoiseConfig::default());
    let init_msg = handshake
        .initiation_message()
        .expect("initiation should succeed");

    // --- Responder side (simulated server) ---
    let mut responder =
        build_responder(server_key.as_bytes()).expect("responder build should succeed");

    // Strip our framing to get raw noise message
    let payload_len = u16::from_be_bytes([init_msg[3], init_msg[4]]) as usize;
    let noise_init = &init_msg[5..5 + payload_len];

    let mut payload_buf = vec![0u8; 256];
    let _pt_len = responder
        .read_message(noise_init, &mut payload_buf)
        .expect("responder should read msg1");

    // Responder writes msg2
    let mut resp_noise = vec![0u8; 256];
    let resp_noise_len = responder
        .write_message(&[], &mut resp_noise)
        .expect("responder should write msg2");

    // Frame the response: [1B type][2B BE len][noise_msg]
    let mut framed_resp = Vec::new();
    framed_resp.push(MSG_TYPE_RESPONSE);
    let len_be = u16::try_from(resp_noise_len)
        .expect("response length fits u16")
        .to_be_bytes();
    framed_resp.extend_from_slice(&len_be);
    framed_resp.extend_from_slice(&resp_noise[..resp_noise_len]);

    // --- Complete handshake on initiator ---
    let _transport = handshake
        .process_response(&framed_resp)
        .expect("handshake completion should succeed");
}

#[test]
fn tests_transport_encrypt_decrypt_round_trips() {
    // Do a full handshake to get paired transport states.
    let (mut client_transport, mut server_transport) = paired_transports();

    let plaintext = b"hello from the dictyon client";
    let frame = client_transport
        .encrypt(plaintext)
        .expect("encrypt should succeed");

    // Verify it's framed
    assert_eq!(frame[0], MSG_TYPE_TRANSPORT);

    // Strip frame header for decryption
    let ct_len = u16::from_be_bytes([frame[1], frame[2]]) as usize;
    let ciphertext = &frame[3..3 + ct_len];

    let decrypted = server_transport
        .decrypt(ciphertext)
        .expect("decrypt should succeed");
    assert_eq!(&decrypted, plaintext);
}

#[test]
fn tests_decrypt_wrong_key_fails() {
    let (mut client_transport, _server_transport) = paired_transports();

    let plaintext = b"secret message";
    let frame = client_transport
        .encrypt(plaintext)
        .expect("encrypt should succeed");

    // Strip frame header
    let ct_len = u16::from_be_bytes([frame[1], frame[2]]) as usize;
    let ciphertext = &frame[3..3 + ct_len];

    // Build a completely different transport (wrong keys)
    let (_other_client, mut other_server) = paired_transports();

    let result = other_server.decrypt(ciphertext);
    assert!(result.is_err(), "decrypting with wrong key should fail");
}

/// Full IK round-trip using the public `NoiseHandshake` API on the
/// initiator side and a raw `snow` responder on the server side.
#[test]
fn tests_handshake_full_ik_round_trip() {
    let machine_key = MachinePrivate::generate();
    let server_key = MachinePrivate::generate();
    let server_pub = server_key.public_key();

    // --- Initiator: generate msg1 via NoiseHandshake ---
    let mut handshake = NoiseHandshake::with_config(machine_key, server_pub, NoiseConfig::default());
    let init_frame = handshake
        .initiation_message()
        .expect("initiation should succeed");

    // Extract noise payload from frame: [2B version][1B type][2B BE len][noise...]
    let payload_len = u16::from_be_bytes([init_frame[3], init_frame[4]]) as usize;
    let noise_init = &init_frame[5..5 + payload_len];

    // --- Responder: process msg1, generate msg2 ---
    let mut responder =
        build_responder(server_key.as_bytes()).expect("responder build should succeed");

    let mut payload_buf = vec![0u8; 256];
    responder
        .read_message(noise_init, &mut payload_buf)
        .expect("responder should read msg1");

    let mut resp_noise = vec![0u8; 256];
    let resp_noise_len = responder
        .write_message(&[], &mut resp_noise)
        .expect("responder should write msg2");

    // Frame the response: [1B type][2B BE len][noise...]
    let mut framed_resp = Vec::new();
    framed_resp.push(MSG_TYPE_RESPONSE);
    framed_resp.extend_from_slice(
        &u16::try_from(resp_noise_len)
            .expect("fits u16")
            .to_be_bytes(),
    );
    framed_resp.extend_from_slice(&resp_noise[..resp_noise_len]);

    // --- Initiator: complete handshake ---
    let mut client_transport = handshake
        .process_response(&framed_resp)
        .expect("handshake completion should succeed");

    // --- Both sides now have transport; verify they can communicate ---
    let mut server_transport = NoiseTransport::from_snow(
        responder
            .into_transport_mode()
            .expect("responder into transport"),
    );

    let plaintext = b"round-trip verified";
    let frame = client_transport
        .encrypt(plaintext)
        .expect("client encrypt should succeed");
    let ct_len = u16::from_be_bytes([frame[1], frame[2]]) as usize;
    let decrypted = server_transport
        .decrypt(&frame[3..3 + ct_len])
        .expect("server decrypt should succeed");
    assert_eq!(decrypted.as_slice(), plaintext);
}

/// After handshake both directions encrypt and decrypt correctly.
#[test]
fn tests_transport_encrypt_decrypt_round_trip() {
    let (mut client, mut server) = paired_transports();

    // Client → Server
    let plaintext_cs = b"hello world";
    let frame_cs = client.encrypt(plaintext_cs).expect("client encrypt");
    let ct_len_cs = u16::from_be_bytes([frame_cs[1], frame_cs[2]]) as usize;
    let decrypted_cs = server
        .decrypt(&frame_cs[3..3 + ct_len_cs])
        .expect("server decrypt");
    assert_eq!(decrypted_cs.as_slice(), plaintext_cs);

    // Server → Client
    let plaintext_sc = b"goodbye";
    let frame_sc = server.encrypt(plaintext_sc).expect("server encrypt");
    let ct_len_sc = u16::from_be_bytes([frame_sc[1], frame_sc[2]]) as usize;
    let decrypted_sc = client
        .decrypt(&frame_sc[3..3 + ct_len_sc])
        .expect("client decrypt");
    assert_eq!(decrypted_sc.as_slice(), plaintext_sc);
}

/// Handshake with a mismatched server key must fail or produce
/// undecryptable output.
#[test]
fn tests_transport_decrypt_with_wrong_key_fails() {
    let (mut client, _correct_server) = paired_transports();

    let frame = client.encrypt(b"secret").expect("encrypt should succeed");
    let ct_len = u16::from_be_bytes([frame[1], frame[2]]) as usize;
    let ciphertext = &frame[3..3 + ct_len];

    // Build a completely independent session (different keys)
    let (_other_client, mut wrong_server) = paired_transports();

    let result = wrong_server.decrypt(ciphertext);
    assert!(result.is_err(), "decrypting with wrong key must fail");
}

/// Exact byte layout of the initiation frame.
#[test]
fn tests_initiation_frame_has_correct_structure() {
    let machine_key = MachinePrivate::generate();
    let server_key = MachinePrivate::generate();
    let server_pub = server_key.public_key();

    let mut handshake = NoiseHandshake::with_config(machine_key, server_pub, NoiseConfig::default());
    let frame = handshake
        .initiation_message()
        .expect("initiation should succeed");

    // Bytes 0-1: version LE u16 = 1
    let version = u16::from_le_bytes([frame[0], frame[1]]);
    assert_eq!(version, 1, "version should be 1");

    // Byte 2: type = 0x01
    assert_eq!(frame[2], MSG_TYPE_INITIATION, "type byte should be 0x01");

    // Bytes 3-4: length BE u16
    let declared_len = u16::from_be_bytes([frame[3], frame[4]]) as usize;

    // Remaining bytes: the noise message
    assert_eq!(
        frame.len(),
        5 + declared_len,
        "frame length should match 5-byte header + declared payload"
    );

    // IK msg1: 32 (e) + 32 (s encrypted) + 16 (tag) + 16 (empty payload tag) = 96 bytes
    assert_eq!(declared_len, 96, "IK msg1 noise payload should be 96 bytes");
}

/// A framed response with the wrong message type byte must be rejected.
#[test]
fn tests_process_response_rejects_wrong_type_byte() {
    let machine_key = MachinePrivate::generate();
    let server_key = MachinePrivate::generate();
    let server_pub = server_key.public_key();

    let mut handshake = NoiseHandshake::with_config(machine_key, server_pub, NoiseConfig::default());
    handshake
        .initiation_message()
        .expect("initiation should succeed");

    // Frame with wrong type (0x03 instead of 0x02)
    let mut bad_frame = vec![0x03u8, 0x00, 0x20];
    bad_frame.extend_from_slice(&[0u8; 32]);
    let result = handshake.process_response(&bad_frame);
    assert!(result.is_err(), "wrong type byte must be rejected");
    let err_msg = result.err().map(|e| format!("{e}")).unwrap_or_default();
    assert!(
        err_msg.contains("0x03"),
        "error should name the unexpected byte: {err_msg}"
    );
}

/// A frame shorter than the 3-byte header must be rejected.
#[test]
fn tests_process_response_rejects_truncated_frame() {
    let machine_key = MachinePrivate::generate();
    let server_key = MachinePrivate::generate();
    let server_pub = server_key.public_key();

    let mut handshake = NoiseHandshake::with_config(machine_key, server_pub, NoiseConfig::default());
    handshake
        .initiation_message()
        .expect("initiation should succeed");

    // Only 2 bytes — shorter than the 3-byte minimum header
    let truncated = vec![MSG_TYPE_RESPONSE, 0x00];
    let result = handshake.process_response(&truncated);
    assert!(result.is_err(), "truncated frame must be rejected");
}

/// Transport frame has the correct `[1B type][2B BE len][ciphertext]`
/// layout, and the ciphertext is `plaintext_len` + 16 (Poly1305 tag) bytes.
#[test]
fn tests_transport_frame_has_correct_structure() {
    let (mut client, _server) = paired_transports();

    let plaintext = b"structure check";
    let frame = client.encrypt(plaintext).expect("encrypt should succeed");

    // Byte 0: type = 0x04
    assert_eq!(frame[0], MSG_TYPE_TRANSPORT, "type byte should be 0x04");

    // Bytes 1-2: length BE u16
    let declared_len = u16::from_be_bytes([frame[1], frame[2]]) as usize;
    assert_eq!(
        frame.len(),
        3 + declared_len,
        "frame length should match 3-byte header + declared length"
    );

    // Ciphertext = plaintext + 16-byte Poly1305 tag
    assert_eq!(
        declared_len,
        plaintext.len() + TAG_LEN,
        "ciphertext should be plaintext + 16-byte tag"
    );
}

/// A 4096-byte payload (the maximum) encrypts without error.
#[test]
fn tests_transport_max_payload_accepted() {
    let (mut client, mut server) = paired_transports();

    let plaintext = vec![0xABu8; MAX_FRAME_PAYLOAD];
    let frame = client
        .encrypt(&plaintext)
        .expect("max-size payload should encrypt successfully");

    let ct_len = u16::from_be_bytes([frame[1], frame[2]]) as usize;
    let decrypted = server
        .decrypt(&frame[3..3 + ct_len])
        .expect("max-size payload should decrypt successfully");
    assert_eq!(decrypted, plaintext);
}

/// Empty plaintext round-trips through encrypt/decrypt without error.
#[test]
fn tests_transport_empty_payload_round_trips() {
    let (mut client, mut server) = paired_transports();

    let frame = client
        .encrypt(&[])
        .expect("empty payload should encrypt successfully");

    // Frame should still have header + 16-byte auth tag
    assert_eq!(
        frame.len(),
        3 + TAG_LEN,
        "empty plaintext frame should be header + tag"
    );

    let ct_len = u16::from_be_bytes([frame[1], frame[2]]) as usize;
    let decrypted = server
        .decrypt(&frame[3..3 + ct_len])
        .expect("empty payload should decrypt successfully");
    assert!(
        decrypted.is_empty(),
        "decrypted empty payload should be empty"
    );
}

/// The prologue names the protocol and its version.
#[test]
fn prologue_is_exact() {
    assert_eq!(prologue(), b"Tailscale Control Protocol v1".to_vec());
}

/// The initiation is sent once; a second request is refused and ends the
/// handshake.
#[test]
fn initiation_is_sent_once() {
    let server = MachinePrivate::generate();
    let mut handshake = NoiseHandshake::new(MachinePrivate::generate(), server.public_key());
    assert!(handshake.initiation_message().is_ok());
    for _ in 0..2 {
        match handshake.initiation_message() {
            Err(NoiseError::InvalidState { message }) => {
                assert_eq!(message, "initiation already generated");
            }
            other => panic!("unexpected outcome: {other:?}"),
        }
    }
    match handshake.process_response(&[MSG_TYPE_RESPONSE, 0, 0]).err() {
        Some(NoiseError::InvalidState { message }) => {
            assert_eq!(message, "handshake already completed");
        }
        other => panic!("unexpected outcome: {other:?}"),
    }
}

/// A response before the initiation is refused.
#[test]
fn response_before_initiation_is_refused() {
    let server = MachinePrivate::generate();
    let handshake = NoiseHandshake::new(MachinePrivate::generate(), server.public_key());
    match handshake.process_response(&[MSG_TYPE_RESPONSE, 0, 0]).err() {
        Some(NoiseError::InvalidState { message }) => assert_eq!(message, "initiation not yet sent"),
        other => panic!("unexpected outcome: {other:?}"),
    }
}

fn failure_of(response: &[u8]) -> NoiseError {
    let server = MachinePrivate::generate();
    let mut handshake = NoiseHandshake::new(MachinePrivate::generate(), server.public_key());
    handshake.initiation_message().expect("initiation");
    handshake.process_response(response).err().expect("refused")
}

/// Each way in which a response can be malformed has its own error.
#[test]
fn malformed_responses_are_told_apart() {
    assert_eq!(failure_of(&[]).to_string(), "noise handshake failed: response too short");
    assert_eq!(failure_of(&[2, 0]).to_string(), "noise handshake failed: response too short");
    assert_eq!(
        failure_of(&[0xab, 0, 0]).to_string(),
        "noise handshake failed: unexpected message type: 0xab"
    );
    assert_eq!(
        failure_of(&[2, 0, 4, 1, 2, 3]).to_string(),
        "noise handshake failed: response payload truncated"
    );
    assert_eq!(failure_of(&[2, 0, 0]).to_string(), "snow error: input error");
    let mut short = vec![2u8, 0, 47];
    short.extend_from_slice(&[9u8; 47]);
    assert_eq!(failure_of(&short).to_string(), "snow error: decrypt error");
    let mut forged = vec![2u8, 0, 48];
    forged.extend_from_slice(&[9u8; 48]);
    assert_eq!(failure_of(&forged).to_string(), "snow error: decrypt error");
}

/// A scratch buffer that is too small for the initiation is an error of the
/// Noise library.
#[test]
fn small_scratch_buffers_are_refused() {
    for scratch in [0usize, 31, 32, 63, 80, 95] {
        let server = MachinePrivate::generate();
        let config = NoiseConfig { max_frame_payload: 4096, handshake_scratch_bytes: scratch };
        assert!(config.allows_initiation());
        let mut handshake = NoiseHandshake::with_config(
            MachinePrivate::generate(),
            server.public_key(),
            config,
        );
        match handshake.initiation_message() {
            Err(NoiseError::Snow { source }) => assert_eq!(source.to_string(), "input error"),
            other => panic!("unexpected outcome: {other:?}"),
        }
    }
    let exact = NoiseConfig { max_frame_payload: 4096, handshake_scratch_bytes: 96 };
    let server = MachinePrivate::generate();
    let mut handshake =
        NoiseHandshake::with_config(MachinePrivate::generate(), server.public_key(), exact);
    assert_eq!(handshake.initiation_message().expect("fits").len(), 5 + 96);
}

/// The sizes that the Noise library cannot cope with are known.
#[test]
fn unusable_scratch_sizes_are_known() {
    let sized = |n: usize| NoiseConfig { max_frame_payload: 4096, handshake_scratch_bytes: n };
    assert!(sized(63).allows_initiation());
    assert!(!sized(64).allows_initiation());
    assert!(!sized(79).allows_initiation());
    assert!(sized(80).allows_initiation());
    assert!(!sized(usize::MAX).allows_initiation());
}

/// Bytes behind the announced length of a response are ignored, and the
/// message can carry a payload.
#[test]
fn bytes_behind_a_response_are_ignored() {
    let server = MachinePrivate::generate();
    let mut handshake = NoiseHandshake::new(MachinePrivate::generate(), server.public_key());
    let init = handshake.initiation_message().expect("initiation");
    let mut responder = build_responder(server.as_bytes()).expect("responder");
    let mut scratch = vec![0u8; 1024];
    responder.read_message(&init[5..], &mut scratch).expect("read");
    let n = responder.write_message(b"early payload", &mut scratch).expect("write");
    let mut framed = vec![MSG_TYPE_RESPONSE, (n / 256) as u8, (n % 256) as u8];
    framed.extend_from_slice(&scratch[..n]);
    framed.extend_from_slice(b"what comes next");
    let mut client = handshake.process_response(&framed).ok().expect("completes");
    let mut peer = NoiseTransport::from_snow(responder.into_transport_mode().expect("transport"));
    let frame = peer.encrypt(b"hello").expect("encrypt");
    assert_eq!(client.decrypt(&frame[3..]).expect("decrypt"), b"hello");
}

/// The framing of messages that are handed over by the Noise library.
#[test]
fn framing_is_exact() {
    assert_eq!(frame_initiation(&[9, 8]).expect("fits"), vec![1, 0, 1, 0, 2, 9, 8]);
    assert_eq!(frame_ciphertext(&[9, 8], 2).expect("fits"), vec![4, 0, 2, 9, 8]);
    assert_eq!(frame_ciphertext(&[9, 8], 258).expect("fits"), vec![4, 1, 2, 9, 8]);
    assert_eq!(
        frame_initiation(&vec![0; 65536]).err().expect("refused").to_string(),
        "noise handshake failed: initiation message too large"
    );
    assert_eq!(
        frame_ciphertext(&[9, 8], 65536).err().expect("refused").to_string(),
        "noise handshake failed: ciphertext too large for frame"
    );
    assert_eq!(unframe_response(&[2, 0, 2, 9, 8, 7]).expect("found"), &[9, 8]);
}
