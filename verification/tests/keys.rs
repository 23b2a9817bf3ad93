//! Keys and their text form.

use dictyon::keys::{
    hex_decode, hex_encode, hex_nibble, DiscoPrivate, DiscoPublic, KeyError, MachinePrivate,
    MachinePublic, NodePrivate, NodePublic, KEY_LEN,
};

#[test]
fn generate_machine_key_produces_32_bytes() {
    let key = MachinePrivate::generate();
    assert_eq!(key.as_bytes().len(), 32);
}

#[test]
fn public_key_derivation_is_deterministic() {
    let priv_key = MachinePrivate::generate();
    let pub1 = priv_key.public_key();
    let pub2 = priv_key.public_key();
    assert_eq!(pub1, pub2);
}

#[test]
fn private_key_debug_redacts() {
    let key = MachinePrivate::generate();
    let debug = format!("{key:?}");
    assert!(
        debug.contains("[REDACTED]"),
        "debug output should redact key material: {debug}"
    );
    // The output should be like `MachinePrivate("[REDACTED]")`, without raw
    // hex bytes or byte arrays.
    assert!(
        !debug.contains("0x"),
        "debug output should not contain raw hex: {debug}"
    );
}

#[test]
fn from_bytes_round_trips() {
    let original = MachinePrivate::generate();
    let bytes = *original.as_bytes();
    let restored = MachinePrivate::from_bytes(bytes);
    assert_eq!(original.as_bytes(), restored.as_bytes());

    let pub_original = original.public_key();
    let pub_bytes = *pub_original.as_bytes();
    let pub_restored = MachinePublic::from_bytes(pub_bytes);
    assert_eq!(pub_original, pub_restored);
}

#[test]
fn to_hex_includes_prefix() {
    let priv_key = MachinePrivate::generate();
    let pub_key = priv_key.public_key();

    let priv_hex = priv_key.to_hex();
    assert!(priv_hex.starts_with("privkey:"), "private hex: {priv_hex}");
    // prefix + 64 hex chars
    assert_eq!(priv_hex.len(), "privkey:".len() + 64);

    let pub_hex = pub_key.to_hex();
    assert!(pub_hex.starts_with("mkey:"), "public hex: {pub_hex}");
    assert_eq!(pub_hex.len(), "mkey:".len() + 64);

    // Node key prefix
    let node_priv = NodePrivate::generate();
    let node_pub = node_priv.public_key();
    assert!(node_pub.to_hex().starts_with("nodekey:"));

    // Disco key prefix
    let disco_priv = DiscoPrivate::generate();
    let disco_pub = disco_priv.public_key();
    assert!(disco_pub.to_hex().starts_with("discokey:"));
}

#[test]
fn different_keys_produce_different_public_keys() {
    let key1 = MachinePrivate::generate();
    let key2 = MachinePrivate::generate();
    assert_ne!(key1.public_key(), key2.public_key());
}

#[test]
fn node_key_round_trips() {
    let priv_key = NodePrivate::generate();
    let bytes = *priv_key.as_bytes();
    let restored = NodePrivate::from_bytes(bytes);
    assert_eq!(priv_key.public_key(), restored.public_key());
}

#[test]
fn disco_key_round_trips() {
    let priv_key = DiscoPrivate::generate();
    let bytes = *priv_key.as_bytes();
    let restored = DiscoPrivate::from_bytes(bytes);
    assert_eq!(priv_key.public_key(), restored.public_key());
}

fn bytes_of(hex: &str) -> [u8; KEY_LEN] {
    let decoded = hex_decode(hex).expect("valid hex");
    let mut bytes = [0u8; KEY_LEN];
    bytes.copy_from_slice(&decoded);
    bytes
}

/// A widely published key pair.
#[test]
fn public_keys_match_the_published_vector() {
    let private = bytes_of("77076d0a7318a57d3c16c17251b26645df4c2f87ebc0992ab177fba51db92c2a");
    let public = "8520f0098930a754748b7ddcb43ef75a0dbf3a0d26381af4eba4a98eaa9b4e6a";
    assert_eq!(
        MachinePrivate::from_bytes(private).public_key().to_hex(),
        format!("mkey:{public}")
    );
    assert_eq!(
        NodePrivate::from_bytes(private).public_key().to_hex(),
        format!("nodekey:{public}")
    );
    assert_eq!(
        DiscoPrivate::from_bytes(private).public_key().to_hex(),
        format!("discokey:{public}")
    );
}

#[test]
fn generated_keys_differ() {
    assert_ne!(
        MachinePrivate::generate().as_bytes(),
        MachinePrivate::generate().as_bytes()
    );
    assert_ne!(NodePrivate::generate().as_bytes(), NodePrivate::generate().as_bytes());
    assert_ne!(DiscoPrivate::generate().as_bytes(), DiscoPrivate::generate().as_bytes());
}

#[test]
fn private_key_text_is_exact() {
    let mut bytes = [0u8; KEY_LEN];
    bytes[0] = 0x0f;
    bytes[31] = 0xa0;
    let expected = format!("privkey:0f{}a0", "00".repeat(30));
    assert_eq!(MachinePrivate::from_bytes(bytes).to_hex(), expected);
    assert_eq!(NodePrivate::from_bytes(bytes).to_hex(), expected);
    assert_eq!(DiscoPrivate::from_bytes(bytes).to_hex(), expected);
}

#[test]
fn debug_text_is_exact() {
    let bytes = [0x11u8; KEY_LEN];
    assert_eq!(
        format!("{:?}", MachinePrivate::from_bytes(bytes)),
        "MachinePrivate(\"[REDACTED]\")"
    );
    assert_eq!(
        format!("{:?}", NodePrivate::from_bytes(bytes)),
        "NodePrivate(\"[REDACTED]\")"
    );
    assert_eq!(
        format!("{:?}", DiscoPrivate::from_bytes(bytes)),
        "DiscoPrivate(\"[REDACTED]\")"
    );
    let digits = "11".repeat(32);
    assert_eq!(
        format!("{:?}", MachinePublic::from_bytes(bytes)),
        format!("MachinePublic(\"mkey:{digits}\")")
    );
    assert_eq!(
        format!("{:?}", NodePublic::from_bytes(bytes)),
        format!("NodePublic(\"nodekey:{digits}\")")
    );
    assert_eq!(
        format!("{:?}", DiscoPublic::from_bytes(bytes)),
        format!("DiscoPublic(\"discokey:{digits}\")")
    );
}

#[test]
fn machine_public_text_round_trips() {
    let key = MachinePrivate::generate().public_key();
    assert_eq!(MachinePublic::from_hex(&key.to_hex()).expect("parses"), key);
    let upper = key.to_hex().to_uppercase().replace("MKEY:", "mkey:");
    assert_eq!(MachinePublic::from_hex(&upper).expect("parses"), key);
}

#[test]
fn hex_is_exact() {
    assert_eq!(hex_encode(&[]), "");
    assert_eq!(hex_encode(&[0x00, 0x1f, 0xff, 0xa9]), "001fffa9");
    assert_eq!(hex_decode("001fffA9").expect("valid"), vec![0x00, 0x1f, 0xff, 0xa9]);
    for b in 0u8..=255 {
        assert_eq!(hex_decode(&hex_encode(&[b])).expect("valid"), vec![b]);
    }
    assert_eq!(hex_nibble(b'7'), Ok(7));
    assert_eq!(hex_nibble(b'c'), Ok(12));
    assert_eq!(hex_nibble(b'C'), Ok(12));
    assert_eq!(hex_nibble(b'g'), Err("invalid hex digit: g".to_string()));
    assert_eq!(hex_nibble(0xe9), Err("invalid hex digit: \u{e9}".to_string()));
}

#[test]
fn key_errors_are_exact() {
    let failure = |s: &str| MachinePublic::from_hex(s).expect_err("refused");
    match failure("nodekey:00") {
        KeyError::MissingPrefix { prefix, input } => {
            assert_eq!(prefix, "mkey:");
            assert_eq!(input, "nodekey:00");
        }
        other => panic!("unexpected error: {other:?}"),
    }
    assert_eq!(
        failure("nodekey:00").to_string(),
        "key missing prefix 'mkey:': got 'nodekey:00'"
    );
    assert_eq!(failure("").to_string(), "key missing prefix 'mkey:': got ''");
    assert_eq!(
        failure("mkey:123").to_string(),
        "invalid hex in key: odd number of hex digits"
    );
    assert_eq!(failure("mkey:1x").to_string(), "invalid hex in key: invalid hex digit: x");
    assert_eq!(failure("mkey:x1zz").to_string(), "invalid hex in key: invalid hex digit: x");
    // The digits are looked at as bytes: the first byte of a two-byte character.
    assert_eq!(
        failure("mkey:\u{e9}").to_string(),
        "invalid hex in key: invalid hex digit: \u{c3}"
    );
    match failure("mkey:0102") {
        KeyError::WrongLength { expected, actual } => {
            assert_eq!((expected, actual), (32, 2));
        }
        other => panic!("unexpected error: {other:?}"),
    }
    assert_eq!(failure("mkey:").to_string(), "key length wrong: expected 32, got 0");
    assert_eq!(
        failure(&format!("mkey:{}", "00".repeat(100))).to_string(),
        "key length wrong: expected 32, got 100"
    );
}
