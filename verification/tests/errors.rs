//! The sentences that describe errors.

use dictyon::control::ControlError;
use dictyon::error::DictyonError;
use dictyon::keys::KeyError;
use dictyon::noise::NoiseError;
use dictyon::wire::WireError;
use std::io::{Error, ErrorKind};

fn io_error() -> Error {
    Error::new(ErrorKind::Other, "no route")
}

#[test]
fn noise_error_sentences() {
    let m = || "m".to_string();
    assert_eq!(
        NoiseError::HandshakeFailed { message: m() }.to_string(),
        "noise handshake failed: m"
    );
    assert_eq!(
        NoiseError::DecryptionFailed { message: m() }.to_string(),
        "decryption failed: m"
    );
    assert_eq!(NoiseError::InvalidState { message: m() }.to_string(), "invalid state: m");
    assert_eq!(NoiseError::from(snow::Error::Input).to_string(), "snow error: input error");
    assert_eq!(NoiseError::from(snow::Error::Decrypt).describe(), "snow error: decrypt error");
}

#[test]
fn wire_error_sentences() {
    let m = || "m".to_string();
    assert_eq!(
        WireError::TcpConnect { source: io_error() }.to_string(),
        "TCP connect failed: no route"
    );
    assert_eq!(WireError::Tls { source: io_error() }.to_string(), "TLS error: no route");
    assert_eq!(
        WireError::InvalidUrl { url: m() }.to_string(),
        "invalid control URL (no host): m"
    );
    assert_eq!(
        WireError::UnexpectedStatus { status_line: m() }.to_string(),
        "expected HTTP 101, got: m"
    );
    assert_eq!(
        WireError::MalformedHeaders { message: m() }.to_string(),
        "malformed HTTP headers: m"
    );
    assert_eq!(
        WireError::KeyParse { message: m() }.to_string(),
        "key endpoint parse error: m"
    );
    let source = KeyError::WrongLength { expected: 32, actual: 5 };
    assert_eq!(
        WireError::ServerKey { source }.to_string(),
        "server key invalid: key length wrong: expected 32, got 5"
    );
    let source = NoiseError::InvalidState { message: m() };
    assert_eq!(WireError::from(source).to_string(), "noise error: invalid state: m");
    assert_eq!(WireError::Frame { message: m() }.to_string(), "frame error: m");
}

#[test]
fn sentences_take_the_text_of_the_operating_system() {
    let tls = WireError::Tls { source: io_error() };
    assert_eq!(tls.io_text(), "no route");
    assert_eq!(tls.describe_with("gone"), "TLS error: gone");
    let tcp = WireError::TcpConnect { source: io_error() };
    assert_eq!(tcp.describe_with("gone"), "TCP connect failed: gone");
    let frame = WireError::Frame { message: "m".to_string() };
    assert_eq!(frame.io_text(), "");
    assert_eq!(frame.describe_with("gone"), "frame error: m");
    assert_eq!(DictyonError::from(tls).describe_with("gone"), "wire error: TLS error: gone");
}

#[test]
fn combined_error_sentences() {
    let wire = WireError::Frame { message: "m".to_string() };
    assert_eq!(DictyonError::from(wire).to_string(), "wire error: frame error: m");
    let wire = WireError::Tls { source: io_error() };
    assert_eq!(DictyonError::from(wire).describe(), "wire error: TLS error: no route");
    let control = ControlError { message: "m".to_string() };
    assert_eq!(DictyonError::from(control).to_string(), "control error: m");
    let noise = NoiseError::InvalidState { message: "m".to_string() };
    assert_eq!(DictyonError::from(noise).to_string(), "noise error: invalid state: m");
}
