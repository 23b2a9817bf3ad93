//! Sessions with a cipher from outside the Noise library.

use dictyon::keys::MachinePrivate;
use dictyon::noise::{NoiseError, NoiseTransport, NOISE_PARAMS};
use snow::params::{CipherChoice, DHChoice, HashChoice};
use snow::resolvers::{CryptoResolver, DefaultResolver};
use snow::types::{Cipher, Dh, Random};

/// A cipher that leaves the plaintext as it is, and that claims more bytes than
/// it wrote once the handshake is over.
struct Boastful {
    claims: usize,
}

impl Cipher for Boastful {
    fn name(&self) -> &'static str {
        "Boastful"
    }

    fn set(&mut self, _key: &[u8; 32]) {}

    fn encrypt(&self, _nonce: u64, authtext: &[u8], plaintext: &[u8], out: &mut [u8]) -> usize {
        let n = plaintext.len();
        out[..n].copy_from_slice(plaintext);
        out[n..n + 16].fill(0xee);
        if authtext.is_empty() {
            self.claims
        } else {
            n + 16
        }
    }

    fn decrypt(
        &self,
        _nonce: u64,
        authtext: &[u8],
        ciphertext: &[u8],
        out: &mut [u8],
    ) -> Result<usize, snow::Error> {
        let n = ciphertext.len() - 16;
        out[..n].copy_from_slice(&ciphertext[..n]);
        if authtext.is_empty() {
            Ok(self.claims)
        } else {
            Ok(n)
        }
    }
}

struct Resolver {
    claims: usize,
}

impl CryptoResolver for Resolver {
    fn resolve_rng(&self) -> Option<Box<dyn Random>> {
        DefaultResolver.resolve_rng()
    }

    fn resolve_dh(&self, choice: &DHChoice) -> Option<Box<dyn Dh>> {
        DefaultResolver.resolve_dh(choice)
    }

    fn resolve_hash(&self, choice: &HashChoice) -> Option<Box<dyn snow::types::Hash>> {
        DefaultResolver.resolve_hash(choice)
    }

    fn resolve_cipher(&self, _choice: &CipherChoice) -> Option<Box<dyn Cipher>> {
        Some(Box::new(Boastful { claims: self.claims }))
    }
}

fn session(claims: usize) -> NoiseTransport {
    let builder = || {
        snow::Builder::with_resolver(
            NOISE_PARAMS.parse().expect("params"),
            Box::new(Resolver { claims }),
        )
    };
    let client_key = MachinePrivate::generate();
    let server_key = MachinePrivate::generate();
    let server_public = server_key.public_key();
    let mut client = builder()
        .local_private_key(client_key.as_bytes())
        .expect("key")
        .remote_public_key(server_public.as_bytes())
        .expect("key")
        .build_initiator()
        .expect("initiator");
    let mut server = builder()
        .local_private_key(server_key.as_bytes())
        .expect("key")
        .build_responder()
        .expect("responder");
    let mut message = vec![0u8; 1024];
    let mut payload = vec![0u8; 1024];
    let n = client.write_message(&[], &mut message).expect("write");
    server.read_message(&message[..n], &mut payload).expect("read");
    let n = server.write_message(&[], &mut message).expect("write");
    client.read_message(&message[..n], &mut payload).expect("read");
    NoiseTransport::from_snow(client.into_transport_mode().expect("transport"))
}

#[test]
fn frames_announce_the_length_that_the_cipher_reports() {
    let mut body = b"abc".to_vec();
    body.extend_from_slice(&[0xee; 16]);

    let mut framed = vec![4u8, 0, 19];
    framed.extend_from_slice(&body);
    assert_eq!(session(19).encrypt(b"abc").expect("true length"), framed);

    let mut framed = vec![4u8, 1, 44];
    framed.extend_from_slice(&body);
    assert_eq!(session(300).encrypt(b"abc").expect("too long"), framed);

    assert_eq!(session(2).encrypt(b"abc").expect("too short"), b"\x04\x00\x02ab");
    assert_eq!(session(0).encrypt(b"abc").expect("none"), b"\x04\x00\x00");
    match session(65536).encrypt(b"abc") {
        Err(NoiseError::HandshakeFailed { message }) => {
            assert_eq!(message, "ciphertext too large for frame");
        }
        other => panic!("unexpected outcome: {other:?}"),
    }
}

#[test]
fn plaintexts_are_no_longer_than_the_buffer() {
    let ciphertext = [7u8; 20];
    assert_eq!(session(4).decrypt(&ciphertext).expect("true length"), [7; 4]);
    assert_eq!(session(2).decrypt(&ciphertext).expect("too short"), [7; 2]);
    let all = session(500).decrypt(&ciphertext).expect("too long");
    assert_eq!(all.len(), 20);
    assert_eq!(&all[..4], &[7; 4]);
}
