//! Frames and key text on concrete values.

use dictyon::frame::{build_frame_announcing, build_initiation_frame, read_announced_len};
use dictyon::keys::{DiscoPublic, MachinePublic, NodePublic};
use dictyon::noise::unframe_response;

fn build_frame(kind: u8, body: &[u8]) -> Vec<u8> {
    build_frame_announcing(kind, body.len(), body)
}

#[test]
fn frames_give_back_type_length_and_body() {
    for len in [0usize, 1, 255, 256, 257, 65535] {
        let body: Vec<u8> = (0..len).map(|i| (i % 253) as u8).collect();
        let framed = build_frame(0x02, &body);
        assert_eq!(framed[0], 0x02);
        assert_eq!(read_announced_len(framed[1], framed[2]), len);
        assert_eq!(&framed[3..], &body[..]);
        assert_eq!(unframe_response(&framed).expect("whole"), &body[..]);
    }
}

#[test]
fn initiation_frames_start_with_the_version() {
    let framed = build_initiation_frame(&[7; 300]);
    assert_eq!(&framed[..5], &[1, 0, 1, 1, 44]);
    assert_eq!(&framed[5..], &[7; 300]);
}

#[test]
fn different_frames_differ() {
    assert_ne!(build_frame(2, &[1]), build_frame(4, &[1]));
    assert_ne!(build_frame(2, &[1]), build_frame(2, &[2]));
    assert_ne!(build_frame(2, &[]), build_frame(2, &[0]));
}

#[test]
fn a_response_cut_short_anywhere_is_refused() {
    let framed = build_frame(0x02, &[5; 40]);
    for kept in 0..framed.len() {
        assert!(unframe_response(&framed[..kept]).is_err(), "{kept}");
    }
    let mut longer = framed.clone();
    longer.extend_from_slice(&[1, 2, 3]);
    assert_eq!(unframe_response(&longer).expect("whole"), &[5; 40]);
}

#[test]
fn different_keys_have_different_text() {
    let mut seen: Vec<String> = Vec::new();
    for i in 0..32 {
        let mut bytes = [0u8; 32];
        bytes[i] = 0x10;
        seen.push(MachinePublic::from_bytes(bytes).to_hex());
        seen.push(NodePublic::from_bytes(bytes).to_hex());
        seen.push(DiscoPublic::from_bytes(bytes).to_hex());
    }
    let total = seen.len();
    seen.sort();
    seen.dedup();
    assert_eq!(seen.len(), total);
}
