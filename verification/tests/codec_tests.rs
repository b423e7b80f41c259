//! Tests of the frame codec: exact wire bytes, round trips, and the three
//! ways a stream can end.

use echo_server::codec::{decode_next, encode, frame_len, Decoded, TransportError};

#[test]
fn encode_ping_exact_bytes() {
    let out = encode(&vec![b'p', b'i', b'n', b'g']);
    assert_eq!(out, vec![0u8, 0, 0, 4, b'p', b'i', b'n', b'g']);
}

#[test]
fn encode_empty_payload() {
    let out = encode(&Vec::new());
    assert_eq!(out, vec![0u8, 0, 0, 0]);
}

#[test]
fn encode_length_spans_prefix_bytes() {
    let payload = vec![7u8; 300];
    let out = encode(&payload);
    assert_eq!(out.len(), 304);
    assert_eq!(&out[0..4], &[0u8, 0, 1, 44]);
    assert_eq!(&out[4..], &payload[..]);
}

#[test]
fn frame_len_reads_big_endian() {
    assert_eq!(frame_len(&vec![0u8, 0, 0, 4]), 4);
    assert_eq!(frame_len(&vec![0u8, 0, 1, 44]), 300);
    assert_eq!(frame_len(&vec![1u8, 2, 3, 4]), 0x0102_0304);
}

#[test]
fn decode_of_encode_round_trips() {
    let cases: Vec<Vec<u8>> = vec![
        Vec::new(),
        vec![0u8],
        vec![255u8, 0, 128],
        vec![b'p', b'i', b'n', b'g'],
        (0u32..300).map(|i| (i % 256) as u8).collect(),
    ];
    for payload in cases {
        let wire = encode(&payload);
        match decode_next(&wire, 0) {
            Ok(Decoded::Frame(p)) => assert_eq!(p, payload),
            _ => panic!("a complete encoded frame must decode"),
        }
    }
}

#[test]
fn decode_at_end_is_end_of_stream() {
    let empty: Vec<u8> = Vec::new();
    assert!(matches!(decode_next(&empty, 0), Ok(Decoded::EndOfStream)));
    let wire = encode(&vec![1u8, 2]);
    assert!(matches!(decode_next(&wire, wire.len()), Ok(Decoded::EndOfStream)));
}

#[test]
fn decode_truncated_prefix_is_error() {
    for n in 1..4usize {
        let buf = vec![0u8; n];
        assert!(matches!(
            decode_next(&buf, 0),
            Err(TransportError::TruncatedPrefix)
        ));
    }
}

#[test]
fn decode_truncated_payload_is_error() {
    let buf = vec![0u8, 0, 0, 5, 1, 2];
    assert!(matches!(
        decode_next(&buf, 0),
        Err(TransportError::TruncatedPayload)
    ));
}

#[test]
fn decode_walks_two_frames_in_order() {
    let mut wire = encode(&vec![10u8, 11]);
    wire.extend(encode(&vec![20u8, 21, 22]));
    let first = match decode_next(&wire, 0) {
        Ok(Decoded::Frame(p)) => p,
        _ => panic!("first frame must decode"),
    };
    assert_eq!(first, vec![10u8, 11]);
    let next = 4 + first.len();
    let second = match decode_next(&wire, next) {
        Ok(Decoded::Frame(p)) => p,
        _ => panic!("second frame must decode"),
    };
    assert_eq!(second, vec![20u8, 21, 22]);
    assert!(matches!(
        decode_next(&wire, next + 4 + second.len()),
        Ok(Decoded::EndOfStream)
    ));
}
