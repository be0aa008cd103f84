use butterfly::{deserialize_packets, serialize_packets, BytesPacket, DecodeError};

fn packets(payloads: &[&[u8]]) -> Vec<BytesPacket> {
    payloads.iter().map(|p| BytesPacket::new(p.to_vec())).collect()
}

fn payloads(seq: &Vec<BytesPacket>) -> Vec<Vec<u8>> {
    seq.iter().map(|p| p.bytes().clone()).collect()
}

#[test]
fn round_trip_returns_the_original() {
    let seq = packets(&[b"USER foo", b"", b"PASS bar", b"\x00\xff\x7f"]);
    let bytes = serialize_packets(&seq);
    let back = deserialize_packets(&bytes).unwrap();
    assert_eq!(payloads(&back), payloads(&seq));
}

#[test]
fn round_trip_of_empty_sequence() {
    let seq: Vec<BytesPacket> = Vec::new();
    let bytes = serialize_packets(&seq);
    assert_eq!(bytes, vec![0, 0, 0, 0]);
    let back = deserialize_packets(&bytes).unwrap();
    assert_eq!(back.len(), 0);
}

#[test]
fn exact_encoding_of_one_packet() {
    let seq = packets(&[b"A"]);
    let bytes = serialize_packets(&seq);
    assert_eq!(bytes, vec![1, 0, 0, 0, 1, 0, 0, 0, 0x41]);
}

#[test]
fn lengths_are_little_endian() {
    let seq = packets(&[&[0u8; 300]]);
    let bytes = serialize_packets(&seq);
    assert_eq!(&bytes[0..4], &[1, 0, 0, 0]);
    assert_eq!(&bytes[4..8], &[44, 1, 0, 0]);
    assert_eq!(bytes.len(), 308);
}

#[test]
fn truncated_header_is_malformed() {
    assert_eq!(deserialize_packets(&vec![1, 2]).unwrap_err(), DecodeError::Malformed);
}

#[test]
fn truncated_payload_is_malformed() {
    // One packet announced with 5 payload bytes, only 2 present.
    let bytes = vec![1, 0, 0, 0, 5, 0, 0, 0, 1, 2];
    assert_eq!(deserialize_packets(&bytes).unwrap_err(), DecodeError::Malformed);
}

#[test]
fn trailing_bytes_are_malformed() {
    let bytes = vec![0, 0, 0, 0, 9];
    assert_eq!(deserialize_packets(&bytes).unwrap_err(), DecodeError::Malformed);
}

#[test]
fn count_without_items_is_malformed() {
    let bytes = vec![2, 0, 0, 0];
    assert_eq!(deserialize_packets(&bytes).unwrap_err(), DecodeError::Malformed);
}
