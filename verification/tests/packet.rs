use craftping::packet::{
    build_latest_request, read_packet, write_packet, PacketStatus,
};

fn expect_done(r: PacketStatus) -> (i32, Vec<u8>, usize) {
    match r {
        PacketStatus::Done { packet_id, payload, consumed } => (packet_id, payload, consumed),
        other => panic!("expected a complete packet, got {:?}", other),
    }
}

#[test]
fn packet_round_trip() {
    let payload = b"{\"motd\":\"hi\"}".to_vec();
    let frame = write_packet(0, &payload);
    let (id, got, consumed) = expect_done(read_packet(&frame));
    assert_eq!(id, 0);
    assert_eq!(got, payload);
    assert_eq!(consumed, frame.len());
}

#[test]
fn packet_round_trip_empty_payload() {
    let frame = write_packet(0, &[]);
    assert_eq!(frame, vec![0x01, 0x00]);
    let (id, got, consumed) = expect_done(read_packet(&frame));
    assert_eq!(id, 0);
    assert!(got.is_empty());
    assert_eq!(consumed, 2);
}

#[test]
fn packet_round_trip_large_id() {
    let frame = write_packet(0x7fffffff, b"abc");
    let (id, got, consumed) = expect_done(read_packet(&frame));
    assert_eq!(id, 0x7fffffff);
    assert_eq!(got, b"abc".to_vec());
    assert_eq!(consumed, frame.len());
}

#[test]
fn packet_rejects_negative_length() {
    // varint(-1) as the declared packet length
    let data = [0xff, 0xff, 0xff, 0xff, 0x0f];
    match read_packet(&data) {
        PacketStatus::Failed(e) => assert_eq!(e, craftping::Error::ProtocolError),
        other => panic!("expected a framing failure, got {:?}", other),
    }
}

#[test]
fn packet_rejects_underflowing_length() {
    // A declared length of zero cannot hold the id varint it must contain.
    let data = [0x00];
    match read_packet(&data) {
        PacketStatus::Failed(e) => assert_eq!(e, craftping::Error::ProtocolError),
        other => panic!("expected a framing failure, got {:?}", other),
    }
}

#[test]
fn packet_incomplete_buffer() {
    // Length 5 declared, only two body bytes present.
    let data = [0x05, 0x00, 0x01];
    assert!(matches!(read_packet(&data), PacketStatus::NeedMore));
}

#[test]
fn latest_request_exact_bytes() {
    let request = build_latest_request("example.com", 25565).unwrap();
    let mut expected: Vec<u8> = vec![
        0x15, // length of the handshake packet: 21
        0x00, // packet id 0: handshake
        0xff, 0xff, 0xff, 0xff, 0x0f, // protocol version -1
        0x0b, // hostname length: 11
    ];
    expected.extend_from_slice(b"example.com");
    expected.extend_from_slice(&[
        0x63, 0xdd, // port 25565, big endian
        0x01, // next state: status
        0x01, 0x00, // status request packet: length 1, id 0
    ]);
    assert_eq!(request, expected);
}

#[test]
fn packet_rejects_malformed_length_varint() {
    // Six continuation bytes can never be a packet length.
    let data = [0x80, 0x80, 0x80, 0x80, 0x80, 0x80];
    match read_packet(&data) {
        PacketStatus::Failed(e) => assert_eq!(e, craftping::Error::MalformedVarint),
        other => panic!("expected a malformed varint, got {:?}", other),
    }
}
