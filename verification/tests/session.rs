use craftping::entity::{Players, RawDescription, RawLatest, Version};
use craftping::packet::{build_latest_request, write_packet};
use craftping::session::{Action, Event, Session};
use craftping::varint::write_varint;
use craftping::Error;

/// A well-formed status reply frame carrying `json` under the given id.
fn status_reply_frame(packet_id: i32, json: &[u8]) -> Vec<u8> {
    let mut payload = vec![];
    write_varint(&mut payload, json.len() as i32);
    payload.extend_from_slice(json);
    write_packet(packet_id, &payload)
}

/// Serve reads from `data` until the session asks for something else.
fn drive_reads(mut session: Session, mut action: Action, data: &[u8]) -> (Session, Action) {
    let mut pos = 0;
    loop {
        match action {
            Action::ReadExact(n) => {
                let chunk = data[pos..pos + n].to_vec();
                pos += n;
                let (s2, a2) = session.step(Event::Bytes(chunk));
                session = s2;
                action = a2;
            },
            other => return (session, other),
        }
    }
}

fn sample_raw() -> RawLatest {
    RawLatest {
        version: Version { name: "1.20.4".to_string(), protocol: 765 },
        players: Players { max: 20, online: 3, sample: None },
        description: RawDescription::Raw("motd".to_string()),
        favicon: None,
        enforces_secure_chat: None,
        previews_chat: None,
        mod_info: None,
        forge_data: None,
        raw_json: vec![],
    }
}

#[test]
fn session_modern_exchange_succeeds() {
    let (session, action) = Session::start("localhost", 25565);
    let request = match action {
        Action::Write(bytes) => bytes,
        other => panic!("expected the opening write, got {:?}", other),
    };
    assert_eq!(request, build_latest_request("localhost", 25565).unwrap());

    let (session, action) = session.step(Event::WriteDone);
    assert!(matches!(action, Action::ReadExact(1)));

    let json = b"{\"version\":{}}";
    let frame = status_reply_frame(0, json);
    let (session, action) = drive_reads(session, Action::ReadExact(1), &frame[..]);
    let handed = match action {
        Action::DecodeStatus(bytes) => bytes,
        other => panic!("expected the decode request, got {:?}", other),
    };
    assert_eq!(handed, json.to_vec());

    let (_, action) = session.step(Event::Decoded(Some(sample_raw())));
    match action {
        Action::Done(resp) => {
            assert_eq!(resp.version, "1.20.4");
            assert_eq!(resp.protocol, 765);
            assert_eq!(resp.online_players, 3);
            assert_eq!(resp.max_players, 20);
            assert_eq!(resp.description.text, "motd");
            // The session preserves the exact wire span as the raw payload.
            assert_eq!(resp.raw(), json);
        },
        other => panic!("expected success, got {:?}", other),
    }
}

#[test]
fn session_wrong_packet_id_triggers_legacy_attempt() {
    let (session, _) = Session::start("localhost", 25565);
    let (session, _) = session.step(Event::WriteDone);

    // A well-formed status reply, but under packet id 1.
    let frame = status_reply_frame(1, b"{}");
    let (session, action) = drive_reads(session, Action::ReadExact(1), &frame[..]);
    match &action {
        Action::Write(bytes) => assert_eq!(bytes, &craftping::legacy::legacy_request()),
        other => panic!("expected the legacy fallback write, got {:?}", other),
    }

    // The same negotiation call goes on with the legacy exchange.
    let (session, action) = session.step(Event::WriteDone);
    assert!(matches!(action, Action::ReadToClose));

    let text = "\u{00a7}1\09\01.4\0A Minecraft Server\05\020";
    let mut reply = vec![0xff, 0x00, 0x00];
    for unit in text.encode_utf16() {
        reply.push((unit >> 8) as u8);
        reply.push((unit & 0xff) as u8);
    }
    let (_, action) = session.step(Event::Bytes(reply));
    match action {
        Action::Done(resp) => {
            assert_eq!(resp.protocol, 9);
            assert_eq!(resp.version, "1.4");
            assert_eq!(resp.online_players, 5);
            assert_eq!(resp.max_players, 20);
        },
        other => panic!("expected the legacy response, got {:?}", other),
    }
}

#[test]
fn session_transport_failure_is_final() {
    let (session, _) = Session::start("localhost", 25565);
    let (_, action) = session.step(Event::TransportFailed);
    match action {
        Action::Fail(e) => assert_eq!(e, Error::Transport),
        other => panic!("expected a transport failure, got {:?}", other),
    }

    // Mid-exchange, a transport failure must not fall back either.
    let (session, _) = Session::start("localhost", 25565);
    let (session, _) = session.step(Event::WriteDone);
    let (session, action) = session.step(Event::TransportFailed);
    match action {
        Action::Fail(e) => assert_eq!(e, Error::Transport),
        other => panic!("expected a transport failure, got {:?}", other),
    }
    assert!(matches!(session, Session::Finished));
}

#[test]
fn session_malformed_length_falls_back() {
    let (session, _) = Session::start("localhost", 25565);
    let (mut session, mut action) = session.step(Event::WriteDone);
    for _ in 0..5 {
        assert!(matches!(action, Action::ReadExact(1)));
        let (s2, a2) = session.step(Event::Bytes(vec![0x80]));
        session = s2;
        action = a2;
    }
    match action {
        Action::Write(bytes) => assert_eq!(bytes, craftping::legacy::legacy_request()),
        other => panic!("expected the legacy fallback write, got {:?}", other),
    }
}

#[test]
fn session_negative_length_falls_back() {
    let (session, _) = Session::start("localhost", 25565);
    let (session, action) = session.step(Event::WriteDone);
    let encoded_minus_one = [0xff, 0xff, 0xff, 0xff, 0x0f];
    let mut session = session;
    let mut action = action;
    for &byte in encoded_minus_one.iter() {
        assert!(matches!(action, Action::ReadExact(1)));
        let (s2, a2) = session.step(Event::Bytes(vec![byte]));
        session = s2;
        action = a2;
    }
    assert!(matches!(action, Action::Write(_)));
    assert!(matches!(session, Session::LegacyWrite));
}

#[test]
fn session_undecodable_status_falls_back() {
    let (session, _) = Session::start("localhost", 25565);
    let (session, _) = session.step(Event::WriteDone);
    let frame = status_reply_frame(0, b"not json at all");
    let (session, action) = drive_reads(session, Action::ReadExact(1), &frame[..]);
    assert!(matches!(action, Action::DecodeStatus(_)));
    // The driver's decoder found the bytes unusable.
    let (_, action) = session.step(Event::Decoded(None));
    match action {
        Action::Write(bytes) => assert_eq!(bytes, craftping::legacy::legacy_request()),
        other => panic!("expected the legacy fallback write, got {:?}", other),
    }
}

#[test]
fn session_legacy_failure_is_reported() {
    let (session, action) = Session::LegacyRead.step(Event::Bytes(vec![1, 2, 3, 4]));
    match action {
        Action::Fail(e) => assert_eq!(e, Error::ProtocolError),
        other => panic!("expected the legacy failure, got {:?}", other),
    }
    assert!(matches!(session, Session::Finished));
}

#[test]
fn session_unexpected_event_fails() {
    let (session, action) = Session::ModernWrite.step(Event::Bytes(vec![]));
    match action {
        Action::Fail(e) => assert_eq!(e, Error::ProtocolError),
        other => panic!("expected a protocol error, got {:?}", other),
    }
    assert!(matches!(session, Session::Finished));
}
