use craftping::legacy::{decode_legacy, legacy_request, parse_legacy};
use craftping::Error;

fn utf16be_reply(text: &str) -> Vec<u8> {
    let mut buffer = vec![0xff, 0x00, 0x00];
    for unit in text.encode_utf16() {
        buffer.push((unit >> 8) as u8);
        buffer.push((unit & 0xff) as u8);
    }
    buffer
}

#[test]
fn legacy_request_exact_bytes() {
    let request = legacy_request();
    let expected: Vec<u8> = vec![
        0xfe, 0x01, 0xfa, 0x00, 0x0b, 0x00, 0x4d, 0x00, 0x43, 0x00, 0x7c, 0x00, 0x50, 0x00, 0x69,
        0x00, 0x6e, 0x00, 0x67, 0x00, 0x48, 0x00, 0x6f, 0x00, 0x73, 0x00, 0x74, 0x07, 0x4a, 0x00,
        0x00, 0x00, 0x00, 0x00, 0x00,
    ];
    assert_eq!(request, expected);
    assert_eq!(request.len(), 35);
}

#[test]
fn legacy_parse_well_formed_reply() {
    let text = "\u{00a7}\u{0031}\09\01.4\0A Minecraft Server\05\020";
    let raw = utf16be_reply(text);
    let resp = parse_legacy(text, raw.clone()).unwrap();
    assert_eq!(resp.protocol, 9);
    assert_eq!(resp.version, "1.4");
    assert_eq!(resp.description.text, "A Minecraft Server");
    assert_eq!(resp.online_players, 5);
    assert_eq!(resp.max_players, 20);
    assert_eq!(resp.favicon, None);
    assert!(resp.sample.is_none());
    assert!(resp.mod_info.is_none() && resp.forge_data.is_none());
    assert_eq!(resp.raw(), raw.as_slice());
}

#[test]
fn legacy_parse_too_few_fields() {
    let text = "\u{00a7}1\09\01.4\0A Minecraft Server\05";
    match parse_legacy(text, vec![]) {
        Err(e) => assert_eq!(e, Error::InvalidResponse),
        Ok(_) => panic!("five fields must be rejected"),
    }
}

#[test]
fn legacy_parse_bad_magic() {
    let text = "nope\09\01.4\0A Minecraft Server\05\020";
    match parse_legacy(text, vec![]) {
        Err(e) => assert_eq!(e, Error::InvalidResponse),
        Ok(_) => panic!("a reply without the magic marker must be rejected"),
    }
}

#[test]
fn legacy_parse_unparsable_number() {
    let text = "\u{00a7}1\0nine\01.4\0A Minecraft Server\05\020";
    match parse_legacy(text, vec![]) {
        Err(e) => assert_eq!(e, Error::InvalidResponse),
        Ok(_) => panic!("a non-numeric protocol field must be rejected"),
    }
}

#[test]
fn legacy_parse_ignores_extra_fields() {
    let text = "\u{00a7}1\09\01.4\0A Minecraft Server\05\020\0surplus";
    let resp = parse_legacy(text, vec![]).unwrap();
    assert_eq!(resp.protocol, 9);
    assert_eq!(resp.max_players, 20);
}

#[test]
fn decode_legacy_round_trip() {
    let text = "\u{00a7}1\09\01.4\0A Minecraft Server\05\020";
    let raw = utf16be_reply(text);
    assert_eq!(decode_legacy(&raw).unwrap(), text);
}

#[test]
fn decode_legacy_truncated_reply() {
    match decode_legacy(&[0xff, 0x00]) {
        Err(e) => assert_eq!(e, Error::ProtocolError),
        Ok(_) => panic!("a reply of fewer than four bytes must be rejected"),
    }
}

#[test]
fn decode_legacy_wrong_marker() {
    match decode_legacy(&[0x00, 0x00, 0x02, 0x00, 0x41]) {
        Err(e) => assert_eq!(e, Error::ProtocolError),
        Ok(_) => panic!("a reply not opening with 0xff must be rejected"),
    }
}

#[test]
fn decode_legacy_invalid_utf16() {
    // 0xd800 is an unpaired surrogate.
    match decode_legacy(&[0xff, 0x00, 0x01, 0xd8, 0x00]) {
        Err(e) => assert_eq!(e, Error::InvalidResponse),
        Ok(_) => panic!("an unpaired surrogate must be rejected"),
    }
}

#[test]
fn decode_legacy_drops_odd_trailing_byte() {
    // 'A' followed by half a code unit.
    assert_eq!(decode_legacy(&[0xff, 0x00, 0x01, 0x00, 0x41, 0x00]).unwrap(), "A");
}
