use craftping::entity::{
    Chat, Player, Players, RawDescription, RawLatest, Response, Version,
};
use craftping::Error;

fn minimal_raw(description: RawDescription, favicon: Option<String>) -> RawLatest {
    RawLatest {
        version: Version { name: "1.20.4".to_string(), protocol: 765 },
        players: Players { max: 20, online: 3, sample: None },
        description,
        favicon,
        enforces_secure_chat: None,
        previews_chat: None,
        mod_info: None,
        forge_data: None,
        raw_json: b"{}".to_vec(),
    }
}

#[test]
fn favicon_decodes() {
    let raw = minimal_raw(
        RawDescription::Raw("hi".to_string()),
        Some("data:image/png;base64,AAA=".to_string()),
    );
    let resp = Response::from_raw(raw).unwrap();
    let expected =
        base64::Engine::decode(&base64::engine::general_purpose::STANDARD, "AAA=").unwrap();
    assert_eq!(resp.favicon, Some(expected));
}

#[test]
fn favicon_missing_prefix_rejected() {
    let raw = minimal_raw(
        RawDescription::Raw("hi".to_string()),
        Some("data:image/jpeg;base64,AAA=".to_string()),
    );
    match Response::from_raw(raw) {
        Err(e) => assert_eq!(e, Error::InvalidResponse),
        Ok(_) => panic!("a favicon without the png prefix must be rejected"),
    }
}

#[test]
fn favicon_too_short_rejected() {
    let raw = minimal_raw(RawDescription::Raw("hi".to_string()), Some("data:".to_string()));
    match Response::from_raw(raw) {
        Err(e) => assert_eq!(e, Error::InvalidResponse),
        Ok(_) => panic!("a favicon shorter than the prefix must be rejected"),
    }
}

#[test]
fn favicon_bad_base64_rejected() {
    let raw = minimal_raw(
        RawDescription::Raw("hi".to_string()),
        Some("data:image/png;base64,!!!".to_string()),
    );
    match Response::from_raw(raw) {
        Err(e) => assert_eq!(e, Error::InvalidResponse),
        Ok(_) => panic!("a favicon with invalid base64 must be rejected"),
    }
}

#[test]
fn favicon_absent_is_none() {
    let raw = minimal_raw(RawDescription::Raw("hi".to_string()), None);
    let resp = Response::from_raw(raw).unwrap();
    assert_eq!(resp.favicon, None);
}

#[test]
fn favicon_empty_is_some_empty() {
    let raw = minimal_raw(
        RawDescription::Raw("hi".to_string()),
        Some("data:image/png;base64,".to_string()),
    );
    let resp = Response::from_raw(raw).unwrap();
    assert_eq!(resp.favicon, Some(vec![]));
}

#[test]
fn description_bare_string_becomes_plain_chat() {
    let raw = minimal_raw(RawDescription::Raw("hello".to_string()), None);
    let resp = Response::from_raw(raw).unwrap();
    let chat = &resp.description;
    assert_eq!(chat.text, "hello");
    assert!(!chat.bold && !chat.italic && !chat.underlined);
    assert!(!chat.strikethrough && !chat.obfuscated);
    assert_eq!(chat.color, None);
    assert!(chat.extra.is_empty());
}

#[test]
fn description_tree_is_preserved() {
    let child = Chat {
        text: "world".to_string(),
        bold: false,
        italic: true,
        underlined: false,
        strikethrough: false,
        obfuscated: false,
        color: Some("red".to_string()),
        extra: vec![],
    };
    let parent = Chat {
        text: "hello ".to_string(),
        bold: true,
        italic: false,
        underlined: false,
        strikethrough: false,
        obfuscated: false,
        color: None,
        extra: vec![child],
    };
    let raw = minimal_raw(RawDescription::Chat(parent), None);
    let resp = Response::from_raw(raw).unwrap();
    let chat = &resp.description;
    assert_eq!(chat.text, "hello ");
    assert!(chat.bold);
    assert_eq!(chat.color, None);
    assert_eq!(chat.extra.len(), 1);
    let got_child = &chat.extra[0];
    assert_eq!(got_child.text, "world");
    assert!(got_child.italic && !got_child.bold);
    assert_eq!(got_child.color, Some("red".to_string()));
    assert!(got_child.extra.is_empty());
}

#[test]
fn from_raw_maps_every_field() {
    let mut raw = minimal_raw(RawDescription::Raw("motd".to_string()), None);
    raw.players.sample = Some(vec![Player {
        name: "alice".to_string(),
        id: "00000000-0000-0000-0000-000000000000".to_string(),
    }]);
    raw.enforces_secure_chat = Some(true);
    raw.previews_chat = Some(false);
    let resp = Response::from_raw(raw).unwrap();
    assert_eq!(resp.version, "1.20.4");
    assert_eq!(resp.protocol, 765);
    assert_eq!(resp.max_players, 20);
    assert_eq!(resp.online_players, 3);
    assert_eq!(resp.enforces_secure_chat, Some(true));
    assert_eq!(resp.previews_chat, Some(false));
    let sample = resp.sample.as_ref().unwrap();
    assert_eq!(sample.len(), 1);
    assert_eq!(sample[0].name, "alice");
    assert_eq!(resp.raw(), b"{}");
}

#[test]
fn default_chat_is_empty() {
    let chat = Chat::default();
    assert_eq!(chat.text, "");
    assert!(!chat.bold && !chat.italic && !chat.underlined);
    assert!(!chat.strikethrough && !chat.obfuscated);
    assert_eq!(chat.color, None);
    assert!(chat.extra.is_empty());
}

#[test]
fn error_messages() {
    assert_eq!(Error::Transport.message(), "transport failure");
    assert_eq!(Error::MalformedVarint.message(), "malformed varint");
    assert_eq!(Error::ProtocolError.message(), "protocol error");
    assert_eq!(Error::InvalidResponse.message(), "invalid response");
}

#[test]
fn plain_text_collapses_whitespace() {
    let chat = Chat {
        text: "  A  Minecraft\n Server ".to_string(),
        ..Chat::default()
    };
    assert_eq!(chat.plain_text(), "A Minecraft Server");
}

#[test]
fn plain_text_removes_newlines_before_splitting() {
    // The newline is removed first, so it joins the two halves of a word.
    let chat = Chat { text: "foo\nbar".to_string(), ..Chat::default() };
    assert_eq!(chat.plain_text(), "foobar");
}

#[test]
fn plain_text_appends_children_in_order() {
    let first = Chat { text: "hello ".to_string(), ..Chat::default() };
    let second = Chat { text: " world".to_string(), ..Chat::default() };
    let root = Chat {
        text: "say:".to_string(),
        extra: vec![first, second],
        ..Chat::default()
    };
    assert_eq!(root.plain_text(), "say:helloworld");
}
