use gens_relay::channel::{Channel, ChannelAction};
use gens_relay::wire::PeerMessage;

fn channel() -> Channel {
    Channel::new("peer-1".to_string())
}

#[test]
fn a_message_is_told_to_the_clients() {
    match channel().on_text("hello") {
        ChannelAction::Publish { event } => {
            assert_eq!(event.event, "chat");
            assert_eq!(event.data.text("from"), Some("peer-1".to_string()));
            assert_eq!(event.data.text("msg"), Some("hello".to_string()));
        }
        other => panic!("{:?}", other),
    }
}

#[test]
fn a_file_is_received_under_a_safe_name() {
    match channel().on_text("{\"type\":\"file_start\",\"name\":\"../x/y\",\"size\":3}") {
        ChannelAction::Receive { name, safe, path } => {
            assert_eq!(name, "../x/y");
            assert_eq!(safe, "xy");
            assert_eq!(path, "downloads/xy");
        }
        other => panic!("{:?}", other),
    }
}

#[test]
fn requests_are_acted_on() {
    assert!(matches!(
        channel().on_text("{\"type\":\"ls\",\"path\":\"\"}"),
        ChannelAction::List { path } if path.is_empty()
    ));
    assert!(matches!(
        channel().on_text("{\"type\":\"download_req\",\"path\":\"/a\"}"),
        ChannelAction::Send { path } if path == "/a"
    ));
    for text in ["{\"type\":\"ls\"}", "{\"type\":\"download_req\"}", "{\"type\":\"file_start\"}"] {
        assert!(matches!(channel().on_text(text), ChannelAction::Nothing));
    }
}

#[test]
fn an_answer_is_handed_on_whole() {
    match channel().on_text("{\"type\":\"ls_result\",\"path\":\"/a\",\"extra\":[1]}") {
        ChannelAction::Publish { event } => {
            assert_eq!(event.event, "ls_result");
            assert_eq!(event.data.text("type"), Some("ls_result".to_string()));
            assert_eq!(event.data.text("path"), Some("/a".to_string()));
            assert_eq!(event.data.list("extra").unwrap().len(), 1);
        }
        other => panic!("{:?}", other),
    }
}

#[test]
fn bytes_that_are_no_text_are_passed_over() {
    assert!(matches!(channel().on_text_bytes(&[0xff, 0xfe]), ChannelAction::Nothing));
    assert!(matches!(channel().on_text_bytes(&[0xed, 0xa0, 0x80]), ChannelAction::Nothing));
    match channel().on_text_bytes("grüße".as_bytes()) {
        ChannelAction::Publish { event } => {
            assert_eq!(event.data.text("msg"), Some("grüße".to_string()));
        }
        other => panic!("{:?}", other),
    }
}

#[test]
fn bytes_go_to_the_file_that_was_opened_last() {
    let mut c = channel();
    assert_eq!(c.target(), "peer-1");
    let mut files: Vec<(String, Vec<u8>)> = Vec::new();
    let take = |c: &Channel, is_text: bool, data: &[u8], files: &mut Vec<(String, Vec<u8>)>| {
        match c.on_message(is_text, data) {
            ChannelAction::Store { safe } => {
                let last = files.last_mut().unwrap();
                assert_eq!(last.0, safe);
                last.1.extend_from_slice(data);
                true
            }
            _ => false,
        }
    };
    assert!(!take(&c, false, b"early", &mut files));
    for (name, chunks) in [("xy", ["ab", "cd"]), ("z", ["ef", ""])] {
        c.file_opened(name.to_string());
        files.push((name.to_string(), Vec::new()));
        for chunk in chunks {
            assert!(take(&c, false, chunk.as_bytes(), &mut files));
            assert!(!take(&c, true, b"hello", &mut files));
        }
    }
    assert_eq!(
        files,
        vec![("xy".to_string(), b"abcd".to_vec()), ("z".to_string(), b"ef".to_vec())]
    );
}

#[test]
fn bytes_make_no_event_and_no_reply() {
    let request = b"{\"type\":\"ls\",\"path\":\"\"}";
    assert!(matches!(channel().on_message(true, request), ChannelAction::List { .. }));
    assert!(matches!(channel().on_message(false, request), ChannelAction::Nothing));
}

#[test]
fn the_reaction_follows_what_was_understood() {
    assert!(matches!(
        channel().react("anything", PeerMessage::ListingRequest { path: Some("/".to_string()) }),
        ChannelAction::List { path } if path == "/"
    ));
    assert!(matches!(
        channel().react("x", PeerMessage::DownloadRequest { path: None }),
        ChannelAction::Nothing
    ));
}
