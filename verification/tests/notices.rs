use gens_relay::ipc::{
    chat_event, first_line, line_of, link_event, listing_event, pairing_event, peers_event,
    progress_event, status_event, unpaired_event, IpcEvent,
};
use gens_relay::json::{parse, Json};
use gens_relay::notices::{read_event, Notice};
use gens_relay::peers::{PeerDirectory, PeerInfo};

fn event(name: &str, data: &str) -> IpcEvent {
    IpcEvent { event: name.to_string(), data: parse(data).unwrap() }
}

#[test]
fn events_of_the_daemon_are_read_back() {
    assert!(matches!(read_event(&unpaired_event()), Notice::Unpaired));
    assert!(matches!(
        read_event(&status_event("7", "attic")),
        Notice::Paired { id: Some(i), hostname: Some(h) } if i == "7" && h == "attic"
    ));
    assert!(matches!(
        read_event(&pairing_event("wss://r", "t")),
        Notice::Offer { domain, token } if domain == "wss://r" && token == "t"
    ));
    assert!(matches!(
        read_event(&chat_event("1", "hi")),
        Notice::Chat { from, msg } if from == "1" && msg == "hi"
    ));
    assert!(matches!(
        read_event(&progress_event("a", 5, 9, "1")),
        Notice::Progress { filename, sent: 5, total: 9 } if filename == "a"
    ));
    assert!(matches!(read_event(&link_event(true)), Notice::Connected));
    assert!(matches!(read_event(&link_event(false)), Notice::Disconnected));
}

#[test]
fn peers_are_read_in_order() {
    let mut d = PeerDirectory::new();
    for (h, i) in [("cellar", "1"), ("attic", "2")] {
        d.insert(PeerInfo { hostname: h.to_string(), id: i.to_string(), ip: "10.0.0.1".to_string() });
    }
    match read_event(&peers_event(&d)) {
        Notice::Peers { rows } => {
            let got: Vec<(String, String)> =
                rows.into_iter().map(|r| (r.hostname.unwrap(), r.id.unwrap())).collect();
            assert_eq!(
                got,
                vec![
                    ("cellar".to_string(), "1".to_string()),
                    ("attic".to_string(), "2".to_string())
                ]
            );
        }
        other => panic!("{:?}", other),
    }
}

#[test]
fn what_an_event_lacks_has_a_stand_in() {
    assert!(matches!(
        read_event(&event("chat", "{}")),
        Notice::Chat { from, msg } if from == "Unknown" && msg.is_empty()
    ));
    assert!(matches!(
        read_event(&event("file_progress", "{\"bytes_sent\": -1}")),
        Notice::Progress { filename, sent: 0, total: 1 } if filename.is_empty()
    ));
    assert!(matches!(
        read_event(&event("status", "{\"unpaired\": false}")),
        Notice::Paired { id: None, hostname: None }
    ));
    assert!(matches!(
        read_event(&event("pairing_discovered", "{\"domain\": \"d\"}")),
        Notice::Nothing
    ));
    assert!(matches!(read_event(&event("peers_updated", "{\"peers\": 1}")), Notice::Nothing));
    match read_event(&event("peers_updated", "{\"peers\": [{}, 3]}")) {
        Notice::Peers { rows } => {
            assert_eq!(rows.len(), 2);
            assert!(rows.iter().all(|r| r.hostname.is_none() && r.id.is_none()));
        }
        other => panic!("{:?}", other),
    }
    assert!(matches!(read_event(&event("weather", "{}")), Notice::Nothing));
}

#[test]
fn a_listing_is_read_entry_by_entry() {
    let data = "{\"path\": \"/a\", \"parent\": \"/\", \"entries\": \
                [{\"name\": \"x\", \"is_dir\": true, \"size\": 4}, {}]}";
    match read_event(&listing_event(parse(data).unwrap())) {
        Notice::Listing { path, parent, entries: Some(entries) } => {
            assert_eq!(path, Some("/a".to_string()));
            assert_eq!(parent, Some("/".to_string()));
            assert_eq!(entries.len(), 2);
            assert_eq!((entries[0].name.as_str(), entries[0].is_dir, entries[0].size), ("x", true, 4));
            assert_eq!((entries[1].name.as_str(), entries[1].is_dir, entries[1].size), ("", false, 0));
        }
        other => panic!("{:?}", other),
    }
    assert!(matches!(
        read_event(&listing_event(Json::object())),
        Notice::Listing { path: None, parent: None, entries: None }
    ));
}

#[test]
fn lines_end_with_a_line_break() {
    assert_eq!(first_line(), "{\"action\": \"list\"}\n");
    assert_eq!(line_of("{}"), "{}\n");
    let two = line_of("{\"a\":1}") + &line_of("{\"b\":2}");
    assert_eq!(two.lines().collect::<Vec<&str>>(), vec!["{\"a\":1}", "{\"b\":2}"]);
}
