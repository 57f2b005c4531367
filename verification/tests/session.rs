use gens_relay::ipc::IpcCommand;
use gens_relay::listing::DirEntry;
use gens_relay::notices::{Notice, PeerRow};
use gens_relay::prefs::AppPrefs;
use gens_relay::session::{list_command, PendingFile, Session, Tab};

fn session() -> Session {
    Session::new(AppPrefs::new())
}

fn row(hostname: Option<&str>, id: Option<&str>) -> PeerRow {
    PeerRow { hostname: hostname.map(|s| s.to_string()), id: id.map(|s| s.to_string()) }
}

fn says(c: Option<IpcCommand>) -> (String, Option<String>, Option<String>, Option<String>) {
    let c = c.unwrap();
    (c.action, c.target, c.msg, c.path)
}

fn some(s: &str) -> Option<String> {
    Some(s.to_string())
}

fn chat(from: &str, msg: &str) -> Notice {
    Notice::Chat { from: from.to_string(), msg: msg.to_string() }
}

fn progress(sent: usize, total: usize) -> Notice {
    Notice::Progress { filename: "a.bin".to_string(), sent, total }
}

#[test]
fn a_client_starts_with_nothing() {
    let s = session();
    assert!(!s.connected && !s.unpaired);
    assert_eq!(s.current_tab, Tab::Chat);
    assert!(s.my_id.is_none() && s.my_hostname.is_none() && s.selected_target.is_none());
    assert!(s.peers.is_empty() && s.chat_messages.is_empty() && s.remote_entries.is_empty());
    assert!(s.file_progress.is_none() && s.pending_file.is_none() && s.discovered_pairing.is_none());
    assert_eq!(s.remote_current_path, "");
    assert_eq!(s.input_message, "");
}

#[test]
fn reaching_the_daemon_asks_for_the_peers() {
    let mut s = session();
    assert_eq!(says(s.on_notice(Notice::Connected)), ("list".to_string(), None, None, None));
    assert!(s.connected);
    assert_eq!(list_command().action, "list");
    assert!(s.on_notice(Notice::Unpaired).is_none());
    assert!(s.unpaired);
    assert!(s.on_notice(Notice::Disconnected).is_none());
    assert!(!s.connected && !s.unpaired);
}

#[test]
fn a_paired_node_says_who_it_is() {
    let mut s = session();
    s.on_notice(Notice::Unpaired);
    s.on_notice(Notice::Paired { id: some("7"), hostname: some("attic") });
    assert!(!s.unpaired);
    assert_eq!((s.my_id.clone(), s.my_hostname.clone()), (some("7"), some("attic")));
    s.on_notice(Notice::Paired { id: None, hostname: some("cellar") });
    assert_eq!((s.my_id.clone(), s.my_hostname.clone()), (some("7"), some("cellar")));
}

#[test]
fn messages_are_shown_under_the_given_name() {
    let mut s = session();
    s.on_notice(chat("1", "hi"));
    s.prefs.rename("1", "Ada".to_string());
    s.on_notice(chat("1", "there"));
    assert_eq!(s.chat_messages, vec!["[1] hi", "[Ada] there"]);
}

#[test]
fn progress_is_shown_until_it_is_complete() {
    let mut s = session();
    s.on_notice(progress(5, 9));
    let p = s.file_progress.as_ref().unwrap();
    assert_eq!((p.filename.as_str(), p.sent, p.total), ("a.bin", 5, 9));
    assert!(s.chat_messages.is_empty());
    s.on_notice(progress(9, 9));
    assert!(s.file_progress.is_none());
    assert_eq!(s.chat_messages, vec![">>> File transfer complete."]);
    s.on_notice(progress(0, 0));
    assert_eq!(s.chat_messages.len(), 2);
}

#[test]
fn a_listing_is_shown_in_order() {
    let mut s = session();
    let entry = |name: &str, is_dir: bool| DirEntry { name: name.to_string(), is_dir, size: 0 };
    s.on_notice(Notice::Listing {
        path: some("/a"),
        parent: some("/"),
        entries: Some(vec![entry("b", false), entry("a", false), entry("z", true)]),
    });
    assert_eq!((s.remote_current_path.as_str(), s.remote_parent_path.as_str()), ("/a", "/"));
    let names: Vec<&str> = s.remote_entries.iter().map(|e| e.name.as_str()).collect();
    assert_eq!(names, vec!["z", "a", "b"]);
    s.on_notice(Notice::Listing { path: some("/b"), parent: None, entries: None });
    assert_eq!((s.remote_current_path.as_str(), s.remote_parent_path.as_str()), ("/b", "/"));
    assert_eq!(s.remote_entries.len(), 3);
}

#[test]
fn favorites_are_listed_first() {
    let mut s = session();
    s.on_notice(Notice::Peers {
        rows: vec![
            row(Some("attic"), Some("1")),
            row(None, Some("2")),
            row(Some("cellar"), None),
            row(Some("garden"), Some("4")),
        ],
    });
    s.toggle_favorite("4");
    s.toggle_favorite("2");
    s.select("1");
    s.rename("Ada".to_string());
    let got: Vec<(String, String, bool, bool)> =
        s.shown_peers().into_iter().map(|p| (p.id, p.name, p.favorite, p.selected)).collect();
    let want: Vec<(String, String, bool, bool)> = [
        ("2", "Unknown", true, false),
        ("4", "garden", true, false),
        ("1", "Ada", false, true),
        ("?", "cellar", false, false),
    ]
    .iter()
    .map(|(i, n, f, t)| (i.to_string(), n.to_string(), *f, *t))
    .collect();
    assert_eq!(got, want);
}

#[test]
fn a_peer_without_an_identifier_is_sorted_by_the_empty_one() {
    let mut s = session();
    s.on_notice(Notice::Peers { rows: vec![row(Some("attic"), Some("1")), row(Some("cellar"), None)] });
    s.toggle_favorite("?");
    let got: Vec<(String, bool)> =
        s.shown_peers().into_iter().map(|p| (p.name, p.favorite)).collect();
    assert_eq!(got, vec![("attic".to_string(), false), ("cellar".to_string(), true)]);
    s.toggle_favorite("");
    assert_eq!(s.shown_peers()[0].name, "cellar");
}

#[test]
fn the_selected_peer_has_a_name() {
    let mut s = session();
    assert_eq!(s.target_name(), None);
    s.rename("nobody".to_string());
    assert!(s.prefs.aliases.is_empty());
    s.select("1");
    assert_eq!(s.target_name(), some("1"));
    s.rename("Ada".to_string());
    assert_eq!(s.target_name(), some("Ada"));
}

#[test]
fn an_offer_is_taken_or_turned_down() {
    let mut s = session();
    let offer = || Notice::Offer { domain: "wss://r".to_string(), token: "t".to_string() };
    assert_eq!(s.accept_pairing(), None);
    s.on_notice(offer());
    assert_eq!(s.accept_pairing(), some("RELAY_DOMAIN=wss://r\nAUTH_TOKEN=t\n"));
    assert!(s.discovered_pairing.is_none());
    s.on_notice(offer());
    s.dismiss_pairing();
    assert!(s.discovered_pairing.is_none());
    s.pairing_domain_input = "wss://q".to_string();
    s.pairing_token_input = "u".to_string();
    assert_eq!(s.manual_settings(), "RELAY_DOMAIN=wss://q\nAUTH_TOKEN=u\n");
}

#[test]
fn a_connection_is_asked_for() {
    let mut s = session();
    assert!(s.connect().is_none());
    assert!(s.chat_messages.is_empty());
    s.select("1");
    assert_eq!(says(s.connect()), ("connect".to_string(), some("1"), None, None));
    assert_eq!(s.chat_messages, vec![">>> WebRTC Connection Initiated..."]);
}

#[test]
fn turning_to_the_remote_files_asks_for_them() {
    let mut s = session();
    assert!(s.open_tab(Tab::RemoteFiles).is_none());
    assert_eq!(s.current_tab, Tab::Chat);
    s.select("1");
    assert!(s.open_tab(Tab::Files).is_none());
    assert_eq!(s.current_tab, Tab::Files);
    assert_eq!(says(s.open_tab(Tab::RemoteFiles)), ("ls".to_string(), some("1"), None, some("")));
    assert_eq!(s.current_tab, Tab::RemoteFiles);
}

#[test]
fn a_message_is_sent_unless_it_is_blank() {
    let mut s = session();
    s.input_message = "hi".to_string();
    assert!(s.send_message().is_none());
    assert_eq!(s.input_message, "hi");
    s.select("1");
    s.input_message = " \t".to_string();
    assert!(s.send_message().is_none());
    assert_eq!(s.input_message, " \t");
    s.input_message = " hi ".to_string();
    assert_eq!(says(s.send_message()), ("p2p".to_string(), some("1"), some(" hi "), None));
    assert_eq!(s.input_message, "");
    assert_eq!(s.chat_messages, vec!["[Me]  hi "]);
}

#[test]
fn a_dropped_file_is_sent_or_laid_aside() {
    let mut s = session();
    let file = || PendingFile { path: "/a b".to_string(), shown: "\"/a b\"".to_string() };
    s.drop_file(file());
    assert!(s.send_file().is_none());
    assert!(s.pending_file.is_some());
    s.select("1");
    s.open_tab(Tab::Files);
    assert_eq!(says(s.send_file()), ("sendfile".to_string(), some("1"), None, some("/a b")));
    assert!(s.pending_file.is_none());
    assert_eq!(s.current_tab, Tab::Chat);
    assert_eq!(s.chat_messages, vec![">>> Started sending file \"/a b\""]);
    assert!(s.send_file().is_none());
    s.drop_file(file());
    s.cancel_file();
    assert!(s.pending_file.is_none());
}

#[test]
fn remote_directories_are_walked() {
    let mut s = session();
    assert!(s.refresh_remote().is_none());
    assert!(s.open_remote("x").is_none());
    s.select("1");
    s.remote_current_path = "/a".to_string();
    let ls = |p: &str| ("ls".to_string(), some("1"), None, some(p));
    assert_eq!(says(s.refresh_remote()), ls("/a"));
    assert_eq!(says(s.list_remote("/q")), ls("/q"));
    assert!(s.go_up().is_none());
    s.remote_parent_path = "/".to_string();
    assert_eq!(says(s.go_up()), ls("/"));
    let joined = std::path::Path::new("/a").join("x").to_string_lossy().into_owned();
    assert_ne!(joined, "/a");
    assert_eq!(says(s.open_remote("x")), ls(&joined));
}

#[test]
fn a_remote_file_is_asked_for() {
    let mut s = session();
    assert!(s.download("x").is_none());
    assert!(s.chat_messages.is_empty());
    s.select("1");
    s.remote_current_path = "/a".to_string();
    s.open_tab(Tab::RemoteFiles);
    let joined = std::path::Path::new("/a").join("x").to_string_lossy().into_owned();
    assert_eq!(says(s.download("x")), ("download_req".to_string(), some("1"), None, Some(joined)));
    assert_eq!(s.current_tab, Tab::Chat);
    assert_eq!(s.chat_messages, vec![">>> Requesting download for x"]);
    assert_eq!(
        says(s.download_at("y", "/b/y")),
        ("download_req".to_string(), some("1"), None, some("/b/y"))
    );
}

#[test]
fn entries_are_asked_for_by_their_whole_path() {
    let mut s = session();
    s.select("1");
    let sep = std::path::MAIN_SEPARATOR;
    for (dir, name, want) in [
        ("", "x", "x".to_string()),
        ("/a/", "x", "/a/x".to_string()),
        ("/a:b", "x", format!("/a:b{}x", sep)),
        ("/a", "12:30.txt", format!("/a{}12:30.txt", sep)),
        ("/a", "..", format!("/a{}..", sep)),
        ("/a", "/etc", "/etc".to_string()),
        ("\\\\server\\share", "x", format!("\\\\server\\share{}x", sep)),
        ("\\a", "x", format!("\\a{}x", sep)),
        ("/a", "", format!("/a{}", sep)),
    ] {
        s.remote_current_path = dir.to_string();
        assert_eq!(says(s.open_remote(name)).3, Some(want.clone()));
        assert_eq!(says(s.download(name)).3, Some(want));
    }
}

#[test]
fn actions_only_add_lines() {
    let mut s = session();
    s.select("1");
    s.on_notice(progress(5, 9));
    s.on_notice(chat("1", "hi"));
    s.input_message = "there".to_string();
    s.connect();
    s.open_tab(Tab::RemoteFiles);
    s.send_message();
    s.rename("Ada".to_string());
    s.download("x");
    s.accept_pairing();
    assert_eq!(
        s.chat_messages,
        vec![
            "[1] hi",
            ">>> WebRTC Connection Initiated...",
            "[Me] there",
            ">>> Requesting download for x"
        ]
    );
    let p = s.file_progress.as_ref().unwrap();
    assert!(p.sent < p.total);
}
