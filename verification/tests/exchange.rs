use gens_relay::channel::{Channel, ChannelAction};
use gens_relay::daemon::{CommandAction, Daemon};
use gens_relay::listing::{FileStat, Found};
use gens_relay::prefs::AppPrefs;
use gens_relay::session::{PendingFile, Session};
use gens_relay::transfer::Upload;
use gens_relay::wire::answer;

fn setup() -> (Session, Daemon, Channel, Session) {
    let mut s = Session::new(AppPrefs::new());
    s.select("peer-2");
    let mut d = Daemon::new("attic".to_string(), "secret".to_string());
    d.channel_opened("peer-2");
    (s, d, Channel::new("peer-1".to_string()), Session::new(AppPrefs::new()))
}

fn sent_text(action: CommandAction) -> String {
    match action {
        CommandAction::SendText { target_id, text } => {
            assert_eq!(target_id, "peer-2");
            text
        }
        other => panic!("{:?}", other),
    }
}

#[test]
fn a_message_arrives_as_it_was_written() {
    let (mut s, mut d, channel, mut receiver) = setup();
    s.input_message = "grüße {\"type\":\"ls\"".to_string();
    let text = sent_text(d.on_command(s.send_message().unwrap()));
    match channel.on_text(&text) {
        ChannelAction::Publish { event } => {
            assert!(receiver.on_event(&event).is_none());
        }
        other => panic!("{:?}", other),
    }
    assert_eq!(receiver.chat_messages, vec!["[peer-1] grüße {\"type\":\"ls\""]);
    assert_eq!(s.chat_messages, vec!["[Me] grüße {\"type\":\"ls\""]);
}

#[test]
fn a_message_that_is_a_request_is_taken_for_one() {
    let (mut s, mut d, channel, _) = setup();
    s.input_message = "{\"type\":\"ls\",\"path\":\"/\"}".to_string();
    let text = sent_text(d.on_command(s.send_message().unwrap()));
    assert!(matches!(channel.on_text(&text), ChannelAction::List { path } if path == "/"));
}

#[test]
fn a_directory_is_shown_as_the_peer_has_it() {
    let (mut s, mut d, channel, _) = setup();
    let text = sent_text(d.on_command(s.list_remote("/tmp/x").unwrap()));
    let path = match channel.on_text(&text) {
        ChannelAction::List { path } => path,
        other => panic!("{:?}", other),
    };
    let found = |name: &str, is_dir: bool| Found {
        name: name.to_string(),
        stat: Some(FileStat { is_dir, size: 1, modified: None }),
    };
    let reply = answer(&path, vec![found("b", false), found("a", false), found("c", true)]);
    match Channel::new("peer-2".to_string()).on_text(&reply) {
        ChannelAction::Publish { event } => {
            s.on_event(&event);
        }
        other => panic!("{:?}", other),
    }
    assert_eq!((s.remote_current_path.as_str(), s.remote_parent_path.as_str()), ("/tmp/x", "/tmp"));
    let names: Vec<&str> = s.remote_entries.iter().map(|e| e.name.as_str()).collect();
    assert_eq!(names, vec!["c", "a", "b"]);
}

#[test]
fn a_file_is_asked_for_and_sent() {
    let (mut s, mut d, channel, _) = setup();
    let text = sent_text(d.on_command(s.download_at("a.bin", "/tmp/a.bin").unwrap()));
    assert!(matches!(channel.on_text(&text), ChannelAction::Send { path } if path == "/tmp/a.bin"));
}

#[test]
fn a_sent_file_is_announced_and_its_end_is_told() {
    let (mut s, mut d, channel, _) = setup();
    s.drop_file(PendingFile { path: "/tmp/a.bin".to_string(), shown: "a".to_string() });
    let path = match d.on_command(s.send_file().unwrap()) {
        CommandAction::SendFile { target_id, path } => {
            assert_eq!(target_id, "peer-2");
            path
        }
        other => panic!("{:?}", other),
    };
    let mut upload = Upload::begin(&path, 3, "peer-2".to_string()).unwrap();
    assert!(matches!(
        channel.on_text(&upload.notice()),
        ChannelAction::Receive { name, path, .. } if name == "a.bin" && path == "downloads/a.bin"
    ));
    let report = upload.advance(3).unwrap();
    s.on_event(&report);
    assert!(s.file_progress.is_none());
    assert_eq!(
        s.chat_messages,
        vec![">>> Started sending file a", ">>> File transfer complete."]
    );
}

#[test]
fn a_client_learns_of_the_peers() {
    let (mut s, mut d, _, _) = setup();
    let add = gens_relay::ipc::IpcCommand {
        action: "add_peer".to_string(),
        target: Some("9".to_string()),
        msg: Some("10.0.0.9".to_string()),
        path: None,
    };
    d.on_command(add);
    let ask = s.on_event(&gens_relay::ipc::link_event(true)).unwrap();
    match d.on_command(ask) {
        CommandAction::Publish { event } => {
            s.on_event(&event);
        }
        other => panic!("{:?}", other),
    }
    let shown = s.shown_peers();
    assert_eq!(shown.len(), 1);
    assert_eq!((shown[0].id.as_str(), shown[0].name.as_str()), ("9", "10.0.0.9"));
}
