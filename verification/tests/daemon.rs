use gens_relay::daemon::{
    client_greeting, on_pairing_packet, CommandAction, Daemon, DiscoveryPacket, PairingOfferPacket,
    ServerAction, ServerMessage,
};
use gens_relay::ipc::{IpcCommand, IpcEvent};
use gens_relay::signaling::{
    IceCandidate, Outcome, SessionDescription, SignalingPayload, Step,
};

fn daemon() -> Daemon {
    Daemon::new("attic".to_string(), "secret".to_string())
}

fn packet(id: &str, hostname: &str, token: &str) -> DiscoveryPacket {
    DiscoveryPacket { id: id.to_string(), hostname: hostname.to_string(), token: token.to_string() }
}

fn command(action: &str, target: Option<&str>, msg: Option<&str>, path: Option<&str>) -> IpcCommand {
    IpcCommand {
        action: action.to_string(),
        target: target.map(|s| s.to_string()),
        msg: msg.map(|s| s.to_string()),
        path: path.map(|s| s.to_string()),
    }
}

fn sdp(text: &str) -> SessionDescription {
    SessionDescription { kind: "offer".to_string(), sdp: text.to_string() }
}

fn candidate() -> IceCandidate {
    IceCandidate {
        candidate: "c".to_string(),
        sdp_mid: None,
        sdp_mline_index: None,
        username_fragment: None,
    }
}

fn peers_in(event: &IpcEvent) -> Vec<(String, String, String)> {
    assert_eq!(event.event, "peers_updated");
    event
        .data
        .list("peers")
        .unwrap()
        .iter()
        .map(|p| (p.text("hostname").unwrap(), p.text("id").unwrap(), p.text("ip").unwrap()))
        .collect()
}

fn row(hostname: &str, id: &str, ip: &str) -> (String, String, String) {
    (hostname.to_string(), id.to_string(), ip.to_string())
}

fn connect(d: &mut Daemon, target: &str) {
    let mut h = match d.on_command(command("connect", Some(target), None, None)) {
        CommandAction::Call { handshake } => handshake,
        other => panic!("{:?}", other),
    };
    d.on_step(&mut h, Outcome::Done);
    d.on_step(&mut h, Outcome::Done);
    d.on_step(&mut h, Outcome::Described { sdp: sdp("v=0") });
    assert!(matches!(d.on_step(&mut h, Outcome::Done), Step::Finish { .. }));
}

#[test]
fn a_client_is_greeted() {
    let unpaired = client_greeting(None).unwrap();
    assert_eq!(unpaired.event, "status");
    assert_eq!(unpaired.data.boolean("unpaired"), Some(true));
    let mut d = daemon();
    assert!(client_greeting(Some(&d)).is_none());
    assert_eq!(d.hostname(), "attic");
    d.on_message(ServerMessage::Welcome { id: "7".to_string() });
    let e = client_greeting(Some(&d)).unwrap();
    assert_eq!(e.event, "status");
    assert_eq!(e.data.text("id"), Some("7".to_string()));
    assert_eq!(e.data.text("hostname"), Some("attic".to_string()));
    assert_eq!(e.data.boolean("unpaired"), None);
}

#[test]
fn only_pairing_offers_are_told() {
    let offer = |t: &str| PairingOfferPacket {
        packet_type: t.to_string(),
        domain: "wss://relay.example.com".to_string(),
        token: "secret".to_string(),
    };
    let e = on_pairing_packet(&offer("pairing_offer")).unwrap();
    assert_eq!(e.event, "pairing_discovered");
    assert_eq!(e.data.text("domain"), Some("wss://relay.example.com".to_string()));
    assert_eq!(e.data.text("token"), Some("secret".to_string()));
    assert!(on_pairing_packet(&offer("pairing")).is_none());
}

#[test]
fn a_peer_is_told_of_once() {
    let mut d = daemon();
    let e = d.on_discovery(packet("1", "cellar", "secret"), "10.0.0.1".to_string()).unwrap();
    assert_eq!(peers_in(&e), vec![row("cellar", "1", "10.0.0.1")]);
    assert!(d.on_discovery(packet("2", "cellar", "secret"), "10.0.0.2".to_string()).is_none());
    assert_eq!(d.resolve_target("cellar"), "2");
}

#[test]
fn foreign_and_own_packets_are_passed_over() {
    let mut d = daemon();
    assert!(d.on_discovery(packet("1", "cellar", "other"), "10.0.0.1".to_string()).is_none());
    assert!(d.on_discovery(packet("1", "attic", "secret"), "10.0.0.1".to_string()).is_none());
    assert_eq!(d.resolve_target("cellar"), "cellar");
    assert_eq!(d.resolve_target("attic"), "attic");
}

#[test]
fn a_welcome_is_announced() {
    let mut d = daemon();
    match d.on_message(ServerMessage::Welcome { id: "7".to_string() }) {
        ServerAction::Announce { event, packet } => {
            assert_eq!(event.data.text("id"), Some("7".to_string()));
            assert_eq!(packet.id, "7");
            assert_eq!(packet.hostname, "attic");
            assert_eq!(packet.token, "secret");
        }
        other => panic!("{:?}", other),
    }
}

#[test]
fn other_messages_of_the_server_change_nothing() {
    let mut d = daemon();
    assert!(matches!(
        d.on_message(ServerMessage::Error { message: "full".to_string() }),
        ServerAction::Report { message } if message == "full"
    ));
    assert!(matches!(d.on_message(ServerMessage::Unknown), ServerAction::Nothing));
    assert!(matches!(
        d.on_message(ServerMessage::PeerMessage { sender_id: "1".to_string(), payload: None }),
        ServerAction::Nothing
    ));
    assert!(client_greeting(Some(&d)).is_none());
}

#[test]
fn an_offer_is_answered() {
    let mut d = daemon();
    let mut h = match d.on_message(ServerMessage::PeerMessage {
        sender_id: "1".to_string(),
        payload: Some(SignalingPayload::Offer { sdp: sdp("theirs"), hostname: "cellar".to_string() }),
    }) {
        ServerAction::Answer { handshake } => handshake,
        other => panic!("{:?}", other),
    };
    assert_eq!(h.target_id(), "1");
    assert!(matches!(
        d.on_step(&mut h, Outcome::Done),
        Step::ApplyRemote { sdp } if sdp.sdp == "theirs"
    ));
    assert!(matches!(d.on_step(&mut h, Outcome::Failed), Step::Abort));
}

#[test]
fn signals_touch_only_kept_connections() {
    let mut d = daemon();
    let answer = || ServerMessage::PeerMessage {
        sender_id: "1".to_string(),
        payload: Some(SignalingPayload::Answer { sdp: sdp("a"), hostname: "cellar".to_string() }),
    };
    let ice = || ServerMessage::PeerMessage {
        sender_id: "1".to_string(),
        payload: Some(SignalingPayload::IceCandidate { candidate: candidate() }),
    };
    assert!(matches!(d.on_message(answer()), ServerAction::Nothing));
    assert!(matches!(d.on_message(ice()), ServerAction::Nothing));
    connect(&mut d, "1");
    assert!(matches!(
        d.on_message(answer()),
        ServerAction::ApplyAnswer { target_id, sdp } if target_id == "1" && sdp.sdp == "a"
    ));
    assert!(matches!(
        d.on_message(ice()),
        ServerAction::AddCandidate { target_id, candidate } if target_id == "1" && candidate.candidate == "c"
    ));
    assert!(matches!(
        d.on_message(ServerMessage::PeerMessage {
            sender_id: "1".to_string(),
            payload: Some(SignalingPayload::Chat { message: "hi".to_string() }),
        }),
        ServerAction::Nothing
    ));
}

#[test]
fn peers_are_listed_and_added() {
    let mut d = daemon();
    match d.on_command(command("add_peer", Some("9"), Some("10.0.0.9"), None)) {
        CommandAction::Publish { event } => {
            assert_eq!(peers_in(&event), vec![row("10.0.0.9", "9", "10.0.0.9")]);
        }
        other => panic!("{:?}", other),
    }
    match d.on_command(command("list", None, None, None)) {
        CommandAction::Publish { event } => {
            assert_eq!(peers_in(&event), vec![row("10.0.0.9", "9", "10.0.0.9")]);
        }
        other => panic!("{:?}", other),
    }
    assert_eq!(d.resolve_target("10.0.0.9"), "9");
    assert!(matches!(
        d.on_command(command("add_peer", Some("9"), None, None)),
        CommandAction::Nothing
    ));
}

#[test]
fn nothing_is_sent_without_a_channel() {
    let mut d = daemon();
    assert!(matches!(
        d.on_command(command("p2p", Some("1"), Some("hi"), None)),
        CommandAction::NoTunnel { target_id } if target_id == "1"
    ));
    assert!(matches!(
        d.on_command(command("sendfile", Some("1"), None, Some("/a"))),
        CommandAction::NoTunnel { target_id } if target_id == "1"
    ));
    assert!(matches!(
        d.on_command(command("ls", Some("1"), None, Some("/a"))),
        CommandAction::Nothing
    ));
    assert!(matches!(
        d.on_command(command("download_req", Some("1"), None, Some("/a"))),
        CommandAction::Nothing
    ));
}

#[test]
fn commands_reach_the_peer_over_a_channel() {
    let mut d = daemon();
    d.on_discovery(packet("1", "cellar", "secret"), "10.0.0.1".to_string());
    d.channel_opened("1");
    assert!(matches!(
        d.on_command(command("p2p", Some("cellar"), Some("hi"), None)),
        CommandAction::SendText { target_id, text } if target_id == "1" && text == "hi"
    ));
    assert!(matches!(
        d.on_command(command("ls", Some("1"), None, Some("/a"))),
        CommandAction::SendText { target_id, text }
            if target_id == "1" && text == "{\"path\":\"/a\",\"type\":\"ls\"}"
    ));
    assert!(matches!(
        d.on_command(command("download_req", Some("cellar"), None, Some("/a"))),
        CommandAction::SendText { text, .. }
            if text == "{\"path\":\"/a\",\"type\":\"download_req\"}"
    ));
    assert!(matches!(
        d.on_command(command("sendfile", Some("cellar"), None, Some("/a"))),
        CommandAction::SendFile { target_id, path } if target_id == "1" && path == "/a"
    ));
}

#[test]
fn commands_that_lack_something_do_nothing() {
    let mut d = daemon();
    d.channel_opened("1");
    for c in [
        command("connect", None, None, None),
        command("p2p", Some("1"), None, None),
        command("ls", Some("1"), None, None),
        command("download_req", Some("1"), None, None),
        command("sendfile", Some("1"), None, None),
        command("dance", Some("1"), Some("x"), Some("y")),
        command("", None, None, None),
    ] {
        assert!(matches!(d.on_command(c), CommandAction::Nothing));
    }
}

#[test]
fn the_callers_channel_is_kept_before_the_connection() {
    let mut d = daemon();
    let mut h = match d.on_command(command("connect", Some("1"), None, None)) {
        CommandAction::Call { handshake } => handshake,
        other => panic!("{:?}", other),
    };
    assert!(matches!(d.on_step(&mut h, Outcome::Done), Step::OpenChannel { .. }));
    assert!(matches!(
        d.on_command(command("p2p", Some("1"), Some("hi"), None)),
        CommandAction::NoTunnel { .. }
    ));
    assert!(matches!(d.on_step(&mut h, Outcome::Done), Step::CreateOffer));
    assert!(matches!(
        d.on_command(command("p2p", Some("1"), Some("hi"), None)),
        CommandAction::SendText { .. }
    ));
    assert!(matches!(d.on_step(&mut h, Outcome::Failed), Step::Abort));
    assert!(matches!(
        d.on_message(ServerMessage::PeerMessage {
            sender_id: "1".to_string(),
            payload: Some(SignalingPayload::IceCandidate { candidate: candidate() }),
        }),
        ServerAction::Nothing
    ));
}
