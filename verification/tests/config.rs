use gens_relay::config::{
    announce_addresses, choose_node_name, dial, ipc_port_file, launch_attempt, names_port, pairing,
    port_note, settings_file, settings_path, settings_text, shared_file_path, shell_dial,
    SettingsFile, ANNOUNCE_SECONDS, DISCOVERY_PORT, PACKET_BYTES, RETRY_SECONDS,
};

fn some(s: &str) -> Option<String> {
    Some(s.to_string())
}

#[test]
fn the_first_name_that_is_given_counts() {
    assert_eq!(choose_node_name(some("n"), some("h"), some("m")), "n");
    assert_eq!(choose_node_name(None, some("h"), some("m")), "h");
    assert_eq!(choose_node_name(None, None, some("m")), "m");
    assert_eq!(choose_node_name(None, None, None), "Unknown");
    assert_eq!(choose_node_name(some(""), some("h"), None), "");
}

#[test]
fn a_pairing_takes_an_address_and_a_token() {
    let p = pairing(some("wss://r"), some("t")).unwrap();
    assert_eq!((p.relay_domain.as_str(), p.auth_token.as_str()), ("wss://r", "t"));
    assert!(pairing(some("wss://r"), None).is_none());
    assert!(pairing(None, some("t")).is_none());
    assert!(pairing(None, None).is_none());
}

#[test]
fn settings_are_looked_for_nearby() {
    assert_eq!(settings_file(true, true), SettingsFile::Here);
    assert_eq!(settings_file(true, false), SettingsFile::Here);
    assert_eq!(settings_file(false, true), SettingsFile::Above);
    assert_eq!(settings_file(false, false), SettingsFile::Search);
}

#[test]
fn shared_files_lie_beside_the_programs() {
    assert_eq!(ipc_port_file(Some("gens-gui"), "gens-gui"), "../.ipc_port");
    assert_eq!(ipc_port_file(Some("relay"), "gens-gui"), ".ipc_port");
    assert_eq!(ipc_port_file(None, "gens-daemon"), ".ipc_port");
    assert_eq!(settings_path(Some("gens-gui"), "gens-gui"), "../.env");
    assert_eq!(settings_path(Some("gens-daemon"), "gens-gui"), ".env");
    assert_eq!(shared_file_path(Some("a"), "a", "b"), "../b");
}

#[test]
fn settings_are_two_lines() {
    assert_eq!(
        settings_text("wss://relay.example.com", "t0k"),
        "RELAY_DOMAIN=wss://relay.example.com\nAUTH_TOKEN=t0k\n"
    );
    assert_eq!(settings_text("", ""), "RELAY_DOMAIN=\nAUTH_TOKEN=\n");
}

#[test]
fn a_node_is_announced_at_the_usual_addresses() {
    assert_eq!(
        announce_addresses(None),
        vec!["255.255.255.255:8888", "192.168.1.255:8888", "192.168.0.255:8888", "10.0.0.255:8888"]
    );
    assert_eq!(announce_addresses(some("10.1.255.255:9")), vec!["10.1.255.255:9"]);
    assert!(names_port(None));
    assert!(names_port(Some("10.1.255.255:9")));
    assert!(!names_port(Some("10.1.255.255")));
    assert_eq!((DISCOVERY_PORT, PACKET_BYTES), (8888, 1024));
    assert_eq!((ANNOUNCE_SECONDS, RETRY_SECONDS), (5, 2));
}

#[test]
fn clients_find_the_daemon() {
    for port in [0u16, 80, 61879, 65535] {
        let note = port_note(port);
        assert_eq!(note, port.to_string());
        let want = format!("127.0.0.1:{}", port);
        assert_eq!(dial(Some(note.as_str())), Some(want.clone()));
        assert_eq!(dial(Some(format!(" {}\n", note).as_str())), Some(want.clone()));
        assert_eq!(shell_dial(Some(note.clone()), None), want);
        assert_eq!(shell_dial(None, Some(note + "\n")), want);
    }
}

#[test]
fn a_note_that_is_no_port_leads_nowhere() {
    for note in ["", "port", "65536", "-1", "80 81"] {
        assert_eq!(dial(Some(note)), None);
    }
    assert_eq!(dial(None), None);
    assert_eq!(dial(Some("+80")), some("127.0.0.1:80"));
}

#[test]
fn the_shell_takes_what_was_written() {
    assert_eq!(shell_dial(None, None), "127.0.0.1:61879");
    assert_eq!(shell_dial(some(" x "), some("1")), "127.0.0.1:x");
    assert_eq!(shell_dial(some(""), some("1")), "127.0.0.1:");
}

#[test]
fn the_daemon_is_started_in_two_ways() {
    assert_eq!(launch_attempt(0), Some(("./gens-daemon".to_string(), vec![])));
    assert_eq!(
        launch_attempt(1),
        Some((
            "cargo".to_string(),
            vec!["run".to_string(), "-p".to_string(), "gens-daemon".to_string()]
        ))
    );
    assert_eq!(launch_attempt(2), None);
}

#[test]
fn daemon_and_client_share_a_file() {
    let resolve = |dir: &str, own: &str| {
        let name = dir.rsplit('/').next();
        let place = ipc_port_file(name, own);
        match place.strip_prefix("../") {
            Some(file) => format!("{}/{}", dir.rsplit_once('/').unwrap().0, file),
            None => format!("{}/{}", dir, place),
        }
    };
    for daemon in ["/w", "/w/gens-daemon"] {
        for client in ["/w", "/w/gens-gui"] {
            assert_eq!(resolve(daemon, "gens-daemon"), "/w/.ipc_port");
            assert_eq!(resolve(client, "gens-gui"), "/w/.ipc_port");
        }
    }
}
