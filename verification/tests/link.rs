use gens_relay::config::{dial, RETRY_SECONDS};
use gens_relay::link::{next_link_step, notice_of, LinkEvent, LinkStep};

#[test]
fn a_client_calls_what_it_finds() {
    assert!(matches!(
        next_link_step(LinkEvent::Looked { address: dial(Some("80\n")) }),
        LinkStep::Call { address } if address == "127.0.0.1:80"
    ));
    assert!(matches!(next_link_step(LinkEvent::Reached), LinkStep::Serve));
}

#[test]
fn a_client_waits_before_it_looks_again() {
    assert!(matches!(
        next_link_step(LinkEvent::Looked { address: dial(Some("no port")) }),
        LinkStep::Wait { seconds } if seconds == RETRY_SECONDS
    ));
    assert!(matches!(
        next_link_step(LinkEvent::Refused),
        LinkStep::Wait { seconds: 2 }
    ));
    assert!(matches!(next_link_step(LinkEvent::Waited), LinkStep::Look));
}

#[test]
fn a_client_that_lost_the_daemon_looks_at_once() {
    assert!(matches!(next_link_step(LinkEvent::Lost), LinkStep::Look));
}

#[test]
fn what_a_client_tells_itself_alternates() {
    let some = || Some("127.0.0.1:80".to_string());
    let run = vec![
        LinkEvent::Looked { address: None },
        LinkEvent::Waited,
        LinkEvent::Looked { address: some() },
        LinkEvent::Refused,
        LinkEvent::Waited,
        LinkEvent::Looked { address: some() },
        LinkEvent::Reached,
        LinkEvent::Heard,
        LinkEvent::Heard,
        LinkEvent::Lost,
        LinkEvent::Looked { address: some() },
        LinkEvent::Reached,
        LinkEvent::Lost,
    ];
    let mut told: Vec<String> = Vec::new();
    for event in run {
        told.extend(notice_of(&event).map(|n| n.event));
        let serving = matches!(next_link_step(event), LinkStep::Serve);
        assert_eq!(serving, told.len() % 2 == 1);
    }
    assert_eq!(told, vec!["_connected", "_disconnected", "_connected", "_disconnected"]);
}
