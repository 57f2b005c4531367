use gens_relay::signaling::{
    candidate_action, send_to, Handshake, IceCandidate, Outcome, SessionDescription,
    SignalingPayload, Step,
};

fn sdp(kind: &str, text: &str) -> SessionDescription {
    SessionDescription { kind: kind.to_string(), sdp: text.to_string() }
}

#[test]
fn a_call_ends_in_an_offer() {
    let mut h = Handshake::call("peer-1", "attic");
    assert_eq!(h.target_id(), "peer-1");
    assert!(!h.opens_channel());
    assert!(matches!(h.advance(Outcome::Done), Step::OpenChannel { label } if label == "data"));
    assert!(h.opens_channel());
    assert!(matches!(h.advance(Outcome::Done), Step::CreateOffer));
    assert!(!h.opens_channel());
    match h.advance(Outcome::Described { sdp: sdp("offer", "v=0") }) {
        Step::ApplyLocal { sdp } => assert_eq!((sdp.kind.as_str(), sdp.sdp.as_str()), ("offer", "v=0")),
        other => panic!("{:?}", other),
    }
    match h.advance(Outcome::Done) {
        Step::Finish { action } => {
            assert_eq!(action.action, "send");
            assert_eq!(action.target_id, "peer-1");
            match action.payload {
                SignalingPayload::Offer { sdp, hostname } => {
                    assert_eq!(sdp.sdp, "v=0");
                    assert_eq!(hostname, "attic");
                }
                other => panic!("{:?}", other),
            }
        }
        other => panic!("{:?}", other),
    }
    assert!(matches!(h.advance(Outcome::Done), Step::Abort));
}

#[test]
fn an_answer_follows_an_offer() {
    let mut h = Handshake::answer("peer-1", "attic", sdp("offer", "theirs"));
    match h.advance(Outcome::Done) {
        Step::ApplyRemote { sdp } => assert_eq!(sdp.sdp, "theirs"),
        other => panic!("{:?}", other),
    }
    assert!(matches!(h.advance(Outcome::Done), Step::CreateAnswer));
    assert!(matches!(
        h.advance(Outcome::Described { sdp: sdp("answer", "ours") }),
        Step::ApplyLocal { .. }
    ));
    match h.advance(Outcome::Done) {
        Step::Finish { action } => match action.payload {
            SignalingPayload::Answer { sdp, hostname } => {
                assert_eq!((sdp.kind.as_str(), sdp.sdp.as_str()), ("answer", "ours"));
                assert_eq!(hostname, "attic");
            }
            other => panic!("{:?}", other),
        },
        other => panic!("{:?}", other),
    }
}

#[test]
fn a_failed_step_ends_a_handshake() {
    for failing in 0..4 {
        let mut h = Handshake::call("peer-1", "attic");
        for step in 0..4 {
            let outcome = if step == failing {
                Outcome::Failed
            } else if step == 2 {
                Outcome::Described { sdp: sdp("offer", "v=0") }
            } else {
                Outcome::Done
            };
            let next = h.advance(outcome);
            assert_eq!(matches!(next, Step::Abort), step >= failing);
            assert!(!matches!(next, Step::Finish { .. }));
        }
    }
}

#[test]
fn a_step_that_came_to_something_else_ends_a_handshake() {
    let mut h = Handshake::call("peer-1", "attic");
    assert!(matches!(
        h.advance(Outcome::Described { sdp: sdp("offer", "v=0") }),
        Step::Abort
    ));
}

#[test]
fn candidates_are_sent_to_the_peer() {
    let action = candidate_action(
        "peer-1",
        IceCandidate {
            candidate: "candidate:1".to_string(),
            sdp_mid: Some("0".to_string()),
            sdp_mline_index: Some(0),
            username_fragment: None,
        },
    );
    assert_eq!(action.action, "send");
    assert_eq!(action.target_id, "peer-1");
    match action.payload {
        SignalingPayload::IceCandidate { candidate } => {
            assert_eq!(candidate.candidate, "candidate:1");
            assert_eq!(candidate.sdp_mid, Some("0".to_string()));
            assert_eq!(candidate.sdp_mline_index, Some(0));
            assert_eq!(candidate.username_fragment, None);
        }
        other => panic!("{:?}", other),
    }
    let chat = send_to("peer-2", SignalingPayload::Chat { message: "hi".to_string() });
    assert_eq!((chat.action.as_str(), chat.target_id.as_str()), ("send", "peer-2"));
    assert_eq!(sdp("offer", "x").copy().sdp, "x");
}
