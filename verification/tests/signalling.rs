use dockerbeam::clientbeam::{sender_hello, sender_step, SenderAction};
use dockerbeam::connection_handler::{forward_message, SignalMsg};
use dockerbeam::serverbeacon::{client_hello, needs_peer_input, ReceiverAction, ReceiverSession};
use dockerbeam::webrtc_control::{
    getMsgType, ice_forward, on_peer_state, PeerState, WebRTCMessageType,
};

const OFFER: &str = "v=0\r\no=- 1 2 IN IP4 127.0.0.1\r\ns=-\r\nt=0 0\r\na=sendrecv\r\n";
const ANSWER: &str = "v=0\r\no=- 1 2 IN IP4 127.0.0.1\r\ns=-\r\nt=0 0\r\na=recvonly\r\n";

fn msg(code: &str, data: &str, id: &str) -> SignalMsg {
    SignalMsg::new(code, data, id)
}

#[test]
fn payload_kinds() {
    assert_eq!(getMsgType("candidate:1 1 UDP 2122260223 10.0.0.1 5000 typ host"), WebRTCMessageType::ICECandidate);
    assert_eq!(getMsgType("  \n candidate:x"), WebRTCMessageType::ICECandidate);
    assert_eq!(getMsgType(OFFER), WebRTCMessageType::SDPOffer);
    assert_eq!(getMsgType("v=0 o= s= m=video"), WebRTCMessageType::SDPOffer);
    assert_eq!(getMsgType("v=0 o= s= m=audio"), WebRTCMessageType::SDPOffer);
    assert_eq!(getMsgType(ANSWER), WebRTCMessageType::SDPAnswer);
    assert_eq!(getMsgType("v=0 o= missing"), WebRTCMessageType::Unknown);
    assert_eq!(getMsgType("hello"), WebRTCMessageType::Unknown);
    assert_eq!(getMsgType(""), WebRTCMessageType::Unknown);
}

#[test]
fn payload_kind_ignores_surrounding_whitespace() {
    for p in [OFFER, ANSWER, "candidate:9", "junk"] {
        let padded = format!(" \t\u{3000}{}\n\u{a0}", p);
        assert_eq!(getMsgType(&padded), getMsgType(p));
    }
}

#[test]
fn hellos() {
    let s = sender_hello();
    assert_eq!((s.code.as_str(), s.data.as_str(), s.id.as_str()), ("server", "null", "null"));
    let c = client_hello("MTI3LjAuMC4x");
    assert_eq!((c.code.as_str(), c.data.as_str(), c.id.as_str()), ("client", "MTI3LjAuMC4x", "MTI3LjAuMC4x"));
    let f = forward_message("sdp", "id7");
    assert_eq!((f.code.as_str(), f.data.as_str(), f.id.as_str()), ("forward", "sdp", "id7"));
}

#[test]
fn sender_confirms_with_server_accept() {
    match sender_step(&msg("confirmation", "peer-1", "id-9")) {
        SenderAction::Reply(m) => {
            assert_eq!((m.code.as_str(), m.data.as_str(), m.id.as_str()), ("server-accept", "peer-1", "id-9"));
        }
        other => panic!("unexpected {:?}", other),
    }
}

#[test]
fn sender_forward_decisions() {
    assert!(matches!(sender_step(&msg("forward", OFFER, "x")), SenderAction::AnswerOffer(s) if s == OFFER));
    assert!(matches!(sender_step(&msg("forward", ANSWER, "x")), SenderAction::Print(s) if s == "got answer"));
    assert!(matches!(sender_step(&msg("forward", "candidate:1", "x")), SenderAction::AddCandidate(s) if s == "candidate:1"));
    assert!(matches!(sender_step(&msg("forward", "??", "x")), SenderAction::Print(s) if s == "unknown answer"));
}

#[test]
fn sender_error_and_unexpected() {
    assert!(matches!(sender_step(&msg("err", "no such peer", "")), SenderAction::Fatal(s) if s == "no such peer"));
    assert!(matches!(sender_step(&msg("hello", "", "")), SenderAction::ReportUnexpected));
}

#[test]
fn receiver_takes_its_id_and_offers() {
    let mut r = ReceiverSession::new();
    assert_eq!(r.my_id(), "NULL");
    assert!(matches!(r.step(&msg("confirmation", "", "")), ReceiverAction::Print(s) if s == "confirmed"));
    assert!(matches!(r.step(&msg("server-accepted", "abc", "")), ReceiverAction::CreateOffer(s) if s == "abc"));
    assert_eq!(r.my_id(), "abc");
    assert!(matches!(r.step(&msg("forward", OFFER, "")), ReceiverAction::AcceptAnswer(s) if s == OFFER));
    assert!(matches!(r.step(&msg("forward", ANSWER, "")), ReceiverAction::Print(s) if s == "got answer"));
    assert!(matches!(r.step(&msg("forward", "candidate:2", "")), ReceiverAction::AddCandidate(s) if s == "candidate:2"));
    assert!(matches!(r.step(&msg("forward", "junk", "")), ReceiverAction::Print(s) if s == "Err: Bad word - junk "));
    assert!(matches!(r.step(&msg("err", "bad", "")), ReceiverAction::LogError(s) if s == "bad"));
    assert!(matches!(r.step(&msg("other", "", "")), ReceiverAction::ReportUnexpected));
    assert_eq!(r.my_id(), "abc");
}

#[test]
fn peer_input_only_for_null() {
    assert!(needs_peer_input("NULL"));
    assert!(!needs_peer_input("MTI3LjAuMC4x"));
    assert!(!needs_peer_input(""));
}

#[test]
fn ice_candidates_are_forwarded_until_complete() {
    let m = ice_forward("candidate:1 1 udp", "me").unwrap();
    assert_eq!((m.code.as_str(), m.data.as_str(), m.id.as_str()), ("forward", "candidate:1 1 udp", "me"));
    assert!(ice_forward("ICE_GATHERING_COMPLETE", "me").is_none());
}

#[test]
fn peer_state_reactions() {
    let r = on_peer_state(PeerState::New);
    assert_eq!(r.line.as_deref(), Some("State: New"));
    assert_eq!(r.exit_code, None);
    assert_eq!(on_peer_state(PeerState::Connecting).line.as_deref(), Some("Connecting to peer"));
    assert_eq!(on_peer_state(PeerState::Connected).line.as_deref(), Some("Connected to peer"));
    let d = on_peer_state(PeerState::Disconnected);
    assert_eq!(d.error.as_deref(), Some("Peer Disconnected."));
    assert_eq!(d.exit_code, Some(1));
    let f = on_peer_state(PeerState::Failed);
    assert_eq!(f.line.as_deref(), Some("State: Failed - Timeout or peer disconnected."));
    assert_eq!(f.exit_code, None);
    let c = on_peer_state(PeerState::Closed);
    assert!(c.clear_files);
    assert_eq!(c.exit_code, Some(0));
    assert_eq!(c.line, None);
}
