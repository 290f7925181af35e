use dockerbeam::clientbeam::{is_transfer_ack, must_wait, name_message, outgoing_messages, sent_progress, size_message};
use dockerbeam::transfer::{DataMessage, CHUNK_SIZE, MAX_BUFFERED_AMOUNT};
use dockerbeam::webrtc_control::{transfer_ack, ReceiveAction, ReceiveState};

fn sample(len: usize) -> Vec<u8> {
    (0..len).map(|i| (i * 7 % 251) as u8).collect()
}

fn deliver(msgs: Vec<DataMessage>) -> (ReceiveState, Vec<ReceiveAction>) {
    let mut state = ReceiveState::new();
    let mut actions = Vec::new();
    for m in msgs {
        let a = match m {
            DataMessage::Text(t) => state.on_text(&t),
            DataMessage::Binary(b) => state.on_binary(b, false),
        };
        actions.push(a);
    }
    (state, actions)
}

#[test]
fn round_trip_delivers_the_image() {
    let content = sample(3 * CHUNK_SIZE + 123);
    let msgs = outgoing_messages("alpine", &content);
    let (state, actions) = deliver(msgs);
    match actions.last().unwrap() {
        ReceiveAction::Complete { data, mismatch } => {
            assert_eq!(data, &content);
            assert_eq!(*mismatch, None);
        }
        other => panic!("unexpected {:?}", other),
    }
    assert_eq!(state.docker_name(), Some("alpine".to_string()));
    assert_eq!(state.expected_size(), Some(content.len()));
    assert_eq!(state.received(), content.len() as u64);
    assert_eq!(state.chunk_count(), 4);
}

#[test]
fn round_trip_keeps_the_name_up_to_its_first_colon() {
    let content = sample(10);
    let (state, actions) = deliver(outgoing_messages("rust:latest", &content));
    assert_eq!(state.docker_name(), Some("rust".to_string()));
    assert!(matches!(actions.last().unwrap(), ReceiveAction::Complete { data, mismatch: None } if data == &content));
}

#[test]
fn round_trip_of_an_empty_image() {
    let (state, actions) = deliver(outgoing_messages("empty", &[]));
    assert_eq!(state.chunk_count(), 0);
    assert!(matches!(actions.last().unwrap(), ReceiveAction::Complete { data, mismatch: None } if data.is_empty()));
}

#[test]
fn outgoing_messages_are_in_protocol_order() {
    let content = sample(CHUNK_SIZE * 2);
    let msgs = outgoing_messages("img", &content);
    assert_eq!(msgs.len(), 5);
    assert!(matches!(&msgs[0], DataMessage::Text(t) if t == "FILE_NAME:img"));
    assert!(matches!(&msgs[1], DataMessage::Text(t) if t == "FILE_SIZE:32768"));
    assert!(matches!(&msgs[2], DataMessage::Binary(b) if b.len() == CHUNK_SIZE && b[..] == content[..CHUNK_SIZE]));
    assert!(matches!(&msgs[3], DataMessage::Binary(b) if b[..] == content[CHUNK_SIZE..]));
    assert!(matches!(&msgs[4], DataMessage::Text(t) if t == "END_OF_TRANSFER"));
}

#[test]
fn outgoing_chunks_match_slice_chunks() {
    let content = sample(CHUNK_SIZE * 3 + 1);
    let msgs = outgoing_messages("x", &content);
    let bins: Vec<Vec<u8>> = msgs
        .into_iter()
        .filter_map(|m| match m {
            DataMessage::Binary(b) => Some(b),
            _ => None,
        })
        .collect();
    let expected: Vec<Vec<u8>> = content.chunks(CHUNK_SIZE).map(|c| c.to_vec()).collect();
    assert_eq!(bins, expected);
}

#[test]
fn announcements_have_exact_text() {
    assert_eq!(name_message("my-app"), "FILE_NAME:my-app");
    assert_eq!(size_message(0), "FILE_SIZE:0");
    assert_eq!(size_message(1048576), "FILE_SIZE:1048576");
}

#[test]
fn size_mismatch_is_reported() {
    let mut state = ReceiveState::new();
    assert!(matches!(state.on_text("FILE_SIZE:10"), ReceiveAction::StartProgress { total: 10 }));
    state.on_binary(vec![1, 2, 3], false);
    match state.on_text("END_OF_TRANSFER") {
        ReceiveAction::Complete { data, mismatch } => {
            assert_eq!(data, vec![1, 2, 3]);
            assert_eq!(mismatch, Some((10, 3)));
        }
        other => panic!("unexpected {:?}", other),
    }
}

#[test]
fn completion_without_announced_size_has_no_mismatch() {
    let mut state = ReceiveState::new();
    state.on_binary(vec![9, 8], false);
    state.on_binary(vec![7], false);
    assert!(matches!(state.on_text("END_OF_TRANSFER"), ReceiveAction::Complete { data, mismatch: None } if data == vec![9, 8, 7]));
}

#[test]
fn bad_size_announcements_are_ignored() {
    let mut state = ReceiveState::new();
    assert!(matches!(state.on_text("FILE_SIZE:abc"), ReceiveAction::Nothing));
    assert!(matches!(state.on_text("FILE_SIZE:"), ReceiveAction::Nothing));
    assert!(matches!(state.on_text("FILE_SIZE:-4"), ReceiveAction::Nothing));
    assert_eq!(state.expected_size(), None);
    assert!(matches!(state.on_text("FILE_SIZE:+12:34"), ReceiveAction::StartProgress { total: 12 }));
    assert_eq!(state.expected_size(), Some(12));
}

#[test]
fn other_texts_are_ignored() {
    let mut state = ReceiveState::new();
    assert!(matches!(state.on_text("hello"), ReceiveAction::Nothing));
    assert!(matches!(state.on_text("END_OF_TRANSFER | "), ReceiveAction::Nothing));
    assert!(matches!(state.on_text("FILE_NAME:"), ReceiveAction::Nothing));
    assert_eq!(state.docker_name(), Some(String::new()));
}

#[test]
fn progress_follows_received_bytes() {
    let mut state = ReceiveState::new();
    state.on_text("FILE_SIZE:5");
    assert!(matches!(state.on_binary(vec![0; 3], true), ReceiveAction::Progress { position: 3, finished: false }));
    assert!(matches!(state.on_binary(vec![0; 2], true), ReceiveAction::Progress { position: 5, finished: true }));
    assert!(matches!(state.on_binary(vec![0; 1], false), ReceiveAction::Nothing));
    assert_eq!(state.received(), 6);
}

#[test]
fn flow_control_waits_above_the_limit() {
    assert!(!must_wait(0, CHUNK_SIZE));
    assert!(!must_wait(MAX_BUFFERED_AMOUNT - CHUNK_SIZE, CHUNK_SIZE));
    assert!(must_wait(MAX_BUFFERED_AMOUNT - CHUNK_SIZE + 1, CHUNK_SIZE));
}

#[test]
fn sent_progress_finishes_at_total() {
    assert_eq!(sent_progress(0, 100, 250), (100, false));
    assert_eq!(sent_progress(200, 50, 250), (250, true));
}

#[test]
fn acknowledgement_is_recognised() {
    let ack = transfer_ack();
    assert_eq!(ack, "END_OF_TRANSFER | ");
    assert!(is_transfer_ack(&ack));
    assert!(is_transfer_ack("END_OF_TRANSFER"));
    assert!(!is_transfer_ack("END_OF_TRANSFE"));
}

#[test]
fn sending_progress_finishes_with_the_last_chunk() {
    let content = sample(2 * CHUNK_SIZE + 5);
    let total = content.len() as u64;
    let chunks: Vec<Vec<u8>> = outgoing_messages("p", &content)
        .into_iter()
        .filter_map(|m| match m {
            DataMessage::Binary(b) => Some(b),
            _ => None,
        })
        .collect();
    let mut pos = 0u64;
    let mut finished_at = Vec::new();
    for (i, c) in chunks.iter().enumerate() {
        let (p, finished) = sent_progress(pos, c.len(), total);
        pos = p;
        if finished {
            finished_at.push(i);
        }
    }
    assert_eq!(pos, total);
    assert_eq!(finished_at, vec![chunks.len() - 1]);
}
