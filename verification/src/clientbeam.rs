//! The sending end of a transfer: what it says to the signalling server and
//! what it puts on the data channel.
use vstd::prelude::*;
pub use crate::connection_handler::SignalMsg;
use crate::connection_handler::{signal, SignalView};
use crate::text::{concat, push_decimal, starts_with, str_eq, str_starts_with};
use crate::transfer::{
    binary_events, chunks_of, events_of, name_text, size_text, transfer_events, DataEvent,
    DataMessage, CHUNK_SIZE, MAX_BUFFERED_AMOUNT,
};
use crate::webrtc_control::{getMsgType, message_type, WebRTCMessageType};

verus! {

// ---------------------------------------------------------------------------
// Data channel
// ---------------------------------------------------------------------------

/// The text announcing the image name.
pub fn name_message(name: &str) -> (s: String)
    ensures
        s@ == name_text(name@),
{
    concat("FILE_NAME:", name)
}

/// The text announcing the byte count.
pub fn size_message(len: usize) -> (s: String)
    ensures
        s@ == size_text(len as nat),
{
    let mut s = "FILE_SIZE:".to_owned();
    push_decimal(&mut s, len);
    s
}

/// Every message to put on the data channel, in order, for the image `name`
/// whose bytes are `content`.
pub fn outgoing_messages(name: &str, content: &[u8]) -> (msgs: Vec<DataMessage>)
    ensures
        events_of(msgs@) == transfer_events(name@, content@),
{
    let mut msgs: Vec<DataMessage> = Vec::new();
    msgs.push(DataMessage::Text(name_message(name)));
    msgs.push(DataMessage::Text(size_message(content.len())));
    let ghost head = seq![DataEvent::Text(name_text(name@)), DataEvent::Text(size_text(content@.len()))];
    assert(events_of(msgs@) =~= head);
    let ghost whole = chunks_of(content@, CHUNK_SIZE as nat);
    let ghost mut done: Seq<Seq<u8>> = Seq::empty();
    let len = content.len();
    let mut pos: usize = 0;
    assert(content@.skip(0) =~= content@);
    assert(done + chunks_of(content@.skip(0), CHUNK_SIZE as nat) =~= whole);
    assert(binary_events(done) =~= Seq::<DataEvent>::empty());
    while pos < len
        invariant
            len == content@.len(),
            pos <= len,
            done + chunks_of(content@.skip(pos as int), CHUNK_SIZE as nat) == whole,
            events_of(msgs@) == head + binary_events(done),
        decreases len - pos,
    {
        let end = if len - pos <= CHUNK_SIZE { len } else { pos + CHUNK_SIZE };
        let mut chunk: Vec<u8> = Vec::new();
        let mut j = pos;
        while j < end
            invariant
                pos <= j <= end <= len,
                len == content@.len(),
                chunk@ == content@.subrange(pos as int, j as int),
            decreases end - j,
        {
            chunk.push(content[j]);
            assert(content@.subrange(pos as int, j + 1) =~= content@.subrange(pos as int, j as int).push(content@[j as int]));
            j = j + 1;
        }
        let ghost rest = content@.skip(pos as int);
        proof {
            if len - pos <= CHUNK_SIZE {
                assert(chunk@ =~= rest);
                assert(content@.skip(end as int) =~= Seq::<u8>::empty());
                assert(chunks_of(rest, CHUNK_SIZE as nat) == seq![rest]);
            } else {
                assert(chunk@ =~= rest.take(CHUNK_SIZE as int));
                assert(rest.skip(CHUNK_SIZE as int) =~= content@.skip(end as int));
            }
            assert((done.push(chunk@)) + chunks_of(content@.skip(end as int), CHUNK_SIZE as nat)
                =~= done + chunks_of(rest, CHUNK_SIZE as nat));
        }
        let ghost before = msgs@;
        msgs.push(DataMessage::Binary(chunk));
        proof {
            assert(events_of(msgs@) =~= events_of(before).push(DataEvent::Binary(chunk@)));
            assert(binary_events(done.push(chunk@)) =~= binary_events(done).push(DataEvent::Binary(chunk@)));
            done = done.push(chunk@);
        }
        pos = end;
    }
    proof {
        assert(content@.skip(pos as int) =~= Seq::<u8>::empty());
        assert(done =~= whole);
    }
    let ghost before = msgs@;
    msgs.push(DataMessage::Text("END_OF_TRANSFER".to_owned()));
    assert(events_of(msgs@) =~= events_of(before).push(DataEvent::Text("END_OF_TRANSFER"@)));
    assert(events_of(msgs@) =~= transfer_events(name@, content@));
    msgs
}

/// Whether the sending end waits for the channel to drain before the next chunk:
/// when what is buffered plus the chunk just sent exceeds `MAX_BUFFERED_AMOUNT`.
pub fn must_wait(buffered: usize, chunk_len: usize) -> (b: bool)
    requires
        buffered + chunk_len <= usize::MAX,
    ensures
        b == (buffered + chunk_len > MAX_BUFFERED_AMOUNT),
{
    buffered + chunk_len > MAX_BUFFERED_AMOUNT
}

/// The progress after a chunk of `chunk_len` bytes was sent from position `pos`
/// of `total` bytes: the new position, and whether the transfer is finished.
pub fn sent_progress(pos: u64, chunk_len: usize, total: u64) -> (r: (u64, bool))
    requires
        pos + chunk_len <= u64::MAX,
    ensures
        r.0 == pos + chunk_len,
        r.1 == (pos + chunk_len >= total),
{
    let next = pos + chunk_len as u64;
    (next, next >= total)
}

/// Whether a text from the receiving end acknowledges the end of the transfer.
pub fn is_transfer_ack(text: &str) -> (b: bool)
    ensures
        b == starts_with(text@, "END_OF_TRANSFER"@),
{
    str_starts_with(text, "END_OF_TRANSFER")
}

// ---------------------------------------------------------------------------
// Signalling
// ---------------------------------------------------------------------------

/// The first message of the sending end: it registers as a server.
pub fn sender_hello() -> (m: SignalMsg)
    ensures
        m@ == signal("server"@, "null"@, "null"@),
{
    SignalMsg::new("server", "null", "null")
}

/// What the sending end does on a message from the signalling server.
#[derive(Debug)]
pub enum SenderAction {
    /// Send this message to the server.
    Reply(SignalMsg),
    /// Answer this SDP offer, then forward the answer and the ICE candidates.
    AnswerOffer(String),
    /// Add this ICE candidate to the peer connection.
    AddCandidate(String),
    /// Print this line.
    Print(String),
    /// Log this error, close the connection to the server and exit with status 1.
    Fatal(String),
    /// Report the message as unexpected.
    ReportUnexpected,
}

/// The content of a `SenderAction`.
pub enum SenderDecision {
    Reply(SignalView),
    AnswerOffer(Seq<char>),
    AddCandidate(Seq<char>),
    Print(Seq<char>),
    Fatal(Seq<char>),
    ReportUnexpected,
}

impl View for SenderAction {
    type V = SenderDecision;

    open spec fn view(&self) -> SenderDecision {
        match self {
            SenderAction::Reply(m) => SenderDecision::Reply(m@),
            SenderAction::AnswerOffer(s) => SenderDecision::AnswerOffer(s@),
            SenderAction::AddCandidate(s) => SenderDecision::AddCandidate(s@),
            SenderAction::Print(s) => SenderDecision::Print(s@),
            SenderAction::Fatal(s) => SenderDecision::Fatal(s@),
            SenderAction::ReportUnexpected => SenderDecision::ReportUnexpected,
        }
    }
}

/// The sending end's answer to a message: `confirmation` is accepted with a
/// `server-accept` carrying the same payload and id; a `forward`ed offer is
/// answered, a candidate added, an answer or unknown payload reported; `err` is
/// fatal; any other command is unexpected.
pub open spec fn sender_decision(m: SignalView) -> SenderDecision {
    if m.code == "confirmation"@ {
        SenderDecision::Reply(signal("server-accept"@, m.data, m.id))
    } else if m.code == "forward"@ {
        match message_type(m.data) {
            WebRTCMessageType::SDPOffer => SenderDecision::AnswerOffer(m.data),
            WebRTCMessageType::SDPAnswer => SenderDecision::Print("got answer"@),
            WebRTCMessageType::ICECandidate => SenderDecision::AddCandidate(m.data),
            WebRTCMessageType::Unknown => SenderDecision::Print("unknown answer"@),
        }
    } else if m.code == "err"@ {
        SenderDecision::Fatal(m.data)
    } else {
        SenderDecision::ReportUnexpected
    }
}

/// Decides what the sending end does on a message from the signalling server.
pub fn sender_step(msg: &SignalMsg) -> (a: SenderAction)
    ensures
        a@ == sender_decision(msg@),
{
    if str_eq(msg.code.as_str(), "confirmation") {
        SenderAction::Reply(SignalMsg::new("server-accept", msg.data.as_str(), msg.id.as_str()))
    } else if str_eq(msg.code.as_str(), "forward") {
        match getMsgType(msg.data.as_str()) {
            WebRTCMessageType::SDPOffer => SenderAction::AnswerOffer(msg.data.clone()),
            WebRTCMessageType::SDPAnswer => SenderAction::Print("got answer".to_owned()),
            WebRTCMessageType::ICECandidate => SenderAction::AddCandidate(msg.data.clone()),
            WebRTCMessageType::Unknown => SenderAction::Print("unknown answer".to_owned()),
        }
    } else if str_eq(msg.code.as_str(), "err") {
        SenderAction::Fatal(msg.data.clone())
    } else {
        SenderAction::ReportUnexpected
    }
}

} // verus!
