//! The receiving end of a transfer: what it says to the signalling server.
use vstd::prelude::*;
use crate::connection_handler::{signal, SignalMsg, SignalView};
use crate::text::{concat, str_eq};
use crate::webrtc_control::{getMsgType, message_type, WebRTCMessageType};

verus! {

/// Whether the peer id must be asked for: no id was given on the command line,
/// which is written `NULL`.
pub fn needs_peer_input(user_hash: &str) -> (b: bool)
    ensures
        b == (user_hash@ == "NULL"@),
{
    str_eq(user_hash, "NULL")
}

/// The first message of the receiving end: it asks as a client for the peer
/// `opp_id`.
pub fn client_hello(opp_id: &str) -> (m: SignalMsg)
    ensures
        m@ == signal("client"@, opp_id@, opp_id@),
{
    SignalMsg::new("client", opp_id, opp_id)
}

/// What the receiving end does on a message from the signalling server.
#[derive(Debug)]
pub enum ReceiverAction {
    /// Print this line.
    Print(String),
    /// Create an offer and forward it, under this id.
    CreateOffer(String),
    /// Take this SDP as the peer's answer, then forward the ICE candidates.
    AcceptAnswer(String),
    /// Add this ICE candidate to the peer connection.
    AddCandidate(String),
    /// Log this error and go on.
    LogError(String),
    /// Report the message as unexpected.
    ReportUnexpected,
}

/// The content of a `ReceiverAction`.
pub enum ReceiverDecision {
    Print(Seq<char>),
    CreateOffer(Seq<char>),
    AcceptAnswer(Seq<char>),
    AddCandidate(Seq<char>),
    LogError(Seq<char>),
    ReportUnexpected,
}

impl View for ReceiverAction {
    type V = ReceiverDecision;

    open spec fn view(&self) -> ReceiverDecision {
        match self {
            ReceiverAction::Print(s) => ReceiverDecision::Print(s@),
            ReceiverAction::CreateOffer(s) => ReceiverDecision::CreateOffer(s@),
            ReceiverAction::AcceptAnswer(s) => ReceiverDecision::AcceptAnswer(s@),
            ReceiverAction::AddCandidate(s) => ReceiverDecision::AddCandidate(s@),
            ReceiverAction::LogError(s) => ReceiverDecision::LogError(s@),
            ReceiverAction::ReportUnexpected => ReceiverDecision::ReportUnexpected,
        }
    }
}

/// The receiving end's answer to a message, given its current id `my_id`: the
/// new id and what to do. `server-accepted` makes the payload its id and creates
/// an offer; a `forward`ed session description that classifies as an offer is
/// taken as the peer's answer, a candidate is added, an answer or unknown payload
/// reported; `err` is logged; `confirmation` is printed; anything else is
/// unexpected.
pub open spec fn receiver_decision(my_id: Seq<char>, m: SignalView) -> (Seq<char>, ReceiverDecision) {
    if m.code == "confirmation"@ {
        (my_id, ReceiverDecision::Print("confirmed"@))
    } else if m.code == "server-accepted"@ {
        (m.data, ReceiverDecision::CreateOffer(m.data))
    } else if m.code == "forward"@ {
        (
            my_id,
            match message_type(m.data) {
                WebRTCMessageType::SDPOffer => ReceiverDecision::AcceptAnswer(m.data),
                WebRTCMessageType::SDPAnswer => ReceiverDecision::Print("got answer"@),
                WebRTCMessageType::ICECandidate => ReceiverDecision::AddCandidate(m.data),
                WebRTCMessageType::Unknown => ReceiverDecision::Print(
                    "Err: Bad word - "@ + m.data + " "@,
                ),
            },
        )
    } else if m.code == "err"@ {
        (my_id, ReceiverDecision::LogError(m.data))
    } else {
        (my_id, ReceiverDecision::ReportUnexpected)
    }
}

/// The receiving end's signalling state: the id the server gave it.
pub struct ReceiverSession {
    my_id: String,
}

impl View for ReceiverSession {
    type V = Seq<char>;

    closed spec fn view(&self) -> Seq<char> {
        self.my_id@
    }
}

impl ReceiverSession {
    /// The state before the server gave an id: the id reads `NULL`.
    pub fn new() -> (s: Self)
        ensures
            s@ == "NULL"@,
    {
        ReceiverSession { my_id: "NULL".to_owned() }
    }

    /// The id the server gave.
    pub fn my_id(&self) -> (r: String)
        ensures
            r@ == self@,
    {
        self.my_id.clone()
    }

    /// Decides what the receiving end does on a message from the server.
    pub fn step(&mut self, msg: &SignalMsg) -> (a: ReceiverAction)
        ensures
            (final(self)@, a@) == receiver_decision(old(self)@, msg@),
    {
        if str_eq(msg.code.as_str(), "confirmation") {
            ReceiverAction::Print("confirmed".to_owned())
        } else if str_eq(msg.code.as_str(), "server-accepted") {
            self.my_id = msg.data.clone();
            ReceiverAction::CreateOffer(msg.data.clone())
        } else if str_eq(msg.code.as_str(), "forward") {
            match getMsgType(msg.data.as_str()) {
                WebRTCMessageType::SDPOffer => ReceiverAction::AcceptAnswer(msg.data.clone()),
                WebRTCMessageType::SDPAnswer => ReceiverAction::Print("got answer".to_owned()),
                WebRTCMessageType::ICECandidate => ReceiverAction::AddCandidate(msg.data.clone()),
                WebRTCMessageType::Unknown => {
                    let line = concat("Err: Bad word - ", msg.data.as_str());
                    let line = concat(line.as_str(), " ");
                    ReceiverAction::Print(line)
                },
            }
        } else if str_eq(msg.code.as_str(), "err") {
            ReceiverAction::LogError(msg.data.clone())
        } else {
            ReceiverAction::ReportUnexpected
        }
    }
}

} // verus!
