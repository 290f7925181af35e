//! WebRTC side of a transfer: classifying signalling payloads, the receiving end
//! of the data channel, reactions to peer-connection state changes, and the
//! connection settings.
use vstd::prelude::*;
use crate::text::{
    all_whitespace, lemma_trim_padding, chars_of, contains, contains_exec, parse_usize, parse_usize_exec, second_field,
    second_field_exec, starts_with, starts_with_exec, str_eq, string_of, trim, trim_exec,
};
use crate::transfer::{concat_all, lemma_concat_all_push};
use crate::connection_handler::{signal, SignalMsg};

verus! {

// ---------------------------------------------------------------------------
// Classifying signalling payloads
// ---------------------------------------------------------------------------

/// What a payload forwarded by the signalling server carries.
#[derive(Debug, Clone, Copy, PartialEq, Eq, Structural)]
pub enum WebRTCMessageType {
    SDPOffer,
    SDPAnswer,
    ICECandidate,
    Unknown,
}

/// The kind of a payload: after trimming whitespace, an ICE candidate starts with
/// `candidate:`; a session description holds `v=0`, `o=` and `s=`, and is an
/// offer when it also holds `a=sendrecv`, `m=audio` or `m=video`, an answer
/// otherwise; anything else is unknown.
pub open spec fn message_type(input: Seq<char>) -> WebRTCMessageType {
    let t = trim(input);
    if starts_with(t, "candidate:"@) {
        WebRTCMessageType::ICECandidate
    } else if contains(t, "v=0"@) && contains(t, "o="@) && contains(t, "s="@) {
        if contains(t, "a=sendrecv"@) || contains(t, "m=audio"@) || contains(t, "m=video"@) {
            WebRTCMessageType::SDPOffer
        } else {
            WebRTCMessageType::SDPAnswer
        }
    } else {
        WebRTCMessageType::Unknown
    }
}

/// Whitespace around a payload does not change its kind.
pub proof fn lemma_message_type_ignores_padding(pre: Seq<char>, s: Seq<char>, post: Seq<char>)
    requires
        all_whitespace(pre),
        all_whitespace(post),
    ensures
        message_type(pre + s + post) == message_type(s),
{
    lemma_trim_padding(pre, s, post);
}

/// Only a payload whose trimmed text starts with `candidate:` is an ICE
/// candidate, and every such payload is one. A payload that does not, and that
/// holds `v=0`, `o=`, `s=` and one of `a=sendrecv`, `m=audio`, `m=video`, is an
/// offer, even when it carries `a=candidate:` lines; with `v=0`, `o=` and `s=`
/// but none of those three it is an answer; without all of `v=0`, `o=` and `s=`
/// it is unknown.
pub proof fn lemma_message_type_cases(s: Seq<char>)
    ensures
        (message_type(s) == WebRTCMessageType::ICECandidate) == starts_with(
            trim(s),
            "candidate:"@,
        ),
        !starts_with(trim(s), "candidate:"@) ==> {
            let t = trim(s);
            let sdp = contains(t, "v=0"@) && contains(t, "o="@) && contains(t, "s="@);
            let offer = contains(t, "a=sendrecv"@) || contains(t, "m=audio"@) || contains(
                t,
                "m=video"@,
            );
            &&& (message_type(s) == WebRTCMessageType::SDPOffer) == (sdp && offer)
            &&& (message_type(s) == WebRTCMessageType::SDPAnswer) == (sdp && !offer)
            &&& (message_type(s) == WebRTCMessageType::Unknown) == !sdp
        },
{
}

/// Determines the kind of a forwarded payload.
#[allow(non_snake_case)]
pub fn getMsgType(input: &str) -> (t: WebRTCMessageType)
    ensures
        t == message_type(input@),
{
    let all = chars_of(input);
    let trimmed = trim_exec(&all);
    if starts_with_exec(&trimmed, &chars_of("candidate:")) {
        return WebRTCMessageType::ICECandidate;
    }
    if contains_exec(&trimmed, &chars_of("v=0")) && contains_exec(&trimmed, &chars_of("o="))
        && contains_exec(&trimmed, &chars_of("s=")) {
        if contains_exec(&trimmed, &chars_of("a=sendrecv")) || contains_exec(
            &trimmed,
            &chars_of("m=audio"),
        ) || contains_exec(&trimmed, &chars_of("m=video")) {
            return WebRTCMessageType::SDPOffer;
        } else {
            return WebRTCMessageType::SDPAnswer;
        }
    }
    WebRTCMessageType::Unknown
}


// ---------------------------------------------------------------------------
// Receiving end of the data channel
// ---------------------------------------------------------------------------

/// What the receiving end has learnt so far: the announced name and size, the
/// binary chunks in arrival order, and the running byte count.
pub struct ReceiveView {
    pub name: Option<Seq<char>>,
    pub expected: Option<usize>,
    pub chunks: Seq<Seq<u8>>,
    pub received: u64,
}

/// What the receiving end is to do after a message.
pub enum ReceiveOutcome {
    /// Nothing beyond updating its state.
    Nothing,
    /// Show a progress bar for `total` bytes.
    StartProgress { total: u64 },
    /// Move the progress bar to `position`; `finished` when it reached the total.
    Progress { position: u64, finished: bool },
    /// The transfer ended: `data` is the image; `mismatch` holds the announced
    /// and the received size when they differ.
    Complete { data: Seq<u8>, mismatch: Option<(usize, usize)> },
}

/// State of the receiving end of a transfer.
pub struct ReceiveState {
    docker_name: Option<String>,
    expected_size: Option<usize>,
    chunks: Vec<Vec<u8>>,
    current_size: u64,
}

/// What the receiving end is to do after a message.
#[derive(Debug)]
pub enum ReceiveAction {
    Nothing,
    StartProgress { total: u64 },
    Progress { position: u64, finished: bool },
    Complete { data: Vec<u8>, mismatch: Option<(usize, usize)> },
}

/// The view of an optional string.
pub open spec fn opt_string_view(o: Option<String>) -> Option<Seq<char>> {
    match o {
        Some(s) => Some(s@),
        None => None,
    }
}

/// The contents of a run of chunks.
pub open spec fn chunk_views(chunks: Seq<Vec<u8>>) -> Seq<Seq<u8>> {
    chunks.map_values(|c: Vec<u8>| c@)
}

impl View for ReceiveState {
    type V = ReceiveView;

    closed spec fn view(&self) -> ReceiveView {
        ReceiveView {
            name: opt_string_view(self.docker_name),
            expected: self.expected_size,
            chunks: chunk_views(self.chunks@),
            received: self.current_size,
        }
    }
}

impl View for ReceiveAction {
    type V = ReceiveOutcome;

    open spec fn view(&self) -> ReceiveOutcome {
        match self {
            ReceiveAction::Nothing => ReceiveOutcome::Nothing,
            ReceiveAction::StartProgress { total } => ReceiveOutcome::StartProgress { total: *total },
            ReceiveAction::Progress { position, finished } => ReceiveOutcome::Progress {
                position: *position,
                finished: *finished,
            },
            ReceiveAction::Complete { data, mismatch } => ReceiveOutcome::Complete {
                data: data@,
                mismatch: *mismatch,
            },
        }
    }
}

/// The state before any message arrived.
pub open spec fn fresh_view() -> ReceiveView {
    ReceiveView { name: None, expected: None, chunks: Seq::empty(), received: 0 }
}

/// How the receiving end answers a text message `t`:
/// `FILE_NAME:` stores the second `:`-separated field as the name;
/// `FILE_SIZE:` reads the second field (or `0` when there is none) as the
/// expected size and starts the progress bar when it is a number;
/// `END_OF_TRANSFER` completes the transfer with all chunks put together, and
/// reports a size mismatch when a size was announced and differs;
/// any other text is ignored.
pub open spec fn text_step(v: ReceiveView, t: Seq<char>) -> (ReceiveView, ReceiveOutcome) {
    if starts_with(t, "FILE_NAME:"@) {
        match second_field(t, ':') {
            Some(f) => (
                ReceiveView { name: Some(f), expected: v.expected, chunks: v.chunks, received: v.received },
                ReceiveOutcome::Nothing,
            ),
            None => (v, ReceiveOutcome::Nothing),
        }
    } else if starts_with(t, "FILE_SIZE:"@) {
        let field = match second_field(t, ':') {
            Some(f) => f,
            None => "0"@,
        };
        match parse_usize(field) {
            Some(n) => (
                ReceiveView { name: v.name, expected: Some(n), chunks: v.chunks, received: v.received },
                ReceiveOutcome::StartProgress { total: n as u64 },
            ),
            None => (v, ReceiveOutcome::Nothing),
        }
    } else if t == "END_OF_TRANSFER"@ {
        let data = concat_all(v.chunks);
        let mismatch = match v.expected {
            Some(e) => if data.len() != e {
                Some((e, data.len() as usize))
            } else {
                None
            },
            None => None,
        };
        (v, ReceiveOutcome::Complete { data, mismatch })
    } else {
        (v, ReceiveOutcome::Nothing)
    }
}

/// `a + b` on `u64`, wrapping around on overflow.
pub open spec fn wrapping_add_u64(a: u64, b: int) -> u64 {
    if a + b > u64::MAX {
        (a + b - (u64::MAX + 1)) as u64
    } else {
        (a + b) as u64
    }
}

/// How the receiving end answers a binary message `d`: the chunk is kept and
/// counted; when a progress update is due the bar moves to the new count, and is
/// finished when the count equals the announced size.
pub open spec fn binary_step(v: ReceiveView, d: Seq<u8>, update_due: bool) -> (
    ReceiveView,
    ReceiveOutcome,
) {
    let received = wrapping_add_u64(v.received, d.len() as int);
    let next = ReceiveView {
        name: v.name,
        expected: v.expected,
        chunks: v.chunks.push(d),
        received,
    };
    if update_due {
        (
            next,
            ReceiveOutcome::Progress {
                position: received,
                finished: received == v.expected->0 as u64,
            },
        )
    } else {
        (next, ReceiveOutcome::Nothing)
    }
}

/// Every binary message is kept, appended after the chunks already kept, and
/// counted, whether or not a progress update is due; whether one is due changes
/// only the reported outcome, never the state. A due update reports the new
/// count, and reports the transfer finished exactly when that count equals the
/// announced size; with no update due nothing is reported.
pub proof fn lemma_binary_message_is_kept(v: ReceiveView, d: Seq<u8>, update_due: bool)
    ensures
        binary_step(v, d, update_due).0.chunks == v.chunks.push(d),
        binary_step(v, d, update_due).0.chunks.len() == v.chunks.len() + 1,
        binary_step(v, d, update_due).0.chunks.last() == d,
        binary_step(v, d, update_due).0.name == v.name,
        binary_step(v, d, update_due).0.expected == v.expected,
        d.len() <= u64::MAX ==> binary_step(v, d, update_due).0.received as int == (v.received
            + d.len()) % (u64::MAX + 1),
        binary_step(v, d, update_due).0 == binary_step(v, d, !update_due).0,
        update_due ==> binary_step(v, d, update_due).1 == (ReceiveOutcome::Progress {
            position: binary_step(v, d, update_due).0.received,
            finished: binary_step(v, d, update_due).0.received == v.expected->0 as u64,
        }),
        !update_due ==> binary_step(v, d, update_due).1 == ReceiveOutcome::Nothing,
{
}

impl ReceiveState {
    /// The state before any message arrived.
    pub fn new() -> (s: Self)
        ensures
            s@ == fresh_view(),
    {
        let s = ReceiveState {
            docker_name: None,
            expected_size: None,
            chunks: Vec::new(),
            current_size: 0,
        };
        assert(s@.chunks =~= Seq::<Seq<u8>>::empty());
        s
    }

    /// The announced image name, if any.
    pub fn docker_name(&self) -> (r: Option<String>)
        ensures
            opt_string_view(r) == self@.name,
    {
        match &self.docker_name {
            Some(n) => Some(n.clone()),
            None => None,
        }
    }

    /// The announced size, if any.
    pub fn expected_size(&self) -> (r: Option<usize>)
        ensures
            r == self@.expected,
    {
        self.expected_size
    }

    /// The number of bytes counted so far.
    pub fn received(&self) -> (r: u64)
        ensures
            r == self@.received,
    {
        self.current_size
    }

    /// The number of chunks kept so far.
    pub fn chunk_count(&self) -> (r: usize)
        ensures
            r == self@.chunks.len(),
    {
        self.chunks.len()
    }

    /// The bytes of all chunks kept so far, in order.
    pub fn assembled(&self) -> (data: Vec<u8>)
        ensures
            data@ == concat_all(self@.chunks),
    {
        let mut data: Vec<u8> = Vec::new();
        let mut i: usize = 0;
        while i < self.chunks.len()
            invariant
                i <= self.chunks.len(),
                data@ == concat_all(chunk_views(self.chunks@).take(i as int)),
            decreases self.chunks.len() - i,
        {
            let chunk = &self.chunks[i];
            let ghost before = data@;
            let mut j: usize = 0;
            while j < chunk.len()
                invariant
                    j <= chunk.len(),
                    data@ == before + chunk@.take(j as int),
                decreases chunk.len() - j,
            {
                data.push(chunk[j]);
                assert(chunk@.take(j + 1) =~= chunk@.take(j as int).push(chunk@[j as int]));
                j = j + 1;
            }
            proof {
                let cv = chunk_views(self.chunks@);
                assert(cv.take(i + 1) =~= cv.take(i as int).push(chunk@));
                lemma_concat_all_push(cv.take(i as int), chunk@);
                assert(chunk@.take(j as int) =~= chunk@);
            }
            i = i + 1;
        }
        assert(chunk_views(self.chunks@).take(i as int) =~= chunk_views(self.chunks@));
        data
    }

    /// Handles a text message.
    pub fn on_text(&mut self, text: &str) -> (a: ReceiveAction)
        ensures
            (final(self)@, a@) == text_step(old(self)@, text@),
    {
        let t = chars_of(text);
        if starts_with_exec(&t, &chars_of("FILE_NAME:")) {
            match second_field_exec(&t, ':') {
                Some(f) => {
                    self.docker_name = Some(string_of(&f, 0, f.len()));
                    assert(f@.subrange(0, f@.len() as int) =~= f@);
                },
                None => {},
            }
            return ReceiveAction::Nothing;
        }
        if starts_with_exec(&t, &chars_of("FILE_SIZE:")) {
            let field = match second_field_exec(&t, ':') {
                Some(f) => f,
                None => chars_of("0"),
            };
            match parse_usize_exec(&field) {
                Some(n) => {
                    self.expected_size = Some(n);
                    return ReceiveAction::StartProgress { total: n as u64 };
                },
                None => {
                    return ReceiveAction::Nothing;
                },
            }
        }
        if str_eq(text, "END_OF_TRANSFER") {
            let data = self.assembled();
            let mismatch = match self.expected_size {
                Some(e) => if data.len() != e {
                    Some((e, data.len()))
                } else {
                    None
                },
                None => None,
            };
            return ReceiveAction::Complete { data, mismatch };
        }
        ReceiveAction::Nothing
    }

    /// Handles a binary message; `update_due` tells whether a progress update is
    /// due. Moving the bar needs the announced size.
    pub fn on_binary(&mut self, data: Vec<u8>, update_due: bool) -> (a: ReceiveAction)
        requires
            update_due ==> old(self)@.expected is Some,
        ensures
            (final(self)@, a@) == binary_step(old(self)@, data@, update_due),
    {
        let len = data.len() as u64;
        self.current_size = self.current_size.wrapping_add(len);
        let ghost before = self.chunks@;
        self.chunks.push(data);
        assert(chunk_views(self.chunks@) =~= chunk_views(before).push(data@));
        if update_due {
            let total = match self.expected_size {
                Some(t) => t,
                None => 0,
            };
            let position = self.current_size;
            ReceiveAction::Progress { position, finished: position == total as u64 }
        } else {
            ReceiveAction::Nothing
        }
    }
}


/// The acknowledgement sent back once a transfer completed.
pub fn transfer_ack() -> (s: String)
    ensures
        s@ == crate::transfer::ack_text(),
{
    "END_OF_TRANSFER | ".to_owned()
}

// ---------------------------------------------------------------------------
// ICE candidates
// ---------------------------------------------------------------------------

/// What the candidate stream carries once ICE gathering is complete.
pub open spec fn gathering_complete() -> Seq<char> {
    "ICE_GATHERING_COMPLETE"@
}

/// The message that forwards a gathered ICE candidate to the peer `id`, or
/// `None` once gathering is complete.
pub fn ice_forward(candidate: &str, id: &str) -> (m: Option<SignalMsg>)
    ensures
        candidate@ == gathering_complete() ==> m is None,
        candidate@ != gathering_complete() ==> (m matches Some(f) && f@ == signal(
            "forward"@,
            candidate@,
            id@,
        )),
{
    if str_eq(candidate, "ICE_GATHERING_COMPLETE") {
        None
    } else {
        Some(SignalMsg::new("forward", candidate, id))
    }
}

// ---------------------------------------------------------------------------
// Peer-connection state changes
// ---------------------------------------------------------------------------

/// The state of a peer connection.
#[derive(Debug, Clone, Copy, PartialEq, Eq, Structural)]
pub enum PeerState {
    Unspecified,
    New,
    Connecting,
    Connected,
    Disconnected,
    Failed,
    Closed,
}

/// The reaction to a state change: a line to print, an error to log, whether to
/// delete the transfer files, and the status to exit with.
#[derive(Debug)]
pub struct StateReaction {
    pub line: Option<String>,
    pub error: Option<String>,
    pub clear_files: bool,
    pub exit_code: Option<i32>,
}

/// The reaction to `state`, as (line, error, clear files, exit status).
pub open spec fn reaction_to(state: PeerState) -> (
    Option<Seq<char>>,
    Option<Seq<char>>,
    bool,
    Option<i32>,
) {
    match state {
        PeerState::New => (Some("State: New"@), None, false, None),
        PeerState::Connecting => (Some("Connecting to peer"@), None, false, None),
        PeerState::Connected => (Some("Connected to peer"@), None, false, None),
        PeerState::Disconnected => (
            Some("State: Disconnected"@),
            Some("Peer Disconnected."@),
            false,
            Some(1),
        ),
        PeerState::Failed => (
            Some("State: Failed - Timeout or peer disconnected."@),
            Some("Peer Disconected or Timed-out"@),
            false,
            None,
        ),
        PeerState::Closed => (None, None, true, Some(0)),
        PeerState::Unspecified => (None, None, false, None),
    }
}

/// The content of a reaction.
pub open spec fn reaction_view(r: StateReaction) -> (
    Option<Seq<char>>,
    Option<Seq<char>>,
    bool,
    Option<i32>,
) {
    (opt_string_view(r.line), opt_string_view(r.error), r.clear_files, r.exit_code)
}

/// Only a disconnection and a close end the program: a disconnection with status
/// 1 and a logged error, a close with status 0 after the transfer files are
/// deleted. A new, connecting or connected peer is reported and the program goes
/// on; a failure is reported and logged and the program goes on. Files are
/// deleted only on close, and errors are logged only on a disconnection or a
/// failure.
pub proof fn lemma_peer_state_reactions(state: PeerState)
    requires
        state != PeerState::Unspecified,
    ensures
        (reaction_to(state).3 is Some) == (state == PeerState::Disconnected || state
            == PeerState::Closed),
        state == PeerState::Disconnected ==> reaction_to(state).3 == Some(1i32),
        state == PeerState::Closed ==> reaction_to(state).3 == Some(0i32),
        reaction_to(state).2 == (state == PeerState::Closed),
        (reaction_to(state).1 is Some) == (state == PeerState::Disconnected || state
            == PeerState::Failed),
        (reaction_to(state).0 is Some) == (state != PeerState::Closed),
{
}

/// Decides the reaction to a peer-connection state change. A connection is
/// never reported in the unspecified state.
pub fn on_peer_state(state: PeerState) -> (r: StateReaction)
    requires
        state != PeerState::Unspecified,
    ensures
        reaction_view(r) == reaction_to(state),
{
    match state {
        PeerState::New => StateReaction {
            line: Some("State: New".to_owned()),
            error: None,
            clear_files: false,
            exit_code: None,
        },
        PeerState::Connecting => StateReaction {
            line: Some("Connecting to peer".to_owned()),
            error: None,
            clear_files: false,
            exit_code: None,
        },
        PeerState::Connected => StateReaction {
            line: Some("Connected to peer".to_owned()),
            error: None,
            clear_files: false,
            exit_code: None,
        },
        PeerState::Disconnected => StateReaction {
            line: Some("State: Disconnected".to_owned()),
            error: Some("Peer Disconnected.".to_owned()),
            clear_files: false,
            exit_code: Some(1),
        },
        PeerState::Failed => StateReaction {
            line: Some("State: Failed - Timeout or peer disconnected.".to_owned()),
            error: Some("Peer Disconected or Timed-out".to_owned()),
            clear_files: false,
            exit_code: None,
        },
        PeerState::Closed => StateReaction {
            line: None,
            error: None,
            clear_files: true,
            exit_code: Some(0),
        },
        PeerState::Unspecified => StateReaction {
            line: None,
            error: None,
            clear_files: false,
            exit_code: None,
        },
    }
}

// ---------------------------------------------------------------------------
// Connection settings
// ---------------------------------------------------------------------------

/// Seconds without traffic after which the ICE transport counts as disconnected.
pub const ICE_DISCONNECTED_TIMEOUT_SECS: u64 = 10;

/// Seconds without traffic after which the ICE transport counts as failed.
pub const ICE_FAILED_TIMEOUT_SECS: u64 = 100;

/// Seconds between ICE keep-alive messages.
pub const ICE_KEEP_ALIVE_INTERVAL_SECS: u64 = 5;

/// Number of ICE candidates gathered ahead of time.
pub const ICE_CANDIDATE_POOL_SIZE: u8 = 5;

/// Whether the data channel delivers messages in the order they were sent.
/// It does: the receiving end puts the image together from the binary chunks in
/// arrival order, so the transfer is intact only over an ordered channel (see
/// `transfer::lemma_transfer_round_trip`).
pub const DATA_CHANNEL_ORDERED: bool = true;

/// The label of the data channel.
pub fn data_channel_label() -> (s: String)
    ensures
        s@ == "beamEngine"@,
{
    "beamEngine".to_owned()
}

/// A STUN or TURN server: its URLs and credentials (empty when none).
#[derive(Debug)]
pub struct IceServer {
    pub urls: Vec<String>,
    pub username: String,
    pub credential: String,
}

/// The contents of a run of strings.
pub open spec fn strings_view(v: Seq<String>) -> Seq<Seq<char>> {
    v.map_values(|s: String| s@)
}

/// The content of an ICE server entry: URLs, user name, credential.
pub open spec fn ice_server_view(s: IceServer) -> (Seq<Seq<char>>, Seq<char>, Seq<char>) {
    (strings_view(s.urls@), s.username@, s.credential@)
}

/// The STUN servers, and the TURN server with its credentials, that peer
/// connections use.
pub open spec fn configured_ice_servers() -> Seq<(Seq<Seq<char>>, Seq<char>, Seq<char>)> {
    seq![
        (
            seq![
                "stun:stun.l.google.com:19302"@,
                "stun:stun1.l.google.com:19302"@,
                "stun:stun2.l.google.com:19302"@,
                "stun:stun3.l.google.com:19302"@,
                "stun:stun4.l.google.com:19302"@,
                "stun:stun.nextcloud.com:443"@,
                "stun:stun.relay.metered.ca:80"@,
            ],
            ""@,
            ""@,
        ),
        (seq!["turn:numb.viagenie.ca"@], "webrtc@live.com"@, "muazkh"@),
    ]
}

/// The ICE servers that peer connections use.
pub fn ice_servers() -> (r: Vec<IceServer>)
    ensures
        r@.map_values(|s: IceServer| ice_server_view(s)) == configured_ice_servers(),
{
    let mut stun: Vec<String> = Vec::new();
    stun.push("stun:stun.l.google.com:19302".to_owned());
    stun.push("stun:stun1.l.google.com:19302".to_owned());
    stun.push("stun:stun2.l.google.com:19302".to_owned());
    stun.push("stun:stun3.l.google.com:19302".to_owned());
    stun.push("stun:stun4.l.google.com:19302".to_owned());
    stun.push("stun:stun.nextcloud.com:443".to_owned());
    stun.push("stun:stun.relay.metered.ca:80".to_owned());
    let mut turn: Vec<String> = Vec::new();
    turn.push("turn:numb.viagenie.ca".to_owned());
    let first = IceServer { urls: stun, username: "".to_owned(), credential: "".to_owned() };
    let second = IceServer {
        urls: turn,
        username: "webrtc@live.com".to_owned(),
        credential: "muazkh".to_owned(),
    };
    proof {
        assert(strings_view(first.urls@) =~= configured_ice_servers()[0].0);
        assert(strings_view(second.urls@) =~= configured_ice_servers()[1].0);
        assert(ice_server_view(first) == configured_ice_servers()[0]);
        assert(ice_server_view(second) == configured_ice_servers()[1]);
    }
    let ghost v0 = ice_server_view(first);
    let ghost v1 = ice_server_view(second);
    let mut r: Vec<IceServer> = Vec::new();
    r.push(first);
    r.push(second);
    assert(ice_server_view(r@[0]) == v0);
    assert(ice_server_view(r@[1]) == v1);
    assert(r@.map_values(|s: IceServer| ice_server_view(s)) =~= configured_ice_servers());
    r
}

} // verus!
