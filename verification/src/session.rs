//! The per-connection session state machine.
//!
//! A session starts in the handshake phase, moves to the main phase
//! when the peer presents the right magic and version, and from
//! there enters the lobby-subscribed, joined, playing or spectating
//! sub-states.  Which request is acceptable in which phase is the
//! table here; a request outside its phase is a protocol violation
//! and closes the connection.

use vstd::prelude::*;
use crate::lobby::clone_chars;
use crate::proto::{MatchInfo, Reply, Request, SpecReply, SpecRequest, VERSION, check_handshake, handshake_reply, spec_magic};

verus! {

/// The phases of a client session.
#[derive(PartialEq, Eq, Structural, Clone, Copy, Debug)]
pub enum Phase {
    Handshake,
    Main,
    LobbySubscribed,
    Joined,
    Playing,
    Spectating,
}

/// Which requests each phase accepts.
pub open spec fn spec_accepts(phase: Phase, req: SpecRequest) -> bool {
    match phase {
        Phase::Handshake => req is Handshake,
        Phase::Main => match req {
            SpecRequest::GameList => true,
            SpecRequest::GameDescription { .. } => true,
            SpecRequest::GameNew { .. } => true,
            SpecRequest::LobbyList => true,
            SpecRequest::LobbySubscribe => true,
            SpecRequest::LobbyJoinMatch { .. } => true,
            SpecRequest::SpectateJoin { .. } => true,
            SpecRequest::HistoryMatchList => true,
            SpecRequest::HistoryMatch { .. } => true,
            _ => false,
        },
        Phase::LobbySubscribed => req is LobbyUnsubscribe,
        Phase::Joined => req is LobbyLeaveMatch,
        Phase::Playing => false,
        Phase::Spectating => req is SpectateLeave,
    }
}

/// Whether a phase accepts a request.
pub fn accepts(phase: Phase, req: &Request) -> (r: bool)
    ensures
        r == spec_accepts(phase, req@),
{
    match phase {
        Phase::Handshake => matches!(req, Request::Handshake { .. }),
        Phase::Main => match req {
            Request::GameList => true,
            Request::GameDescription { .. } => true,
            Request::GameNew { .. } => true,
            Request::LobbyList => true,
            Request::LobbySubscribe => true,
            Request::LobbyJoinMatch { .. } => true,
            Request::SpectateJoin { .. } => true,
            Request::HistoryMatchList => true,
            Request::HistoryMatch { .. } => true,
            _ => false,
        },
        Phase::LobbySubscribed => matches!(req, Request::LobbyUnsubscribe),
        Phase::Joined => matches!(req, Request::LobbyLeaveMatch),
        Phase::Playing => false,
        Phase::Spectating => matches!(req, Request::SpectateLeave),
    }
}

/// What the handshake phase decides for one parsed request.
pub struct HandshakeStep {
    /// The handshake reply to send, always carrying this server's
    /// own magic and version.
    pub reply: Reply,
    /// Whether the session proceeds to the main phase.
    pub proceed: bool,
}

/// Decides the handshake for a parsed request: the server always
/// answers with its own constants and proceeds exactly when the
/// peer's magic and version both match.
pub fn handshake_step(req: &Request) -> (r: Option<HandshakeStep>)
    ensures
        match r {
            Some(step) => {
                &&& req@ is Handshake
                &&& step.reply@ == (SpecReply::Handshake { magic: spec_magic(), version: VERSION })
                &&& step.proceed <==> (req@->Handshake_magic == spec_magic()
                    && req@->Handshake_version == VERSION)
            },
            None => !(req@ is Handshake),
        },
{
    match req {
        Request::Handshake { magic, version } => {
            let ok = check_handshake(magic, *version);
            Some(HandshakeStep { reply: handshake_reply(), proceed: ok })
        },
        _ => None,
    }
}

/// The phase a sub-state request moves the session to when the lobby
/// grants it.
pub open spec fn spec_next_phase(req: SpecRequest) -> Phase {
    match req {
        SpecRequest::LobbySubscribe => Phase::LobbySubscribed,
        SpecRequest::LobbyJoinMatch { .. } => Phase::Joined,
        SpecRequest::SpectateJoin { .. } => Phase::Spectating,
        _ => Phase::Main,
    }
}

/// The phase a granted request moves the session to.
pub fn next_phase(req: &Request) -> (r: Phase)
    ensures
        r == spec_next_phase(req@),
{
    match req {
        Request::LobbySubscribe => Phase::LobbySubscribed,
        Request::LobbyJoinMatch { .. } => Phase::Joined,
        Request::SpectateJoin { .. } => Phase::Spectating,
        _ => Phase::Main,
    }
}


// ---------------------------------------------------------------------
// Sub-state event tables
// ---------------------------------------------------------------------

/// What one sub-state step tells the connection layer to do.
pub struct StepDecision {
    /// Replies to send, in order.
    pub replies: Vec<Reply>,
    /// A binary frame to send after the replies, if any.
    pub data: Option<Vec<u8>>,
    /// Whether the sub-state ends cleanly here.
    pub done: bool,
    /// Whether the connection must be treated as failed: a protocol
    /// violation, a lagged subscription, or a lost channel.
    pub hangup: bool,
}

/// What reaches a session subscribed to the lobby stream.
pub enum LobbyStreamEvent {
    New(MatchInfo),
    Update(MatchInfo),
    Delete(Vec<char>),
    UnsubscribeRequest,
    OtherRequest,
    Lagged,
    ChannelClosed,
}

/// The lobby-subscribed sub-state: lobby events become the matching
/// replies until the client unsubscribes; any other request and a
/// lagged or closed stream end the connection.
pub fn lobby_stream_step(ev: LobbyStreamEvent) -> (r: StepDecision)
    ensures
        r.data is None,
        match ev {
            LobbyStreamEvent::New(info) => {
                &&& r.replies@.len() == 1
                &&& r.replies@[0]@ == (SpecReply::LobbyNew { info: info@ })
                &&& !r.done && !r.hangup
            },
            LobbyStreamEvent::Update(info) => {
                &&& r.replies@.len() == 1
                &&& r.replies@[0]@ == (SpecReply::LobbyUpdate { info: info@ })
                &&& !r.done && !r.hangup
            },
            LobbyStreamEvent::Delete(id) => {
                &&& r.replies@.len() == 1
                &&& r.replies@[0]@ == (SpecReply::LobbyDelete { id: id@ })
                &&& !r.done && !r.hangup
            },
            LobbyStreamEvent::UnsubscribeRequest => {
                &&& r.replies@.len() == 1
                &&& r.replies@[0]@ == SpecReply::LobbyUnsubscribed
                &&& r.done && !r.hangup
            },
            LobbyStreamEvent::OtherRequest => r.replies@.len() == 0 && r.hangup,
            LobbyStreamEvent::Lagged => r.replies@.len() == 0 && r.hangup,
            LobbyStreamEvent::ChannelClosed => r.replies@.len() == 0 && r.hangup,
        },
{
    match ev {
        LobbyStreamEvent::New(info) => {
            let mut replies: Vec<Reply> = Vec::new();
            replies.push(Reply::LobbyNew { info });
            StepDecision { replies, data: None, done: false, hangup: false }
        },
        LobbyStreamEvent::Update(info) => {
            let mut replies: Vec<Reply> = Vec::new();
            replies.push(Reply::LobbyUpdate { info });
            StepDecision { replies, data: None, done: false, hangup: false }
        },
        LobbyStreamEvent::Delete(id) => {
            let mut replies: Vec<Reply> = Vec::new();
            replies.push(Reply::LobbyDelete { id });
            StepDecision { replies, data: None, done: false, hangup: false }
        },
        LobbyStreamEvent::UnsubscribeRequest => {
            let mut replies: Vec<Reply> = Vec::new();
            replies.push(Reply::LobbyUnsubscribed);
            StepDecision { replies, data: None, done: true, hangup: false }
        },
        LobbyStreamEvent::OtherRequest | LobbyStreamEvent::Lagged | LobbyStreamEvent::ChannelClosed => {
            StepDecision { replies: Vec::new(), data: None, done: false, hangup: true }
        },
    }
}

/// What reaches a session joined to a waiting match.
pub enum JoinedEvent {
    Update(MatchInfo),
    Started,
    Expired,
    LeaveGranted,
    OtherRequest,
    ChannelClosed,
}

/// The joined sub-state before the match starts: updates are
/// forwarded, the start event emits `MatchStarted` and hands the
/// session to the play sub-state, an expiry emits the delete, and a
/// granted leave ends the sub-state with its reply.
pub fn joined_step(id: &Vec<char>, ev: &JoinedEvent) -> (r: StepDecision)
    ensures
        r.data is None,
        match ev {
            JoinedEvent::Update(info) => {
                &&& r.replies@.len() == 1
                &&& r.replies@[0]@ == (SpecReply::LobbyUpdate { info: info@ })
                &&& !r.done && !r.hangup
            },
            JoinedEvent::Started => {
                &&& r.replies@.len() == 1
                &&& r.replies@[0]@ == SpecReply::MatchStarted
                &&& !r.done && !r.hangup
            },
            JoinedEvent::Expired => {
                &&& r.replies@.len() == 1
                &&& r.replies@[0]@ == (SpecReply::LobbyDelete { id: id@ })
                &&& r.done && !r.hangup
            },
            JoinedEvent::LeaveGranted => {
                &&& r.replies@.len() == 1
                &&& r.replies@[0]@ == SpecReply::LobbyLeavedMatch
                &&& r.done && !r.hangup
            },
            JoinedEvent::OtherRequest => r.replies@.len() == 0 && r.hangup,
            JoinedEvent::ChannelClosed => r.replies@.len() == 0 && r.hangup,
        },
{
    match ev {
        JoinedEvent::Update(info) => {
            let mut replies: Vec<Reply> = Vec::new();
            replies.push(Reply::LobbyUpdate { info: info.clone_info() });
            StepDecision { replies, data: None, done: false, hangup: false }
        },
        JoinedEvent::Started => {
            let mut replies: Vec<Reply> = Vec::new();
            replies.push(Reply::MatchStarted);
            StepDecision { replies, data: None, done: false, hangup: false }
        },
        JoinedEvent::Expired => {
            let mut replies: Vec<Reply> = Vec::new();
            replies.push(Reply::LobbyDelete { id: clone_chars(id) });
            StepDecision { replies, data: None, done: true, hangup: false }
        },
        JoinedEvent::LeaveGranted => {
            let mut replies: Vec<Reply> = Vec::new();
            replies.push(Reply::LobbyLeavedMatch);
            StepDecision { replies, data: None, done: true, hangup: false }
        },
        JoinedEvent::OtherRequest | JoinedEvent::ChannelClosed => {
            StepDecision { replies: Vec::new(), data: None, done: false, hangup: true }
        },
    }
}

/// What reaches a playing session from the match channel.
pub enum PlayEvent {
    Update(MatchInfo),
    Ended,
    Other,
    ChannelClosed,
}

/// The play sub-state's match events: updates are forwarded, the end
/// of the game emits `MatchEnded` and ends the sub-state; the byte
/// traffic itself flows outside this table.
pub fn play_step(ev: &PlayEvent) -> (r: StepDecision)
    ensures
        r.data is None,
        match ev {
            PlayEvent::Update(info) => {
                &&& r.replies@.len() == 1
                &&& r.replies@[0]@ == (SpecReply::LobbyUpdate { info: info@ })
                &&& !r.done && !r.hangup
            },
            PlayEvent::Ended => {
                &&& r.replies@.len() == 1
                &&& r.replies@[0]@ == SpecReply::MatchEnded
                &&& r.done && !r.hangup
            },
            PlayEvent::Other => r.replies@.len() == 0 && !r.done && !r.hangup,
            PlayEvent::ChannelClosed => r.replies@.len() == 0 && r.hangup,
        },
{
    match ev {
        PlayEvent::Update(info) => {
            let mut replies: Vec<Reply> = Vec::new();
            replies.push(Reply::LobbyUpdate { info: info.clone_info() });
            StepDecision { replies, data: None, done: false, hangup: false }
        },
        PlayEvent::Ended => {
            let mut replies: Vec<Reply> = Vec::new();
            replies.push(Reply::MatchEnded);
            StepDecision { replies, data: None, done: true, hangup: false }
        },
        PlayEvent::Other => StepDecision { replies: Vec::new(), data: None, done: false, hangup: false },
        PlayEvent::ChannelClosed => StepDecision { replies: Vec::new(), data: None, done: false, hangup: true },
    }
}

/// What reaches a spectating session.
pub enum SpectateEvent {
    Update(MatchInfo),
    Started,
    SpectatorData(Vec<u8>),
    Expired,
    Ended,
    LeaveRequest,
    OtherRequest,
    Lagged,
    ChannelClosed,
}

/// The spectate sub-state: live bytes become binary frames, a start
/// while waiting emits `SpectateStarted` then `SpectateSynced` (the
/// waiting room holds no history yet), an expiry emits the delete, a
/// leave is acknowledged, and the end of the game emits
/// `SpectateEnded`.
pub fn spectate_step(id: &Vec<char>, ev: SpectateEvent) -> (r: StepDecision)
    ensures
        match ev {
            SpectateEvent::Update(info) => {
                &&& r.replies@.len() == 1
                &&& r.replies@[0]@ == (SpecReply::LobbyUpdate { info: info@ })
                &&& r.data is None
                &&& !r.done && !r.hangup
            },
            SpectateEvent::Started => {
                &&& r.replies@.len() == 2
                &&& r.replies@[0]@ == SpecReply::SpectateStarted
                &&& r.replies@[1]@ == SpecReply::SpectateSynced
                &&& r.data is None
                &&& !r.done && !r.hangup
            },
            SpectateEvent::SpectatorData(d) => {
                &&& r.replies@.len() == 0
                &&& r.data matches Some(b) && b@ == d@
                &&& !r.done && !r.hangup
            },
            SpectateEvent::Expired => {
                &&& r.replies@.len() == 1
                &&& r.replies@[0]@ == (SpecReply::LobbyDelete { id: id@ })
                &&& r.data is None
                &&& r.done && !r.hangup
            },
            SpectateEvent::Ended => {
                &&& r.replies@.len() == 1
                &&& r.replies@[0]@ == SpecReply::SpectateEnded
                &&& r.data is None
                &&& r.done && !r.hangup
            },
            SpectateEvent::LeaveRequest => {
                &&& r.replies@.len() == 1
                &&& r.replies@[0]@ == SpecReply::SpectateLeaved
                &&& r.data is None
                &&& r.done && !r.hangup
            },
            SpectateEvent::OtherRequest => r.replies@.len() == 0 && r.data is None && r.hangup,
            SpectateEvent::Lagged => r.replies@.len() == 0 && r.data is None && r.hangup,
            SpectateEvent::ChannelClosed => r.replies@.len() == 0 && r.data is None && r.hangup,
        },
{
    match ev {
        SpectateEvent::Update(info) => {
            let mut replies: Vec<Reply> = Vec::new();
            replies.push(Reply::LobbyUpdate { info });
            StepDecision { replies, data: None, done: false, hangup: false }
        },
        SpectateEvent::Started => {
            let mut replies: Vec<Reply> = Vec::new();
            replies.push(Reply::SpectateStarted);
            replies.push(Reply::SpectateSynced);
            StepDecision { replies, data: None, done: false, hangup: false }
        },
        SpectateEvent::SpectatorData(d) => {
            StepDecision { replies: Vec::new(), data: Some(d), done: false, hangup: false }
        },
        SpectateEvent::Expired => {
            let mut replies: Vec<Reply> = Vec::new();
            replies.push(Reply::LobbyDelete { id: clone_chars(id) });
            StepDecision { replies, data: None, done: true, hangup: false }
        },
        SpectateEvent::Ended => {
            let mut replies: Vec<Reply> = Vec::new();
            replies.push(Reply::SpectateEnded);
            StepDecision { replies, data: None, done: true, hangup: false }
        },
        SpectateEvent::LeaveRequest => {
            let mut replies: Vec<Reply> = Vec::new();
            replies.push(Reply::SpectateLeaved);
            StepDecision { replies, data: None, done: true, hangup: false }
        },
        SpectateEvent::OtherRequest | SpectateEvent::Lagged | SpectateEvent::ChannelClosed => {
            StepDecision { replies: Vec::new(), data: None, done: false, hangup: true }
        },
    }
}

} // verus!

