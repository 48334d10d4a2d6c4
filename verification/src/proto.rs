//! Wire protocol: request and reply variants serialized as canonical
//! JSON text frames.
//!
//! The parsers accept each frame in its canonical spelling: the
//! field order of this codec, no insignificant whitespace, strings
//! with the escapes the encoders emit, and timeouts in seconds with
//! up to three fraction digits (trailing zeros allowed, so `30`,
//! `0.1` and `30.0` are all read).  Anything else is a protocol
//! violation, which closes the connection.
//!
//! Every connection starts with a `Handshake` exchange carrying the
//! magic string and protocol version; the handshake symmetry law at
//! the end of this module states that two endpoints agree exactly
//! when both match.

use vstd::prelude::*;
use crate::json::{
    dec_bool, dec_digits, dec_lit, dec_opt_secs, dec_opt_str, dec_opt_u64, dec_secs, dec_str,
    dec_str_arr, dec_str_map, dec_u64, enc_bool, enc_opt_secs, enc_opt_str, enc_opt_u64, enc_secs,
    enc_str, enc_str_arr, enc_str_map, is_dec_digit, lemma_dec_enc_bool, lemma_dec_enc_opt_secs,
    lemma_dec_enc_opt_str, lemma_dec_enc_opt_u64, lemma_dec_enc_secs, lemma_dec_enc_str,
    lemma_dec_enc_str_arr, lemma_dec_enc_str_map, lemma_dec_enc_u64, lemma_dec_lit,
    lemma_lit_no_match, parse_bool, parse_lit, parse_opt_secs, parse_opt_str, parse_opt_u64,
    parse_secs, parse_str, parse_str_arr, parse_str_map, parse_u64, push_bool, push_chars,
    push_opt_secs, push_opt_str, push_opt_u64, push_secs, push_str_arr, push_str_lit, push_str_map,
    push_u64, str_to_chars,
};

verus! {

/// The magic string both endpoints must present.
pub open spec fn spec_magic() -> Seq<char> {
    "coco"@
}

/// The protocol version.
pub const VERSION: u64 = 1;

/// Returns the magic string as characters.
pub fn magic_chars() -> (r: Vec<char>)
    ensures
        r@ == spec_magic(),
{
    str_to_chars("coco")
}

// ---------------------------------------------------------------------
// Game creation parameters
// ---------------------------------------------------------------------

/// Parameters of a match creation request; times are milliseconds.
#[derive(Clone, Debug)]
pub struct GameParams {
    pub players: Option<u64>,
    pub bots: u64,
    pub timeout_ms: Option<u64>,
}

/// The canonical JSON object of creation parameters; the timeout is
/// written in seconds.
pub open spec fn enc_game_params(p: GameParams) -> Seq<char> {
    let t6 = "}"@;
    let t5 = enc_opt_secs(p.timeout_ms) + t6;
    let t4 = ",\"timeout\":"@ + t5;
    let t3 = dec_digits(p.bots as int) + t4;
    let t2 = ",\"bots\":"@ + t3;
    let t1 = enc_opt_u64(p.players) + t2;
    "{\"players\":"@ + t1
}

/// Parses creation parameters.
pub open spec fn dec_game_params(s: Seq<char>) -> Option<(GameParams, Seq<char>)> {
    match dec_lit(s, "{\"players\":"@) {
        None => None,
        Some(s) => match dec_opt_u64(s) {
            None => None,
            Some((players, s)) => match dec_lit(s, ",\"bots\":"@) {
                None => None,
                Some(s) => match dec_u64(s) {
                    None => None,
                    Some((bots, s)) => match dec_lit(s, ",\"timeout\":"@) {
                        None => None,
                        Some(s) => match dec_opt_secs(s) {
                            None => None,
                            Some((timeout_ms, s)) => match dec_lit(s, "}"@) {
                                None => None,
                                Some(s) => Some((GameParams { players, bots, timeout_ms }, s)),
                            },
                        },
                    },
                },
            },
        },
    }
}

/// Appends the canonical encoding of creation parameters.
pub fn push_game_params(out: &mut Vec<char>, p: &GameParams)
    ensures
        final(out)@ == old(out)@ + enc_game_params(*p),
{
    let lit = str_to_chars("{\"players\":");
    push_chars(out, &lit);
    push_opt_u64(out, &p.players);
    let lit = str_to_chars(",\"bots\":");
    push_chars(out, &lit);
    push_u64(out, p.bots);
    let lit = str_to_chars(",\"timeout\":");
    push_chars(out, &lit);
    push_opt_secs(out, &p.timeout_ms);
    out.push('}');
    proof {
        reveal_strlit("}");
        assert(seq!['}'] =~= "}"@);
        assert(out@ =~= old(out)@ + enc_game_params(*p));
    }
}

/// Parses creation parameters at index `i`.
pub fn parse_game_params(s: &Vec<char>, i: usize) -> (r: Option<(GameParams, usize)>)
    requires
        i <= s@.len(),
    ensures
        match r {
            Some((v, j)) => {
                &&& i <= j <= s@.len()
                &&& dec_game_params(s@.skip(i as int)) == Some((v, s@.skip(j as int)))
            },
            None => dec_game_params(s@.skip(i as int)) is None,
        },
{
    let lit = str_to_chars("{\"players\":");
    let j = match parse_lit(s, i, &lit) {
        Some(j) => j,
        None => {
            return None;
        },
    };
    let (players, j) = match parse_opt_u64(s, j) {
        Some(x) => x,
        None => {
            return None;
        },
    };
    let lit = str_to_chars(",\"bots\":");
    let j = match parse_lit(s, j, &lit) {
        Some(j) => j,
        None => {
            return None;
        },
    };
    let (bots, j) = match parse_u64(s, j) {
        Some(x) => x,
        None => {
            return None;
        },
    };
    let lit = str_to_chars(",\"timeout\":");
    let j = match parse_lit(s, j, &lit) {
        Some(j) => j,
        None => {
            return None;
        },
    };
    let (timeout_ms, j) = match parse_opt_secs(s, j) {
        Some(x) => x,
        None => {
            return None;
        },
    };
    let lit = str_to_chars("}");
    let j = match parse_lit(s, j, &lit) {
        Some(j) => j,
        None => {
            return None;
        },
    };
    Some((GameParams { players, bots, timeout_ms }, j))
}

// ---------------------------------------------------------------------
// Match information
// ---------------------------------------------------------------------

/// The publicly visible state of a match; the timeout is milliseconds
/// and `time` is Unix seconds.
#[derive(Clone, Debug)]
pub struct MatchInfo {
    pub players: u64,
    pub bots: u64,
    pub timeout_ms: u64,
    pub args: Vec<(Vec<char>, Vec<char>)>,
    pub id: Vec<char>,
    pub name: Vec<char>,
    pub game: Vec<char>,
    pub running: bool,
    pub time: u64,
    pub connected: Vec<Vec<char>>,
    pub spectators: u64,
    pub password: bool,
    pub verified: bool,
}

/// The mathematical model of match information.
pub struct SpecMatchInfo {
    pub players: u64,
    pub bots: u64,
    pub timeout_ms: u64,
    pub args: Seq<(Seq<char>, Seq<char>)>,
    pub id: Seq<char>,
    pub name: Seq<char>,
    pub game: Seq<char>,
    pub running: bool,
    pub time: u64,
    pub connected: Seq<Seq<char>>,
    pub spectators: u64,
    pub password: bool,
    pub verified: bool,
}

impl View for MatchInfo {
    type V = SpecMatchInfo;

    open spec fn view(&self) -> SpecMatchInfo {
        SpecMatchInfo {
            players: self.players,
            bots: self.bots,
            timeout_ms: self.timeout_ms,
            args: self.args.deep_view(),
            id: self.id@,
            name: self.name@,
            game: self.game@,
            running: self.running,
            time: self.time,
            connected: self.connected.deep_view(),
            spectators: self.spectators,
            password: self.password,
            verified: self.verified,
        }
    }
}

/// The last fields of a match information object, from the spectator
/// count on.
#[verifier::opaque]
pub open spec fn enc_match_info_last(m: SpecMatchInfo) -> Seq<char> {
    let t26 = "}"@;
    let t25 = enc_bool(m.verified) + t26;
    let t24 = ",\"verified\":"@ + t25;
    let t23 = enc_bool(m.password) + t24;
    let t22 = ",\"password\":"@ + t23;
    let t21 = dec_digits(m.spectators as int) + t22;
    ",\"spectators\":"@ + t21
}

/// The trailing half of a match information object, from the game
/// name on.
#[verifier::opaque]
pub open spec fn enc_match_info_tail(m: SpecMatchInfo) -> Seq<char> {
    let t20 = enc_match_info_last(m);
    let t19 = enc_str_arr(m.connected) + t20;
    let t18 = ",\"connected\":"@ + t19;
    let t17 = dec_digits(m.time as int) + t18;
    let t16 = ",\"time\":"@ + t17;
    let t15 = enc_bool(m.running) + t16;
    let t14 = ",\"running\":"@ + t15;
    let t13 = enc_str(m.game) + t14;
    ",\"game\":"@ + t13
}

/// The canonical JSON object of match information.
#[verifier::opaque]
pub open spec fn enc_match_info(m: SpecMatchInfo) -> Seq<char> {
    let t12 = enc_match_info_tail(m);
    let t11 = enc_str(m.name) + t12;
    let t10 = ",\"name\":"@ + t11;
    let t9 = enc_str(m.id) + t10;
    let t8 = ",\"id\":"@ + t9;
    let t7 = enc_str_map(m.args) + t8;
    let t6 = ",\"args\":"@ + t7;
    let t5 = enc_secs(m.timeout_ms as int) + t6;
    let t4 = ",\"timeout\":"@ + t5;
    let t3 = dec_digits(m.bots as int) + t4;
    let t2 = ",\"bots\":"@ + t3;
    let t1 = dec_digits(m.players as int) + t2;
    "{\"players\":"@ + t1
}

/// Parses match information.
#[verifier::opaque]
pub open spec fn dec_match_info(s: Seq<char>) -> Option<(SpecMatchInfo, Seq<char>)> {
    match dec_lit(s, "{\"players\":"@) {
        None => None,
        Some(s) => match dec_u64(s) {
            None => None,
            Some((players, s)) => match dec_lit(s, ",\"bots\":"@) {
                None => None,
                Some(s) => match dec_u64(s) {
                    None => None,
                    Some((bots, s)) => match dec_lit(s, ",\"timeout\":"@) {
                        None => None,
                        Some(s) => match dec_secs(s) {
                            None => None,
                            Some((timeout_ms, s)) => match dec_lit(s, ",\"args\":"@) {
                                None => None,
                                Some(s) => match dec_str_map(s) {
                                    None => None,
                                    Some((args, s)) => match dec_lit(s, ",\"id\":"@) {
                                        None => None,
                                        Some(s) => match dec_str(s) {
                                            None => None,
                                            Some((id, s)) => match dec_lit(s, ",\"name\":"@) {
                                                None => None,
                                                Some(s) => match dec_str(s) {
                                                    None => None,
                                                    Some((name, s)) => dec_match_info_tail(s, players, bots, timeout_ms, args, id, name),
                                                },
                                            },
                                        },
                                    },
                                },
                            },
                        },
                    },
                },
            },
        },
    }
}

/// Continues parsing match information after the name field.
pub open spec fn dec_match_info_tail(
    s: Seq<char>,
    players: u64,
    bots: u64,
    timeout_ms: u64,
    args: Seq<(Seq<char>, Seq<char>)>,
    id: Seq<char>,
    name: Seq<char>,
) -> Option<(SpecMatchInfo, Seq<char>)> {
    match dec_lit(s, ",\"game\":"@) {
        None => None,
        Some(s) => match dec_str(s) {
            None => None,
            Some((game, s)) => match dec_lit(s, ",\"running\":"@) {
                None => None,
                Some(s) => match dec_bool(s) {
                    None => None,
                    Some((running, s)) => match dec_lit(s, ",\"time\":"@) {
                        None => None,
                        Some(s) => match dec_u64(s) {
                            None => None,
                            Some((time, s)) => match dec_lit(s, ",\"connected\":"@) {
                                None => None,
                                Some(s) => match dec_str_arr(s) {
                                    None => None,
                                    Some((connected, s)) => dec_match_info_last(
                                        s, players, bots, timeout_ms, args, id, name,
                                        game, running, time, connected,
                                    ),
                                },
                            },
                        },
                    },
                },
            },
        },
    }
}

/// Finishes parsing match information from the spectator count on.
pub open spec fn dec_match_info_last(
    s: Seq<char>,
    players: u64,
    bots: u64,
    timeout_ms: u64,
    args: Seq<(Seq<char>, Seq<char>)>,
    id: Seq<char>,
    name: Seq<char>,
    game: Seq<char>,
    running: bool,
    time: u64,
    connected: Seq<Seq<char>>,
) -> Option<(SpecMatchInfo, Seq<char>)> {
    match dec_lit(s, ",\"spectators\":"@) {
        None => None,
        Some(s) => match dec_u64(s) {
            None => None,
            Some((spectators, s)) => match dec_lit(s, ",\"password\":"@) {
                None => None,
                Some(s) => match dec_bool(s) {
                    None => None,
                    Some((password, s)) => match dec_lit(s, ",\"verified\":"@) {
                        None => None,
                        Some(s) => match dec_bool(s) {
                            None => None,
                            Some((verified, s)) => match dec_lit(s, "}"@) {
                                None => None,
                                Some(s) => Some((SpecMatchInfo {
                                    players, bots, timeout_ms, args, id, name,
                                    game, running, time, connected, spectators,
                                    password, verified,
                                }, s)),
                            },
                        },
                    },
                },
            },
        },
    }
}

/// Appends the last fields of a match information object.
#[verifier::rlimit(100)]
fn push_match_info_last(out: &mut Vec<char>, m: &MatchInfo)
    ensures
        final(out)@ == old(out)@ + enc_match_info_last(m@),
{
    let lit = str_to_chars(",\"spectators\":");
    push_chars(out, &lit);
    push_u64(out, m.spectators);
    let lit = str_to_chars(",\"password\":");
    push_chars(out, &lit);
    push_bool(out, m.password);
    let lit = str_to_chars(",\"verified\":");
    push_chars(out, &lit);
    push_bool(out, m.verified);
    out.push('}');
    proof {
        reveal(enc_match_info_last);
        reveal_strlit("}");
        assert(seq!['}'] =~= "}"@);
        assert(out@ =~= old(out)@ + enc_match_info_last(m@));
    }
}

/// Appends the trailing half of a match information object.
#[verifier::rlimit(100)]
fn push_match_info_tail(out: &mut Vec<char>, m: &MatchInfo)
    ensures
        final(out)@ == old(out)@ + enc_match_info_tail(m@),
{
    let lit = str_to_chars(",\"game\":");
    push_chars(out, &lit);
    push_str_lit(out, &m.game);
    let lit = str_to_chars(",\"running\":");
    push_chars(out, &lit);
    push_bool(out, m.running);
    let lit = str_to_chars(",\"time\":");
    push_chars(out, &lit);
    push_u64(out, m.time);
    let lit = str_to_chars(",\"connected\":");
    push_chars(out, &lit);
    push_str_arr(out, &m.connected);
    push_match_info_last(out, m);
    proof {
        reveal(enc_match_info_tail);
        assert(out@ =~= old(out)@ + enc_match_info_tail(m@));
    }
}

/// Appends the canonical encoding of match information.
#[verifier::rlimit(100)]
pub fn push_match_info(out: &mut Vec<char>, m: &MatchInfo)
    ensures
        final(out)@ == old(out)@ + enc_match_info(m@),
{
    let lit = str_to_chars("{\"players\":");
    push_chars(out, &lit);
    push_u64(out, m.players);
    let lit = str_to_chars(",\"bots\":");
    push_chars(out, &lit);
    push_u64(out, m.bots);
    let lit = str_to_chars(",\"timeout\":");
    push_chars(out, &lit);
    push_secs(out, m.timeout_ms);
    let lit = str_to_chars(",\"args\":");
    push_chars(out, &lit);
    push_str_map(out, &m.args);
    let lit = str_to_chars(",\"id\":");
    push_chars(out, &lit);
    push_str_lit(out, &m.id);
    let lit = str_to_chars(",\"name\":");
    push_chars(out, &lit);
    push_str_lit(out, &m.name);
    push_match_info_tail(out, m);
    proof {
        reveal(enc_match_info);
        assert(out@ =~= old(out)@ + enc_match_info(m@));
    }
}

/// Parses match information at index `i`; on success the index moves
/// strictly forward.
pub fn parse_match_info(s: &Vec<char>, i: usize) -> (r: Option<(MatchInfo, usize)>)
    requires
        i <= s@.len(),
    ensures
        match r {
            Some((v, j)) => {
                &&& i < j <= s@.len()
                &&& dec_match_info(s@.skip(i as int)) == Some((v@, s@.skip(j as int)))
            },
            None => dec_match_info(s@.skip(i as int)) is None,
        },
{
    proof {
        reveal(dec_match_info);
    }
    let lit = str_to_chars("{\"players\":");
    let j = match parse_lit(s, i, &lit) {
        Some(j) => j,
        None => {
            return None;
        },
    };
    proof {
        reveal_strlit("{\"players\":");
    }
    let (players, j) = match parse_u64(s, j) {
        Some(x) => x,
        None => {
            return None;
        },
    };
    let lit = str_to_chars(",\"bots\":");
    let j = match parse_lit(s, j, &lit) {
        Some(j) => j,
        None => {
            return None;
        },
    };
    let (bots, j) = match parse_u64(s, j) {
        Some(x) => x,
        None => {
            return None;
        },
    };
    let lit = str_to_chars(",\"timeout\":");
    let j = match parse_lit(s, j, &lit) {
        Some(j) => j,
        None => {
            return None;
        },
    };
    let (timeout_ms, j) = match parse_secs(s, j) {
        Some(x) => x,
        None => {
            return None;
        },
    };
    let lit = str_to_chars(",\"args\":");
    let j = match parse_lit(s, j, &lit) {
        Some(j) => j,
        None => {
            return None;
        },
    };
    let (args, j) = match parse_str_map(s, j) {
        Some(x) => x,
        None => {
            return None;
        },
    };
    let lit = str_to_chars(",\"id\":");
    let j = match parse_lit(s, j, &lit) {
        Some(j) => j,
        None => {
            return None;
        },
    };
    let (id, j) = match parse_str(s, j) {
        Some(x) => x,
        None => {
            return None;
        },
    };
    let lit = str_to_chars(",\"name\":");
    let j = match parse_lit(s, j, &lit) {
        Some(j) => j,
        None => {
            return None;
        },
    };
    let (name, j) = match parse_str(s, j) {
        Some(x) => x,
        None => {
            return None;
        },
    };
    let lit = str_to_chars(",\"game\":");
    let j = match parse_lit(s, j, &lit) {
        Some(j) => j,
        None => {
            return None;
        },
    };
    let (game, j) = match parse_str(s, j) {
        Some(x) => x,
        None => {
            return None;
        },
    };
    let lit = str_to_chars(",\"running\":");
    let j = match parse_lit(s, j, &lit) {
        Some(j) => j,
        None => {
            return None;
        },
    };
    let (running, j) = match parse_bool(s, j) {
        Some(x) => x,
        None => {
            return None;
        },
    };
    let lit = str_to_chars(",\"time\":");
    let j = match parse_lit(s, j, &lit) {
        Some(j) => j,
        None => {
            return None;
        },
    };
    let (time, j) = match parse_u64(s, j) {
        Some(x) => x,
        None => {
            return None;
        },
    };
    let lit = str_to_chars(",\"connected\":");
    let j = match parse_lit(s, j, &lit) {
        Some(j) => j,
        None => {
            return None;
        },
    };
    let (connected, j) = match parse_str_arr(s, j) {
        Some(x) => x,
        None => {
            return None;
        },
    };
    let lit = str_to_chars(",\"spectators\":");
    let j = match parse_lit(s, j, &lit) {
        Some(j) => j,
        None => {
            return None;
        },
    };
    let (spectators, j) = match parse_u64(s, j) {
        Some(x) => x,
        None => {
            return None;
        },
    };
    let lit = str_to_chars(",\"password\":");
    let j = match parse_lit(s, j, &lit) {
        Some(j) => j,
        None => {
            return None;
        },
    };
    let (password, j) = match parse_bool(s, j) {
        Some(x) => x,
        None => {
            return None;
        },
    };
    let lit = str_to_chars(",\"verified\":");
    let j = match parse_lit(s, j, &lit) {
        Some(j) => j,
        None => {
            return None;
        },
    };
    let (verified, j) = match parse_bool(s, j) {
        Some(x) => x,
        None => {
            return None;
        },
    };
    let lit = str_to_chars("}");
    let j = match parse_lit(s, j, &lit) {
        Some(j) => j,
        None => {
            return None;
        },
    };
    Some((MatchInfo {
        players, bots, timeout_ms, args, id, name, game, running, time, connected,
        spectators, password, verified,
    }, j))
}


// ---------------------------------------------------------------------
// Requests
// ---------------------------------------------------------------------

/// Everything a client can ask of the server.
#[derive(Debug)]
pub enum Request {
    Handshake { magic: Vec<char>, version: u64 },
    GameList,
    GameDescription { name: Vec<char> },
    GameNew {
        name: Vec<char>,
        game: Vec<char>,
        params: GameParams,
        args: Vec<(Vec<char>, Vec<char>)>,
        password: Option<Vec<char>>,
        verification: Option<Vec<char>>,
    },
    LobbyList,
    LobbySubscribe,
    LobbyUnsubscribe,
    LobbyJoinMatch { id: Vec<char>, name: Vec<char>, password: Option<Vec<char>> },
    LobbyLeaveMatch,
    SpectateJoin { id: Vec<char> },
    SpectateLeave,
    HistoryMatchList,
    HistoryMatch { id: Vec<char> },
}

/// The mathematical model of a request.
pub enum SpecRequest {
    Handshake { magic: Seq<char>, version: u64 },
    GameList,
    GameDescription { name: Seq<char> },
    GameNew {
        name: Seq<char>,
        game: Seq<char>,
        params: GameParams,
        args: Seq<(Seq<char>, Seq<char>)>,
        password: Option<Seq<char>>,
        verification: Option<Seq<char>>,
    },
    LobbyList,
    LobbySubscribe,
    LobbyUnsubscribe,
    LobbyJoinMatch { id: Seq<char>, name: Seq<char>, password: Option<Seq<char>> },
    LobbyLeaveMatch,
    SpectateJoin { id: Seq<char> },
    SpectateLeave,
    HistoryMatchList,
    HistoryMatch { id: Seq<char> },
}

pub open spec fn view_opt_chars(o: Option<Vec<char>>) -> Option<Seq<char>> {
    match o {
        Some(v) => Some(v@),
        None => None,
    }
}

impl View for Request {
    type V = SpecRequest;

    open spec fn view(&self) -> SpecRequest {
        match self {
            Request::Handshake { magic, version } => SpecRequest::Handshake {
                magic: magic@,
                version: *version,
            },
            Request::GameList => SpecRequest::GameList,
            Request::GameDescription { name } => SpecRequest::GameDescription { name: name@ },
            Request::GameNew { name, game, params, args, password, verification } => SpecRequest::GameNew {
                name: name@,
                game: game@,
                params: *params,
                args: args.deep_view(),
                password: view_opt_chars(*password),
                verification: view_opt_chars(*verification),
            },
            Request::LobbyList => SpecRequest::LobbyList,
            Request::LobbySubscribe => SpecRequest::LobbySubscribe,
            Request::LobbyUnsubscribe => SpecRequest::LobbyUnsubscribe,
            Request::LobbyJoinMatch { id, name, password } => SpecRequest::LobbyJoinMatch {
                id: id@,
                name: name@,
                password: view_opt_chars(*password),
            },
            Request::LobbyLeaveMatch => SpecRequest::LobbyLeaveMatch,
            Request::SpectateJoin { id } => SpecRequest::SpectateJoin { id: id@ },
            Request::SpectateLeave => SpecRequest::SpectateLeave,
            Request::HistoryMatchList => SpecRequest::HistoryMatchList,
            Request::HistoryMatch { id } => SpecRequest::HistoryMatch { id: id@ },
        }
    }
}

/// The trailing fields of a `GameNew` request, from the argument map
/// on.
pub open spec fn enc_game_new_tail(
    args: Seq<(Seq<char>, Seq<char>)>,
    password: Option<Seq<char>>,
    verification: Option<Seq<char>>,
) -> Seq<char> {
    let t12 = "}}"@;
    let t11 = enc_opt_str(verification) + t12;
    let t10 = ",\"verification\":"@ + t11;
    let t9 = enc_opt_str(password) + t10;
    let t8 = ",\"password\":"@ + t9;
    let t7 = enc_str_map(args) + t8;
    ",\"args\":"@ + t7
}

/// The canonical JSON text of a `GameNew` request.
pub open spec fn enc_game_new(
    name: Seq<char>,
    game: Seq<char>,
    params: GameParams,
    args: Seq<(Seq<char>, Seq<char>)>,
    password: Option<Seq<char>>,
    verification: Option<Seq<char>>,
) -> Seq<char> {
    let t6 = enc_game_new_tail(args, password, verification);
    let t5 = enc_game_params(params) + t6;
    let t4 = ",\"params\":"@ + t5;
    let t3 = enc_str(game) + t4;
    let t2 = ",\"game\":"@ + t3;
    let t1 = enc_str(name) + t2;
    "{\"GameNew\":{\"name\":"@ + t1
}

/// Appends the trailing fields of a `GameNew` request.
fn push_game_new_tail(
    out: &mut Vec<char>,
    args: &Vec<(Vec<char>, Vec<char>)>,
    password: &Option<Vec<char>>,
    verification: &Option<Vec<char>>,
)
    ensures
        final(out)@ == old(out)@ + enc_game_new_tail(
            args.deep_view(),
            view_opt_chars(*password),
            view_opt_chars(*verification),
        ),
{
    let lit = str_to_chars(",\"args\":");
    push_chars(out, &lit);
    push_str_map(out, args);
    let lit = str_to_chars(",\"password\":");
    push_chars(out, &lit);
    push_opt_str(out, password);
    let lit = str_to_chars(",\"verification\":");
    push_chars(out, &lit);
    push_opt_str(out, verification);
    let lit = str_to_chars("}}");
    push_chars(out, &lit);
    proof {
        assert(out@ =~= old(out)@ + enc_game_new_tail(
            args.deep_view(),
            view_opt_chars(*password),
            view_opt_chars(*verification),
        ));
    }
}

/// The canonical JSON text of a request.
pub open spec fn enc_request(r: SpecRequest) -> Seq<char> {
    match r {
        SpecRequest::Handshake { magic, version } => {
            let t4 = "}}"@;
            let t3 = dec_digits(version as int) + t4;
            let t2 = ",\"version\":"@ + t3;
            let t1 = enc_str(magic) + t2;
            "{\"Handshake\":{\"magic\":"@ + t1
        },
        SpecRequest::GameList => "\"GameList\""@,
        SpecRequest::GameDescription { name } => {
            let t2 = "}}"@;
            let t1 = enc_str(name) + t2;
            "{\"GameDescription\":{\"name\":"@ + t1
        },
        SpecRequest::GameNew { name, game, params, args, password, verification } => {
            enc_game_new(name, game, params, args, password, verification)
        },
        SpecRequest::LobbyList => "\"LobbyList\""@,
        SpecRequest::LobbySubscribe => "\"LobbySubscribe\""@,
        SpecRequest::LobbyUnsubscribe => "\"LobbyUnsubscribe\""@,
        SpecRequest::LobbyJoinMatch { id, name, password } => {
            let t6 = "}}"@;
            let t5 = enc_opt_str(password) + t6;
            let t4 = ",\"password\":"@ + t5;
            let t3 = enc_str(name) + t4;
            let t2 = ",\"name\":"@ + t3;
            let t1 = enc_str(id) + t2;
            "{\"LobbyJoinMatch\":{\"id\":"@ + t1
        },
        SpecRequest::LobbyLeaveMatch => "\"LobbyLeaveMatch\""@,
        SpecRequest::SpectateJoin { id } => {
            let t2 = "}}"@;
            let t1 = enc_str(id) + t2;
            "{\"SpectateJoin\":{\"id\":"@ + t1
        },
        SpecRequest::SpectateLeave => "\"SpectateLeave\""@,
        SpecRequest::HistoryMatchList => "\"HistoryMatchList\""@,
        SpecRequest::HistoryMatch { id } => {
            let t2 = "}}"@;
            let t1 = enc_str(id) + t2;
            "{\"HistoryMatch\":{\"id\":"@ + t1
        },
    }
}

/// Parses the canonical JSON text of a request; the whole input must
/// be consumed.
pub open spec fn dec_request(s: Seq<char>) -> Option<SpecRequest> {
    if dec_lit(s, "{\"Handshake\":{\"magic\":"@) is Some {
        let s = dec_lit(s, "{\"Handshake\":{\"magic\":"@)->Some_0;
        match dec_str(s) {
            None => None,
            Some((magic, s)) => match dec_lit(s, ",\"version\":"@) {
                None => None,
                Some(s) => match dec_u64(s) {
                    None => None,
                    Some((version, s)) => match dec_lit(s, "}}"@) {
                        None => None,
                        Some(s) => {
                            if s.len() == 0 {
                                Some(SpecRequest::Handshake { magic, version })
                            } else {
                                None
                            }
                        },
                    },
                },
            },
        }
    } else if dec_lit(s, "\"GameList\""@) is Some {
        if (dec_lit(s, "\"GameList\""@)->Some_0).len() == 0 {
            Some(SpecRequest::GameList)
        } else {
            None
        }
    } else if dec_lit(s, "{\"GameDescription\":{\"name\":"@) is Some {
        let s = dec_lit(s, "{\"GameDescription\":{\"name\":"@)->Some_0;
        match dec_str(s) {
            None => None,
            Some((name, s)) => match dec_lit(s, "}}"@) {
                None => None,
                Some(s) => {
                    if s.len() == 0 {
                        Some(SpecRequest::GameDescription { name })
                    } else {
                        None
                    }
                },
            },
        }
    } else if dec_lit(s, "{\"GameNew\":{\"name\":"@) is Some {
        let s = dec_lit(s, "{\"GameNew\":{\"name\":"@)->Some_0;
        match dec_str(s) {
            None => None,
            Some((name, s)) => match dec_lit(s, ",\"game\":"@) {
                None => None,
                Some(s) => match dec_str(s) {
                    None => None,
                    Some((game, s)) => match dec_lit(s, ",\"params\":"@) {
                        None => None,
                        Some(s) => match dec_game_params(s) {
                            None => None,
                            Some((params, s)) => match dec_lit(s, ",\"args\":"@) {
                                None => None,
                                Some(s) => match dec_str_map(s) {
                                    None => None,
                                    Some((args, s)) => match dec_lit(s, ",\"password\":"@) {
                                        None => None,
                                        Some(s) => match dec_opt_str(s) {
                                            None => None,
                                            Some((password, s)) => match dec_lit(s, ",\"verification\":"@) {
                                                None => None,
                                                Some(s) => match dec_opt_str(s) {
                                                    None => None,
                                                    Some((verification, s)) => match dec_lit(s, "}}"@) {
                                                        None => None,
                                                        Some(s) => {
                                                            if s.len() == 0 {
                                                                Some(SpecRequest::GameNew {
                                                                    name, game, params, args, password, verification,
                                                                })
                                                            } else {
                                                                None
                                                            }
                                                        },
                                                    },
                                                },
                                            },
                                        },
                                    },
                                },
                            },
                        },
                    },
                },
            },
        }
    } else if dec_lit(s, "\"LobbyList\""@) is Some {
        if (dec_lit(s, "\"LobbyList\""@)->Some_0).len() == 0 {
            Some(SpecRequest::LobbyList)
        } else {
            None
        }
    } else if dec_lit(s, "\"LobbySubscribe\""@) is Some {
        if (dec_lit(s, "\"LobbySubscribe\""@)->Some_0).len() == 0 {
            Some(SpecRequest::LobbySubscribe)
        } else {
            None
        }
    } else if dec_lit(s, "\"LobbyUnsubscribe\""@) is Some {
        if (dec_lit(s, "\"LobbyUnsubscribe\""@)->Some_0).len() == 0 {
            Some(SpecRequest::LobbyUnsubscribe)
        } else {
            None
        }
    } else if dec_lit(s, "{\"LobbyJoinMatch\":{\"id\":"@) is Some {
        let s = dec_lit(s, "{\"LobbyJoinMatch\":{\"id\":"@)->Some_0;
        match dec_str(s) {
            None => None,
            Some((id, s)) => match dec_lit(s, ",\"name\":"@) {
                None => None,
                Some(s) => match dec_str(s) {
                    None => None,
                    Some((name, s)) => match dec_lit(s, ",\"password\":"@) {
                        None => None,
                        Some(s) => match dec_opt_str(s) {
                            None => None,
                            Some((password, s)) => match dec_lit(s, "}}"@) {
                                None => None,
                                Some(s) => {
                                    if s.len() == 0 {
                                        Some(SpecRequest::LobbyJoinMatch { id, name, password })
                                    } else {
                                        None
                                    }
                                },
                            },
                        },
                    },
                },
            },
        }
    } else if dec_lit(s, "\"LobbyLeaveMatch\""@) is Some {
        if (dec_lit(s, "\"LobbyLeaveMatch\""@)->Some_0).len() == 0 {
            Some(SpecRequest::LobbyLeaveMatch)
        } else {
            None
        }
    } else if dec_lit(s, "{\"SpectateJoin\":{\"id\":"@) is Some {
        let s = dec_lit(s, "{\"SpectateJoin\":{\"id\":"@)->Some_0;
        match dec_str(s) {
            None => None,
            Some((id, s)) => match dec_lit(s, "}}"@) {
                None => None,
                Some(s) => {
                    if s.len() == 0 {
                        Some(SpecRequest::SpectateJoin { id })
                    } else {
                        None
                    }
                },
            },
        }
    } else if dec_lit(s, "\"SpectateLeave\""@) is Some {
        if (dec_lit(s, "\"SpectateLeave\""@)->Some_0).len() == 0 {
            Some(SpecRequest::SpectateLeave)
        } else {
            None
        }
    } else if dec_lit(s, "\"HistoryMatchList\""@) is Some {
        if (dec_lit(s, "\"HistoryMatchList\""@)->Some_0).len() == 0 {
            Some(SpecRequest::HistoryMatchList)
        } else {
            None
        }
    } else if dec_lit(s, "{\"HistoryMatch\":{\"id\":"@) is Some {
        let s = dec_lit(s, "{\"HistoryMatch\":{\"id\":"@)->Some_0;
        match dec_str(s) {
            None => None,
            Some((id, s)) => match dec_lit(s, "}}"@) {
                None => None,
                Some(s) => {
                    if s.len() == 0 {
                        Some(SpecRequest::HistoryMatch { id })
                    } else {
                        None
                    }
                },
            },
        }
    } else {
        None
    }
}

impl Request {
    /// Serializes the request to its canonical JSON text.
    #[verifier::rlimit(100)]
    pub fn forge(&self) -> (r: Vec<char>)
        ensures
            r@ == enc_request(self@),
    {
        let mut out: Vec<char> = Vec::new();
        match self {
            Request::Handshake { magic, version } => {
                let lit = str_to_chars("{\"Handshake\":{\"magic\":");
                push_chars(&mut out, &lit);
                push_str_lit(&mut out, magic);
                let lit = str_to_chars(",\"version\":");
                push_chars(&mut out, &lit);
                push_u64(&mut out, *version);
                let lit = str_to_chars("}}");
                push_chars(&mut out, &lit);
                proof {
                    assert(out@ =~= enc_request(self@));
                }
            },
            Request::GameList => {
                let lit = str_to_chars("\"GameList\"");
                push_chars(&mut out, &lit);
            },
            Request::GameDescription { name } => {
                let lit = str_to_chars("{\"GameDescription\":{\"name\":");
                push_chars(&mut out, &lit);
                push_str_lit(&mut out, name);
                let lit = str_to_chars("}}");
                push_chars(&mut out, &lit);
                proof {
                    assert(out@ =~= enc_request(self@));
                }
            },
            Request::GameNew { name, game, params, args, password, verification } => {
                let lit = str_to_chars("{\"GameNew\":{\"name\":");
                push_chars(&mut out, &lit);
                push_str_lit(&mut out, name);
                let lit = str_to_chars(",\"game\":");
                push_chars(&mut out, &lit);
                push_str_lit(&mut out, game);
                let lit = str_to_chars(",\"params\":");
                push_chars(&mut out, &lit);
                push_game_params(&mut out, params);
                push_game_new_tail(&mut out, args, password, verification);
                proof {
                    assert(out@ =~= enc_request(self@));
                }
            },
            Request::LobbyList => {
                let lit = str_to_chars("\"LobbyList\"");
                push_chars(&mut out, &lit);
            },
            Request::LobbySubscribe => {
                let lit = str_to_chars("\"LobbySubscribe\"");
                push_chars(&mut out, &lit);
            },
            Request::LobbyUnsubscribe => {
                let lit = str_to_chars("\"LobbyUnsubscribe\"");
                push_chars(&mut out, &lit);
            },
            Request::LobbyJoinMatch { id, name, password } => {
                let lit = str_to_chars("{\"LobbyJoinMatch\":{\"id\":");
                push_chars(&mut out, &lit);
                push_str_lit(&mut out, id);
                let lit = str_to_chars(",\"name\":");
                push_chars(&mut out, &lit);
                push_str_lit(&mut out, name);
                let lit = str_to_chars(",\"password\":");
                push_chars(&mut out, &lit);
                push_opt_str(&mut out, password);
                let lit = str_to_chars("}}");
                push_chars(&mut out, &lit);
                proof {
                    assert(out@ =~= enc_request(self@));
                }
            },
            Request::LobbyLeaveMatch => {
                let lit = str_to_chars("\"LobbyLeaveMatch\"");
                push_chars(&mut out, &lit);
            },
            Request::SpectateJoin { id } => {
                let lit = str_to_chars("{\"SpectateJoin\":{\"id\":");
                push_chars(&mut out, &lit);
                push_str_lit(&mut out, id);
                let lit = str_to_chars("}}");
                push_chars(&mut out, &lit);
                proof {
                    assert(out@ =~= enc_request(self@));
                }
            },
            Request::SpectateLeave => {
                let lit = str_to_chars("\"SpectateLeave\"");
                push_chars(&mut out, &lit);
            },
            Request::HistoryMatchList => {
                let lit = str_to_chars("\"HistoryMatchList\"");
                push_chars(&mut out, &lit);
            },
            Request::HistoryMatch { id } => {
                let lit = str_to_chars("{\"HistoryMatch\":{\"id\":");
                push_chars(&mut out, &lit);
                push_str_lit(&mut out, id);
                let lit = str_to_chars("}}");
                push_chars(&mut out, &lit);
                proof {
                    assert(out@ =~= enc_request(self@));
                }
            },
        }
        out
    }
}


impl Request {
    /// Parses the canonical JSON text of a request; the whole input
    /// must be consumed.
    #[verifier::rlimit(100)]
    pub fn parse(s: &Vec<char>) -> (r: Option<Request>)
        ensures
            match r {
                Some(v) => dec_request(s@) == Some(v@),
                None => dec_request(s@) is None,
            },
    {
        proof {
            assert(s@.skip(0) =~= s@);
        }
        let n = s.len();
        let lit = str_to_chars("{\"Handshake\":{\"magic\":");
        if let Some(j) = parse_lit(s, 0, &lit) {
            let (magic, j) = match parse_str(s, j) {
                Some(x) => x,
                None => {
                    return None;
                },
            };
            let lit = str_to_chars(",\"version\":");
            let j = match parse_lit(s, j, &lit) {
                Some(j) => j,
                None => {
                    return None;
                },
            };
            let (version, j) = match parse_u64(s, j) {
                Some(x) => x,
                None => {
                    return None;
                },
            };
            let lit = str_to_chars("}}");
            let j = match parse_lit(s, j, &lit) {
                Some(j) => j,
                None => {
                    return None;
                },
            };
            if j < n {
                proof {
                    assert(s@.skip(j as int).len() > 0);
                }
                return None;
            }
            proof {
                assert(s@.skip(j as int).len() == 0);
            }
            return Some(Request::Handshake { magic, version });
        }
        let lit = str_to_chars("\"GameList\"");
        if let Some(j) = parse_lit(s, 0, &lit) {
            if j == n {
                proof {
                    assert(s@.skip(j as int).len() == 0);
                }
                return Some(Request::GameList);
            }
            proof {
                assert(s@.skip(j as int).len() > 0);
            }
            return None;
        }
        let lit = str_to_chars("{\"GameDescription\":{\"name\":");
        if let Some(j) = parse_lit(s, 0, &lit) {
            let (name, j) = match parse_str(s, j) {
                Some(x) => x,
                None => {
                    return None;
                },
            };
            let lit = str_to_chars("}}");
            let j = match parse_lit(s, j, &lit) {
                Some(j) => j,
                None => {
                    return None;
                },
            };
            if j < n {
                proof {
                    assert(s@.skip(j as int).len() > 0);
                }
                return None;
            }
            proof {
                assert(s@.skip(j as int).len() == 0);
            }
            return Some(Request::GameDescription { name });
        }
        let lit = str_to_chars("{\"GameNew\":{\"name\":");
        if let Some(j) = parse_lit(s, 0, &lit) {
            let (name, j) = match parse_str(s, j) {
                Some(x) => x,
                None => {
                    return None;
                },
            };
            let lit = str_to_chars(",\"game\":");
            let j = match parse_lit(s, j, &lit) {
                Some(j) => j,
                None => {
                    return None;
                },
            };
            let (game, j) = match parse_str(s, j) {
                Some(x) => x,
                None => {
                    return None;
                },
            };
            let lit = str_to_chars(",\"params\":");
            let j = match parse_lit(s, j, &lit) {
                Some(j) => j,
                None => {
                    return None;
                },
            };
            let (params, j) = match parse_game_params(s, j) {
                Some(x) => x,
                None => {
                    return None;
                },
            };
            let lit = str_to_chars(",\"args\":");
            let j = match parse_lit(s, j, &lit) {
                Some(j) => j,
                None => {
                    return None;
                },
            };
            let (args, j) = match parse_str_map(s, j) {
                Some(x) => x,
                None => {
                    return None;
                },
            };
            let lit = str_to_chars(",\"password\":");
            let j = match parse_lit(s, j, &lit) {
                Some(j) => j,
                None => {
                    return None;
                },
            };
            let (password, j) = match parse_opt_str(s, j) {
                Some(x) => x,
                None => {
                    return None;
                },
            };
            let lit = str_to_chars(",\"verification\":");
            let j = match parse_lit(s, j, &lit) {
                Some(j) => j,
                None => {
                    return None;
                },
            };
            let (verification, j) = match parse_opt_str(s, j) {
                Some(x) => x,
                None => {
                    return None;
                },
            };
            let lit = str_to_chars("}}");
            let j = match parse_lit(s, j, &lit) {
                Some(j) => j,
                None => {
                    return None;
                },
            };
            if j < n {
                proof {
                    assert(s@.skip(j as int).len() > 0);
                }
                return None;
            }
            proof {
                assert(s@.skip(j as int).len() == 0);
            }
            return Some(Request::GameNew { name, game, params, args, password, verification });
        }
        let lit = str_to_chars("\"LobbyList\"");
        if let Some(j) = parse_lit(s, 0, &lit) {
            if j == n {
                proof {
                    assert(s@.skip(j as int).len() == 0);
                }
                return Some(Request::LobbyList);
            }
            proof {
                assert(s@.skip(j as int).len() > 0);
            }
            return None;
        }
        let lit = str_to_chars("\"LobbySubscribe\"");
        if let Some(j) = parse_lit(s, 0, &lit) {
            if j == n {
                proof {
                    assert(s@.skip(j as int).len() == 0);
                }
                return Some(Request::LobbySubscribe);
            }
            proof {
                assert(s@.skip(j as int).len() > 0);
            }
            return None;
        }
        let lit = str_to_chars("\"LobbyUnsubscribe\"");
        if let Some(j) = parse_lit(s, 0, &lit) {
            if j == n {
                proof {
                    assert(s@.skip(j as int).len() == 0);
                }
                return Some(Request::LobbyUnsubscribe);
            }
            proof {
                assert(s@.skip(j as int).len() > 0);
            }
            return None;
        }
        let lit = str_to_chars("{\"LobbyJoinMatch\":{\"id\":");
        if let Some(j) = parse_lit(s, 0, &lit) {
            let (id, j) = match parse_str(s, j) {
                Some(x) => x,
                None => {
                    return None;
                },
            };
            let lit = str_to_chars(",\"name\":");
            let j = match parse_lit(s, j, &lit) {
                Some(j) => j,
                None => {
                    return None;
                },
            };
            let (name, j) = match parse_str(s, j) {
                Some(x) => x,
                None => {
                    return None;
                },
            };
            let lit = str_to_chars(",\"password\":");
            let j = match parse_lit(s, j, &lit) {
                Some(j) => j,
                None => {
                    return None;
                },
            };
            let (password, j) = match parse_opt_str(s, j) {
                Some(x) => x,
                None => {
                    return None;
                },
            };
            let lit = str_to_chars("}}");
            let j = match parse_lit(s, j, &lit) {
                Some(j) => j,
                None => {
                    return None;
                },
            };
            if j < n {
                proof {
                    assert(s@.skip(j as int).len() > 0);
                }
                return None;
            }
            proof {
                assert(s@.skip(j as int).len() == 0);
            }
            return Some(Request::LobbyJoinMatch { id, name, password });
        }
        let lit = str_to_chars("\"LobbyLeaveMatch\"");
        if let Some(j) = parse_lit(s, 0, &lit) {
            if j == n {
                proof {
                    assert(s@.skip(j as int).len() == 0);
                }
                return Some(Request::LobbyLeaveMatch);
            }
            proof {
                assert(s@.skip(j as int).len() > 0);
            }
            return None;
        }
        let lit = str_to_chars("{\"SpectateJoin\":{\"id\":");
        if let Some(j) = parse_lit(s, 0, &lit) {
            let (id, j) = match parse_str(s, j) {
                Some(x) => x,
                None => {
                    return None;
                },
            };
            let lit = str_to_chars("}}");
            let j = match parse_lit(s, j, &lit) {
                Some(j) => j,
                None => {
                    return None;
                },
            };
            if j < n {
                proof {
                    assert(s@.skip(j as int).len() > 0);
                }
                return None;
            }
            proof {
                assert(s@.skip(j as int).len() == 0);
            }
            return Some(Request::SpectateJoin { id });
        }
        let lit = str_to_chars("\"SpectateLeave\"");
        if let Some(j) = parse_lit(s, 0, &lit) {
            if j == n {
                proof {
                    assert(s@.skip(j as int).len() == 0);
                }
                return Some(Request::SpectateLeave);
            }
            proof {
                assert(s@.skip(j as int).len() > 0);
            }
            return None;
        }
        let lit = str_to_chars("\"HistoryMatchList\"");
        if let Some(j) = parse_lit(s, 0, &lit) {
            if j == n {
                proof {
                    assert(s@.skip(j as int).len() == 0);
                }
                return Some(Request::HistoryMatchList);
            }
            proof {
                assert(s@.skip(j as int).len() > 0);
            }
            return None;
        }
        let lit = str_to_chars("{\"HistoryMatch\":{\"id\":");
        if let Some(j) = parse_lit(s, 0, &lit) {
            let (id, j) = match parse_str(s, j) {
                Some(x) => x,
                None => {
                    return None;
                },
            };
            let lit = str_to_chars("}}");
            let j = match parse_lit(s, j, &lit) {
                Some(j) => j,
                None => {
                    return None;
                },
            };
            if j < n {
                proof {
                    assert(s@.skip(j as int).len() > 0);
                }
                return None;
            }
            proof {
                assert(s@.skip(j as int).len() == 0);
            }
            return Some(Request::HistoryMatch { id });
        }
        None
    }
}


// ---------------------------------------------------------------------
// Arrays of match information
// ---------------------------------------------------------------------

pub open spec fn enc_mi_arr_items(l: Seq<SpecMatchInfo>) -> Seq<char>
    decreases l.len(),
{
    if l.len() == 0 {
        Seq::empty()
    } else {
        seq![','] + enc_match_info(l[0]) + enc_mi_arr_items(l.drop_first())
    }
}

/// The canonical JSON array of match information objects.
pub open spec fn enc_mi_arr(l: Seq<SpecMatchInfo>) -> Seq<char> {
    if l.len() == 0 {
        seq!['[', ']']
    } else {
        seq!['['] + enc_match_info(l[0]) + enc_mi_arr_items(l.drop_first()) + seq![']']
    }
}

pub proof fn lemma_enc_mi_arr_items_push(l: Seq<SpecMatchInfo>, x: SpecMatchInfo)
    ensures
        enc_mi_arr_items(l.push(x)) == enc_mi_arr_items(l) + seq![','] + enc_match_info(x),
    decreases l.len(),
{
    if l.len() == 0 {
        let lp = l.push(x);
        assert(lp[0] == x);
        assert(lp.drop_first() =~= Seq::<SpecMatchInfo>::empty());
        assert(enc_mi_arr_items(lp)
            == seq![','] + enc_match_info(lp[0]) + enc_mi_arr_items(lp.drop_first()));
        assert(enc_mi_arr_items(Seq::<SpecMatchInfo>::empty()) == Seq::<char>::empty());
        assert(enc_mi_arr_items(lp) =~= enc_mi_arr_items(l) + seq![','] + enc_match_info(x));
    } else {
        assert(l.push(x).drop_first() =~= l.drop_first().push(x));
        assert(l.push(x)[0] == l[0]);
        lemma_enc_mi_arr_items_push(l.drop_first(), x);
        assert(enc_mi_arr_items(l.push(x))
            =~= enc_mi_arr_items(l) + seq![','] + enc_match_info(x));
    }
}

pub open spec fn dec_mi_arr_tail(s: Seq<char>, acc: Seq<SpecMatchInfo>) -> Option<(Seq<SpecMatchInfo>, Seq<char>)>
    decreases s.len(),
{
    if s.len() == 0 {
        None
    } else if s[0] == ']' {
        Some((acc, s.drop_first()))
    } else if s[0] == ',' {
        match dec_match_info(s.drop_first()) {
            Some((v, r)) => if r.len() < s.len() {
                dec_mi_arr_tail(r, acc.push(v))
            } else {
                None
            },
            None => None,
        }
    } else {
        None
    }
}

/// Parses a JSON array of match information objects.
pub open spec fn dec_mi_arr(s: Seq<char>) -> Option<(Seq<SpecMatchInfo>, Seq<char>)> {
    if s.len() >= 2 && s[0] == '[' && s[1] == ']' {
        Some((Seq::empty(), s.skip(2)))
    } else if s.len() >= 1 && s[0] == '[' {
        match dec_match_info(s.drop_first()) {
            Some((v, r)) => if r.len() < s.len() {
                dec_mi_arr_tail(r, seq![v])
            } else {
                None
            },
            None => None,
        }
    } else {
        None
    }
}

/// The models of a vector of match information values.
pub open spec fn view_mi_vec(v: Seq<MatchInfo>) -> Seq<SpecMatchInfo> {
    Seq::new(v.len(), |i: int| v[i]@)
}

/// Appends the canonical JSON array of match information.
#[verifier::rlimit(100)]
pub fn push_mi_arr(out: &mut Vec<char>, l: &Vec<MatchInfo>)
    ensures
        final(out)@ == old(out)@ + enc_mi_arr(view_mi_vec(l@)),
{
    let ghost base = out@;
    let ghost dv = view_mi_vec(l@);
    if l.len() == 0 {
        out.push('[');
        out.push(']');
        proof {
            assert(out@ =~= base + enc_mi_arr(dv));
        }
        return;
    }
    out.push('[');
    push_match_info(out, &l[0]);
    proof {
        assert(dv[0] == l@[0]@);
        assert(dv.take(1).drop_first() =~= Seq::<SpecMatchInfo>::empty());
        assert(enc_mi_arr_items(Seq::<SpecMatchInfo>::empty()) == Seq::<char>::empty());
        assert(out@ =~= base + seq!['['] + enc_match_info(dv[0]) + enc_mi_arr_items(dv.take(1).drop_first()));
    }
    let mut m: usize = 1;
    while m < l.len()
        invariant
            1 <= m <= l@.len(),
            dv == view_mi_vec(l@),
            dv.len() == l@.len(),
            out@ == base + seq!['['] + enc_match_info(dv[0]) + enc_mi_arr_items(dv.take(m as int).drop_first()),
        decreases l@.len() - m,
    {
        out.push(',');
        push_match_info(out, &l[m]);
        proof {
            assert(dv[m as int] == l@[m as int]@);
            assert(dv.take(m + 1 as int).drop_first() =~= dv.take(m as int).drop_first().push(dv[m as int]));
            lemma_enc_mi_arr_items_push(dv.take(m as int).drop_first(), dv[m as int]);
            assert(out@ =~= base + seq!['['] + enc_match_info(dv[0])
                + enc_mi_arr_items(dv.take(m + 1 as int).drop_first()));
        }
        m = m + 1;
    }
    out.push(']');
    proof {
        assert(dv.take(dv.len() as int) =~= dv);
        assert(out@ =~= base + enc_mi_arr(dv));
    }
}

/// Parses a JSON array of match information at index `i`.
#[verifier::rlimit(100)]
pub fn parse_mi_arr(s: &Vec<char>, i: usize) -> (r: Option<(Vec<MatchInfo>, usize)>)
    requires
        i <= s@.len(),
    ensures
        match r {
            Some((v, j)) => {
                &&& i <= j <= s@.len()
                &&& dec_mi_arr(s@.skip(i as int)) == Some((view_mi_vec(v@), s@.skip(j as int)))
            },
            None => dec_mi_arr(s@.skip(i as int)) is None,
        },
{
    let ghost s0 = s@.skip(i as int);
    proof {
        assert(forall|mm: int| 0 <= mm < s0.len() ==> s0[mm] == s@[i + mm]);
    }
    if i >= s.len() || s[i] != '[' {
        return None;
    }
    if i + 1 < s.len() && s[i + 1] == ']' {
        proof {
            assert(s0.skip(2) =~= s@.skip(i + 2));
        }
        let empty: Vec<MatchInfo> = Vec::new();
        proof {
            assert(view_mi_vec(empty@) =~= Seq::<SpecMatchInfo>::empty());
        }
        return Some((empty, i + 2));
    }
    proof {
        assert(s0.len() >= 1 && s0[0] == '[');
        assert(!(s0.len() >= 2 && s0[1] == ']'));
        assert(s0.drop_first() =~= s@.skip(i + 1));
    }
    let first = parse_match_info(s, i + 1);
    let (v0, mut j) = match first {
        Some(x) => x,
        None => {
            return None;
        },
    };
    let mut res: Vec<MatchInfo> = Vec::new();
    res.push(v0);
    proof {
        assert(s@.skip(j as int).len() < s0.len());
        assert(view_mi_vec(res@) =~= seq![res@[0]@]);
        assert(dec_mi_arr(s0) == dec_mi_arr_tail(s@.skip(j as int), view_mi_vec(res@)));
    }
    loop
        invariant
            i < j <= s@.len(),
            s0 == s@.skip(i as int),
            dec_mi_arr(s0) == dec_mi_arr_tail(s@.skip(j as int), view_mi_vec(res@)),
        decreases s@.len() - j,
    {
        let ghost sj = s@.skip(j as int);
        proof {
            assert(forall|mm: int| 0 <= mm < sj.len() ==> sj[mm] == s@[j + mm]);
        }
        if j >= s.len() {
            return None;
        }
        let c = s[j];
        if c == ']' {
            proof {
                assert(sj.drop_first() =~= s@.skip(j + 1));
            }
            return Some((res, j + 1));
        } else if c == ',' {
            proof {
                assert(sj.drop_first() =~= s@.skip(j + 1));
            }
            let ghost prev = view_mi_vec(res@);
            match parse_match_info(s, j + 1) {
                Some((v, j2)) => {
                    let ghost vv = v@;
                    res.push(v);
                    proof {
                        assert(view_mi_vec(res@) =~= prev.push(vv));
                        assert(s@.skip(j2 as int).len() < sj.len());
                        assert(dec_mi_arr_tail(sj, prev)
                            == dec_mi_arr_tail(s@.skip(j2 as int), view_mi_vec(res@)));
                    }
                    j = j2;
                },
                None => {
                    return None;
                },
            }
        } else {
            return None;
        }
    }
}


// ---------------------------------------------------------------------
// Results on the wire
// ---------------------------------------------------------------------

/// A string-or-error result.
pub open spec fn enc_result_str(r: Result<Seq<char>, Seq<char>>) -> Seq<char> {
    match r {
        Ok(v) => {
            let t2 = "}"@;
            let t1 = enc_str(v) + t2;
            "{\"Ok\":"@ + t1
        },
        Err(e) => {
            let t2 = "}"@;
            let t1 = enc_str(e) + t2;
            "{\"Err\":"@ + t1
        },
    }
}

pub open spec fn dec_result_str(s: Seq<char>) -> Option<(Result<Seq<char>, Seq<char>>, Seq<char>)> {
    if dec_lit(s, "{\"Ok\":"@) is Some {
        let s = dec_lit(s, "{\"Ok\":"@)->Some_0;
        match dec_str(s) {
            None => None,
            Some((v, s)) => match dec_lit(s, "}"@) {
                None => None,
                Some(s) => Some((Ok(v), s)),
            },
        }
    } else if dec_lit(s, "{\"Err\":"@) is Some {
        let s = dec_lit(s, "{\"Err\":"@)->Some_0;
        match dec_str(s) {
            None => None,
            Some((e, s)) => match dec_lit(s, "}"@) {
                None => None,
                Some(s) => Some((Err(e), s)),
            },
        }
    } else {
        None
    }
}

/// A match-information-or-error result.
pub open spec fn enc_result_mi(r: Result<SpecMatchInfo, Seq<char>>) -> Seq<char> {
    match r {
        Ok(v) => {
            let t2 = "}"@;
            let t1 = enc_match_info(v) + t2;
            "{\"Ok\":"@ + t1
        },
        Err(e) => {
            let t2 = "}"@;
            let t1 = enc_str(e) + t2;
            "{\"Err\":"@ + t1
        },
    }
}

pub open spec fn dec_result_mi(s: Seq<char>) -> Option<(Result<SpecMatchInfo, Seq<char>>, Seq<char>)> {
    if dec_lit(s, "{\"Ok\":"@) is Some {
        let s = dec_lit(s, "{\"Ok\":"@)->Some_0;
        match dec_match_info(s) {
            None => None,
            Some((v, s)) => match dec_lit(s, "}"@) {
                None => None,
                Some(s) => Some((Ok(v), s)),
            },
        }
    } else if dec_lit(s, "{\"Err\":"@) is Some {
        let s = dec_lit(s, "{\"Err\":"@)->Some_0;
        match dec_str(s) {
            None => None,
            Some((e, s)) => match dec_lit(s, "}"@) {
                None => None,
                Some(s) => Some((Err(e), s)),
            },
        }
    } else {
        None
    }
}

/// A persistence error on the wire.
pub open spec fn enc_db_err(e: crate::archive::DatabaseError) -> Seq<char> {
    match e {
        crate::archive::DatabaseError::FileNotFound => "\"FileNotFound\""@,
        crate::archive::DatabaseError::UnableToDeserialize => "\"UnableToDeserialize\""@,
        crate::archive::DatabaseError::InvalidID => "\"InvalidID\""@,
    }
}

pub open spec fn dec_db_err(s: Seq<char>) -> Option<(crate::archive::DatabaseError, Seq<char>)> {
    if dec_lit(s, "\"FileNotFound\""@) is Some {
        Some((crate::archive::DatabaseError::FileNotFound, dec_lit(s, "\"FileNotFound\""@)->Some_0))
    } else if dec_lit(s, "\"UnableToDeserialize\""@) is Some {
        Some((crate::archive::DatabaseError::UnableToDeserialize, dec_lit(s, "\"UnableToDeserialize\""@)->Some_0))
    } else if dec_lit(s, "\"InvalidID\""@) is Some {
        Some((crate::archive::DatabaseError::InvalidID, dec_lit(s, "\"InvalidID\""@)->Some_0))
    } else {
        None
    }
}

/// A record-or-error result.
pub open spec fn enc_result_md(r: Result<crate::archive::SpecMatchData, crate::archive::DatabaseError>) -> Seq<char> {
    match r {
        Ok(v) => {
            let t2 = "}"@;
            let t1 = crate::archive::enc_match_data(v) + t2;
            "{\"Ok\":"@ + t1
        },
        Err(e) => {
            let t2 = "}"@;
            let t1 = enc_db_err(e) + t2;
            "{\"Err\":"@ + t1
        },
    }
}

pub open spec fn dec_result_md(s: Seq<char>) -> Option<(Result<crate::archive::SpecMatchData, crate::archive::DatabaseError>, Seq<char>)> {
    if dec_lit(s, "{\"Ok\":"@) is Some {
        let s = dec_lit(s, "{\"Ok\":"@)->Some_0;
        match crate::archive::dec_match_data_part(s) {
            None => None,
            Some((v, s)) => match dec_lit(s, "}"@) {
                None => None,
                Some(s) => Some((Ok(v), s)),
            },
        }
    } else if dec_lit(s, "{\"Err\":"@) is Some {
        let s = dec_lit(s, "{\"Err\":"@)->Some_0;
        match dec_db_err(s) {
            None => None,
            Some((e, s)) => match dec_lit(s, "}"@) {
                None => None,
                Some(s) => Some((Err(e), s)),
            },
        }
    } else {
        None
    }
}

// ---------------------------------------------------------------------
// Replies
// ---------------------------------------------------------------------

/// Everything the server can send to a client.
#[derive(Debug)]
pub enum Reply {
    Handshake { magic: Vec<char>, version: u64 },
    GameList { games: Vec<Vec<char>> },
    GameDescription { description: Option<Vec<char>> },
    GameNew { id: Result<Vec<char>, Vec<char>> },
    LobbyList { info: Vec<MatchInfo> },
    LobbySubscribed { seed: Vec<MatchInfo> },
    LobbyJoinedMatch { info: Result<MatchInfo, Vec<char>> },
    LobbyNew { info: MatchInfo },
    LobbyUpdate { info: MatchInfo },
    LobbyDelete { id: Vec<char> },
    LobbyUnsubscribed,
    LobbyLeavedMatch,
    MatchStarted,
    MatchEnded,
    SpectateJoined { info: Result<MatchInfo, Vec<char>> },
    SpectateStarted,
    SpectateSynced,
    SpectateEnded,
    SpectateLeaved,
    HistoryMatchList { ids: Vec<Vec<char>> },
    HistoryMatch { data: Result<crate::archive::MatchData, crate::archive::DatabaseError> },
}

/// The mathematical model of a reply.
pub enum SpecReply {
    Handshake { magic: Seq<char>, version: u64 },
    GameList { games: Seq<Seq<char>> },
    GameDescription { description: Option<Seq<char>> },
    GameNew { id: Result<Seq<char>, Seq<char>> },
    LobbyList { info: Seq<SpecMatchInfo> },
    LobbySubscribed { seed: Seq<SpecMatchInfo> },
    LobbyJoinedMatch { info: Result<SpecMatchInfo, Seq<char>> },
    LobbyNew { info: SpecMatchInfo },
    LobbyUpdate { info: SpecMatchInfo },
    LobbyDelete { id: Seq<char> },
    LobbyUnsubscribed,
    LobbyLeavedMatch,
    MatchStarted,
    MatchEnded,
    SpectateJoined { info: Result<SpecMatchInfo, Seq<char>> },
    SpectateStarted,
    SpectateSynced,
    SpectateEnded,
    SpectateLeaved,
    HistoryMatchList { ids: Seq<Seq<char>> },
    HistoryMatch { data: Result<crate::archive::SpecMatchData, crate::archive::DatabaseError> },
}

pub open spec fn view_result_chars(r: Result<Vec<char>, Vec<char>>) -> Result<Seq<char>, Seq<char>> {
    match r {
        Ok(v) => Ok(v@),
        Err(e) => Err(e@),
    }
}

pub open spec fn view_result_mi(r: Result<MatchInfo, Vec<char>>) -> Result<SpecMatchInfo, Seq<char>> {
    match r {
        Ok(v) => Ok(v@),
        Err(e) => Err(e@),
    }
}

pub open spec fn view_result_md(r: Result<crate::archive::MatchData, crate::archive::DatabaseError>) -> Result<crate::archive::SpecMatchData, crate::archive::DatabaseError> {
    match r {
        Ok(v) => Ok(v@),
        Err(e) => Err(e),
    }
}

impl View for Reply {
    type V = SpecReply;

    open spec fn view(&self) -> SpecReply {
        match self {
            Reply::Handshake { magic, version } => SpecReply::Handshake { magic: magic@, version: *version },
            Reply::GameList { games } => SpecReply::GameList { games: games.deep_view() },
            Reply::GameDescription { description } => SpecReply::GameDescription {
                description: view_opt_chars(*description),
            },
            Reply::GameNew { id } => SpecReply::GameNew { id: view_result_chars(*id) },
            Reply::LobbyList { info } => SpecReply::LobbyList { info: view_mi_vec(info@) },
            Reply::LobbySubscribed { seed } => SpecReply::LobbySubscribed { seed: view_mi_vec(seed@) },
            Reply::LobbyJoinedMatch { info } => SpecReply::LobbyJoinedMatch { info: view_result_mi(*info) },
            Reply::LobbyNew { info } => SpecReply::LobbyNew { info: info@ },
            Reply::LobbyUpdate { info } => SpecReply::LobbyUpdate { info: info@ },
            Reply::LobbyDelete { id } => SpecReply::LobbyDelete { id: id@ },
            Reply::LobbyUnsubscribed => SpecReply::LobbyUnsubscribed,
            Reply::LobbyLeavedMatch => SpecReply::LobbyLeavedMatch,
            Reply::MatchStarted => SpecReply::MatchStarted,
            Reply::MatchEnded => SpecReply::MatchEnded,
            Reply::SpectateJoined { info } => SpecReply::SpectateJoined { info: view_result_mi(*info) },
            Reply::SpectateStarted => SpecReply::SpectateStarted,
            Reply::SpectateSynced => SpecReply::SpectateSynced,
            Reply::SpectateEnded => SpecReply::SpectateEnded,
            Reply::SpectateLeaved => SpecReply::SpectateLeaved,
            Reply::HistoryMatchList { ids } => SpecReply::HistoryMatchList { ids: ids.deep_view() },
            Reply::HistoryMatch { data } => SpecReply::HistoryMatch { data: view_result_md(*data) },
        }
    }
}

/// The canonical JSON text of a reply.
pub open spec fn enc_reply(r: SpecReply) -> Seq<char> {
    match r {
        SpecReply::Handshake { magic, version } => {
            let t4 = "}}"@;
            let t3 = dec_digits(version as int) + t4;
            let t2 = ",\"version\":"@ + t3;
            let t1 = enc_str(magic) + t2;
            "{\"Handshake\":{\"magic\":"@ + t1
        },
        SpecReply::GameList { games } => {
            let t2 = "}}"@;
            let t1 = enc_str_arr(games) + t2;
            "{\"GameList\":{\"games\":"@ + t1
        },
        SpecReply::GameDescription { description } => {
            let t2 = "}}"@;
            let t1 = enc_opt_str(description) + t2;
            "{\"GameDescription\":{\"description\":"@ + t1
        },
        SpecReply::GameNew { id } => {
            let t2 = "}}"@;
            let t1 = enc_result_str(id) + t2;
            "{\"GameNew\":{\"id\":"@ + t1
        },
        SpecReply::LobbyList { info } => {
            let t2 = "}}"@;
            let t1 = enc_mi_arr(info) + t2;
            "{\"LobbyList\":{\"info\":"@ + t1
        },
        SpecReply::LobbySubscribed { seed } => {
            let t2 = "}}"@;
            let t1 = enc_mi_arr(seed) + t2;
            "{\"LobbySubscribed\":{\"seed\":"@ + t1
        },
        SpecReply::LobbyJoinedMatch { info } => {
            let t2 = "}}"@;
            let t1 = enc_result_mi(info) + t2;
            "{\"LobbyJoinedMatch\":{\"info\":"@ + t1
        },
        SpecReply::LobbyNew { info } => {
            let t2 = "}}"@;
            let t1 = enc_match_info(info) + t2;
            "{\"LobbyNew\":{\"info\":"@ + t1
        },
        SpecReply::LobbyUpdate { info } => {
            let t2 = "}}"@;
            let t1 = enc_match_info(info) + t2;
            "{\"LobbyUpdate\":{\"info\":"@ + t1
        },
        SpecReply::LobbyDelete { id } => {
            let t2 = "}}"@;
            let t1 = enc_str(id) + t2;
            "{\"LobbyDelete\":{\"id\":"@ + t1
        },
        SpecReply::LobbyUnsubscribed => "\"LobbyUnsubscribed\""@,
        SpecReply::LobbyLeavedMatch => "\"LobbyLeavedMatch\""@,
        SpecReply::MatchStarted => "\"MatchStarted\""@,
        SpecReply::MatchEnded => "\"MatchEnded\""@,
        SpecReply::SpectateJoined { info } => {
            let t2 = "}}"@;
            let t1 = enc_result_mi(info) + t2;
            "{\"SpectateJoined\":{\"info\":"@ + t1
        },
        SpecReply::SpectateStarted => "\"SpectateStarted\""@,
        SpecReply::SpectateSynced => "\"SpectateSynced\""@,
        SpecReply::SpectateEnded => "\"SpectateEnded\""@,
        SpecReply::SpectateLeaved => "\"SpectateLeaved\""@,
        SpecReply::HistoryMatchList { ids } => {
            let t2 = "}"@;
            let t1 = enc_str_arr(ids) + t2;
            "{\"HistoryMatchList\":"@ + t1
        },
        SpecReply::HistoryMatch { data } => {
            let t2 = "}"@;
            let t1 = enc_result_md(data) + t2;
            "{\"HistoryMatch\":"@ + t1
        },
    }
}


/// Parses the canonical JSON text of a reply; the whole input must
/// be consumed.
pub open spec fn dec_reply(s: Seq<char>) -> Option<SpecReply> {
    if dec_lit(s, "{\"Handshake\":{\"magic\":"@) is Some {
        let s = dec_lit(s, "{\"Handshake\":{\"magic\":"@)->Some_0;
        match dec_str(s) {
            None => None,
            Some((magic, s)) => match dec_lit(s, ",\"version\":"@) {
                None => None,
                Some(s) => match dec_u64(s) {
                    None => None,
                    Some((version, s)) => match dec_lit(s, "}}"@) {
                        None => None,
                        Some(s) => {
                            if s.len() == 0 {
                                Some(SpecReply::Handshake { magic, version })
                            } else {
                                None
                            }
                        },
                    },
                },
            },
        }
    } else if dec_lit(s, "{\"GameList\":{\"games\":"@) is Some {
        let s = dec_lit(s, "{\"GameList\":{\"games\":"@)->Some_0;
        match dec_str_arr(s) {
            None => None,
            Some((games, s)) => match dec_lit(s, "}}"@) {
                None => None,
                Some(s) => {
                    if s.len() == 0 {
                        Some(SpecReply::GameList { games })
                    } else {
                        None
                    }
                },
            },
        }
    } else if dec_lit(s, "{\"GameDescription\":{\"description\":"@) is Some {
        let s = dec_lit(s, "{\"GameDescription\":{\"description\":"@)->Some_0;
        match dec_opt_str(s) {
            None => None,
            Some((description, s)) => match dec_lit(s, "}}"@) {
                None => None,
                Some(s) => {
                    if s.len() == 0 {
                        Some(SpecReply::GameDescription { description })
                    } else {
                        None
                    }
                },
            },
        }
    } else if dec_lit(s, "{\"GameNew\":{\"id\":"@) is Some {
        let s = dec_lit(s, "{\"GameNew\":{\"id\":"@)->Some_0;
        match dec_result_str(s) {
            None => None,
            Some((id, s)) => match dec_lit(s, "}}"@) {
                None => None,
                Some(s) => {
                    if s.len() == 0 {
                        Some(SpecReply::GameNew { id })
                    } else {
                        None
                    }
                },
            },
        }
    } else if dec_lit(s, "{\"LobbyList\":{\"info\":"@) is Some {
        let s = dec_lit(s, "{\"LobbyList\":{\"info\":"@)->Some_0;
        match dec_mi_arr(s) {
            None => None,
            Some((info, s)) => match dec_lit(s, "}}"@) {
                None => None,
                Some(s) => {
                    if s.len() == 0 {
                        Some(SpecReply::LobbyList { info })
                    } else {
                        None
                    }
                },
            },
        }
    } else if dec_lit(s, "{\"LobbySubscribed\":{\"seed\":"@) is Some {
        let s = dec_lit(s, "{\"LobbySubscribed\":{\"seed\":"@)->Some_0;
        match dec_mi_arr(s) {
            None => None,
            Some((seed, s)) => match dec_lit(s, "}}"@) {
                None => None,
                Some(s) => {
                    if s.len() == 0 {
                        Some(SpecReply::LobbySubscribed { seed })
                    } else {
                        None
                    }
                },
            },
        }
    } else if dec_lit(s, "{\"LobbyJoinedMatch\":{\"info\":"@) is Some {
        let s = dec_lit(s, "{\"LobbyJoinedMatch\":{\"info\":"@)->Some_0;
        match dec_result_mi(s) {
            None => None,
            Some((info, s)) => match dec_lit(s, "}}"@) {
                None => None,
                Some(s) => {
                    if s.len() == 0 {
                        Some(SpecReply::LobbyJoinedMatch { info })
                    } else {
                        None
                    }
                },
            },
        }
    } else if dec_lit(s, "{\"LobbyNew\":{\"info\":"@) is Some {
        let s = dec_lit(s, "{\"LobbyNew\":{\"info\":"@)->Some_0;
        match dec_match_info(s) {
            None => None,
            Some((info, s)) => match dec_lit(s, "}}"@) {
                None => None,
                Some(s) => {
                    if s.len() == 0 {
                        Some(SpecReply::LobbyNew { info })
                    } else {
                        None
                    }
                },
            },
        }
    } else if dec_lit(s, "{\"LobbyUpdate\":{\"info\":"@) is Some {
        let s = dec_lit(s, "{\"LobbyUpdate\":{\"info\":"@)->Some_0;
        match dec_match_info(s) {
            None => None,
            Some((info, s)) => match dec_lit(s, "}}"@) {
                None => None,
                Some(s) => {
                    if s.len() == 0 {
                        Some(SpecReply::LobbyUpdate { info })
                    } else {
                        None
                    }
                },
            },
        }
    } else if dec_lit(s, "{\"LobbyDelete\":{\"id\":"@) is Some {
        let s = dec_lit(s, "{\"LobbyDelete\":{\"id\":"@)->Some_0;
        match dec_str(s) {
            None => None,
            Some((id, s)) => match dec_lit(s, "}}"@) {
                None => None,
                Some(s) => {
                    if s.len() == 0 {
                        Some(SpecReply::LobbyDelete { id })
                    } else {
                        None
                    }
                },
            },
        }
    } else if dec_lit(s, "\"LobbyUnsubscribed\""@) is Some {
        if (dec_lit(s, "\"LobbyUnsubscribed\""@)->Some_0).len() == 0 {
            Some(SpecReply::LobbyUnsubscribed)
        } else {
            None
        }
    } else if dec_lit(s, "\"LobbyLeavedMatch\""@) is Some {
        if (dec_lit(s, "\"LobbyLeavedMatch\""@)->Some_0).len() == 0 {
            Some(SpecReply::LobbyLeavedMatch)
        } else {
            None
        }
    } else if dec_lit(s, "\"MatchStarted\""@) is Some {
        if (dec_lit(s, "\"MatchStarted\""@)->Some_0).len() == 0 {
            Some(SpecReply::MatchStarted)
        } else {
            None
        }
    } else if dec_lit(s, "\"MatchEnded\""@) is Some {
        if (dec_lit(s, "\"MatchEnded\""@)->Some_0).len() == 0 {
            Some(SpecReply::MatchEnded)
        } else {
            None
        }
    } else if dec_lit(s, "{\"SpectateJoined\":{\"info\":"@) is Some {
        let s = dec_lit(s, "{\"SpectateJoined\":{\"info\":"@)->Some_0;
        match dec_result_mi(s) {
            None => None,
            Some((info, s)) => match dec_lit(s, "}}"@) {
                None => None,
                Some(s) => {
                    if s.len() == 0 {
                        Some(SpecReply::SpectateJoined { info })
                    } else {
                        None
                    }
                },
            },
        }
    } else if dec_lit(s, "\"SpectateStarted\""@) is Some {
        if (dec_lit(s, "\"SpectateStarted\""@)->Some_0).len() == 0 {
            Some(SpecReply::SpectateStarted)
        } else {
            None
        }
    } else if dec_lit(s, "\"SpectateSynced\""@) is Some {
        if (dec_lit(s, "\"SpectateSynced\""@)->Some_0).len() == 0 {
            Some(SpecReply::SpectateSynced)
        } else {
            None
        }
    } else if dec_lit(s, "\"SpectateEnded\""@) is Some {
        if (dec_lit(s, "\"SpectateEnded\""@)->Some_0).len() == 0 {
            Some(SpecReply::SpectateEnded)
        } else {
            None
        }
    } else if dec_lit(s, "\"SpectateLeaved\""@) is Some {
        if (dec_lit(s, "\"SpectateLeaved\""@)->Some_0).len() == 0 {
            Some(SpecReply::SpectateLeaved)
        } else {
            None
        }
    } else if dec_lit(s, "{\"HistoryMatchList\":"@) is Some {
        let s = dec_lit(s, "{\"HistoryMatchList\":"@)->Some_0;
        match dec_str_arr(s) {
            None => None,
            Some((ids, s)) => match dec_lit(s, "}"@) {
                None => None,
                Some(s) => {
                    if s.len() == 0 {
                        Some(SpecReply::HistoryMatchList { ids })
                    } else {
                        None
                    }
                },
            },
        }
    } else if dec_lit(s, "{\"HistoryMatch\":"@) is Some {
        let s = dec_lit(s, "{\"HistoryMatch\":"@)->Some_0;
        match dec_result_md(s) {
            None => None,
            Some((data, s)) => match dec_lit(s, "}"@) {
                None => None,
                Some(s) => {
                    if s.len() == 0 {
                        Some(SpecReply::HistoryMatch { data })
                    } else {
                        None
                    }
                },
            },
        }
    } else {
        None
    }
}


/// Appends a string-or-error result.
fn push_result_str(out: &mut Vec<char>, r: &Result<Vec<char>, Vec<char>>)
    ensures
        final(out)@ == old(out)@ + enc_result_str(view_result_chars(*r)),
{
    match r {
        Ok(v) => {
            let lit = str_to_chars("{\"Ok\":");
            push_chars(out, &lit);
            push_str_lit(out, v);
            let lit = str_to_chars("}");
            push_chars(out, &lit);
            proof {
                assert(out@ =~= old(out)@ + enc_result_str(view_result_chars(*r)));
            }
        },
        Err(e) => {
            let lit = str_to_chars("{\"Err\":");
            push_chars(out, &lit);
            push_str_lit(out, e);
            let lit = str_to_chars("}");
            push_chars(out, &lit);
            proof {
                assert(out@ =~= old(out)@ + enc_result_str(view_result_chars(*r)));
            }
        },
    }
}

/// Appends a match-information-or-error result.
fn push_result_mi(out: &mut Vec<char>, r: &Result<MatchInfo, Vec<char>>)
    ensures
        final(out)@ == old(out)@ + enc_result_mi(view_result_mi(*r)),
{
    match r {
        Ok(v) => {
            let lit = str_to_chars("{\"Ok\":");
            push_chars(out, &lit);
            push_match_info(out, v);
            let lit = str_to_chars("}");
            push_chars(out, &lit);
            proof {
                assert(out@ =~= old(out)@ + enc_result_mi(view_result_mi(*r)));
            }
        },
        Err(e) => {
            let lit = str_to_chars("{\"Err\":");
            push_chars(out, &lit);
            push_str_lit(out, e);
            let lit = str_to_chars("}");
            push_chars(out, &lit);
            proof {
                assert(out@ =~= old(out)@ + enc_result_mi(view_result_mi(*r)));
            }
        },
    }
}

/// Appends a record-or-error result.
fn push_result_md(out: &mut Vec<char>, r: &Result<crate::archive::MatchData, crate::archive::DatabaseError>)
    ensures
        final(out)@ == old(out)@ + enc_result_md(view_result_md(*r)),
{
    match r {
        Ok(v) => {
            let lit = str_to_chars("{\"Ok\":");
            push_chars(out, &lit);
            let body = v.forge();
            push_chars(out, &body);
            let lit = str_to_chars("}");
            push_chars(out, &lit);
            proof {
                assert(out@ =~= old(out)@ + enc_result_md(view_result_md(*r)));
            }
        },
        Err(e) => {
            let lit = str_to_chars("{\"Err\":");
            push_chars(out, &lit);
            let name = match e {
                crate::archive::DatabaseError::FileNotFound => str_to_chars("\"FileNotFound\""),
                crate::archive::DatabaseError::UnableToDeserialize => str_to_chars("\"UnableToDeserialize\""),
                crate::archive::DatabaseError::InvalidID => str_to_chars("\"InvalidID\""),
            };
            push_chars(out, &name);
            let lit = str_to_chars("}");
            push_chars(out, &lit);
            proof {
                assert(out@ =~= old(out)@ + enc_result_md(view_result_md(*r)));
            }
        },
    }
}

/// Parses a string-or-error result at index `i`.
fn parse_result_str(s: &Vec<char>, i: usize) -> (r: Option<(Result<Vec<char>, Vec<char>>, usize)>)
    requires
        i <= s@.len(),
    ensures
        match r {
            Some((v, j)) => {
                &&& i <= j <= s@.len()
                &&& dec_result_str(s@.skip(i as int)) == Some((view_result_chars(v), s@.skip(j as int)))
            },
            None => dec_result_str(s@.skip(i as int)) is None,
        },
{
    let lit = str_to_chars("{\"Ok\":");
    if let Some(j) = parse_lit(s, i, &lit) {
        let (v, j) = match parse_str(s, j) {
            Some(x) => x,
            None => {
                return None;
            },
        };
        let lit = str_to_chars("}");
        let j = match parse_lit(s, j, &lit) {
            Some(j) => j,
            None => {
                return None;
            },
        };
        return Some((Ok(v), j));
    }
    let lit = str_to_chars("{\"Err\":");
    if let Some(j) = parse_lit(s, i, &lit) {
        let (e, j) = match parse_str(s, j) {
            Some(x) => x,
            None => {
                return None;
            },
        };
        let lit = str_to_chars("}");
        let j = match parse_lit(s, j, &lit) {
            Some(j) => j,
            None => {
                return None;
            },
        };
        return Some((Err(e), j));
    }
    None
}

/// Parses a match-information-or-error result at index `i`.
fn parse_result_mi(s: &Vec<char>, i: usize) -> (r: Option<(Result<MatchInfo, Vec<char>>, usize)>)
    requires
        i <= s@.len(),
    ensures
        match r {
            Some((v, j)) => {
                &&& i <= j <= s@.len()
                &&& dec_result_mi(s@.skip(i as int)) == Some((view_result_mi(v), s@.skip(j as int)))
            },
            None => dec_result_mi(s@.skip(i as int)) is None,
        },
{
    let lit = str_to_chars("{\"Ok\":");
    if let Some(j) = parse_lit(s, i, &lit) {
        let (v, j) = match parse_match_info(s, j) {
            Some(x) => x,
            None => {
                return None;
            },
        };
        let lit = str_to_chars("}");
        let j = match parse_lit(s, j, &lit) {
            Some(j) => j,
            None => {
                return None;
            },
        };
        return Some((Ok(v), j));
    }
    let lit = str_to_chars("{\"Err\":");
    if let Some(j) = parse_lit(s, i, &lit) {
        let (e, j) = match parse_str(s, j) {
            Some(x) => x,
            None => {
                return None;
            },
        };
        let lit = str_to_chars("}");
        let j = match parse_lit(s, j, &lit) {
            Some(j) => j,
            None => {
                return None;
            },
        };
        return Some((Err(e), j));
    }
    None
}

/// Parses a record-or-error result at index `i`.
fn parse_result_md(s: &Vec<char>, i: usize) -> (r: Option<(Result<crate::archive::MatchData, crate::archive::DatabaseError>, usize)>)
    requires
        i <= s@.len(),
    ensures
        match r {
            Some((v, j)) => {
                &&& i <= j <= s@.len()
                &&& dec_result_md(s@.skip(i as int)) == Some((view_result_md(v), s@.skip(j as int)))
            },
            None => dec_result_md(s@.skip(i as int)) is None,
        },
{
    let lit = str_to_chars("{\"Ok\":");
    if let Some(j) = parse_lit(s, i, &lit) {
        let (v, j) = match crate::archive::MatchData::parse_part(s, j) {
            Some(x) => x,
            None => {
                return None;
            },
        };
        let lit = str_to_chars("}");
        let j = match parse_lit(s, j, &lit) {
            Some(j) => j,
            None => {
                return None;
            },
        };
        return Some((Ok(v), j));
    }
    let lit = str_to_chars("{\"Err\":");
    if let Some(j) = parse_lit(s, i, &lit) {
        let ghost sj = s@.skip(j as int);
        let lit = str_to_chars("\"FileNotFound\"");
        if let Some(j2) = parse_lit(s, j, &lit) {
            let lit = str_to_chars("}");
            let j3 = match parse_lit(s, j2, &lit) {
                Some(j3) => j3,
                None => {
                    return None;
                },
            };
            return Some((Err(crate::archive::DatabaseError::FileNotFound), j3));
        }
        let lit = str_to_chars("\"UnableToDeserialize\"");
        if let Some(j2) = parse_lit(s, j, &lit) {
            let lit = str_to_chars("}");
            let j3 = match parse_lit(s, j2, &lit) {
                Some(j3) => j3,
                None => {
                    return None;
                },
            };
            return Some((Err(crate::archive::DatabaseError::UnableToDeserialize), j3));
        }
        let lit = str_to_chars("\"InvalidID\"");
        if let Some(j2) = parse_lit(s, j, &lit) {
            let lit = str_to_chars("}");
            let j3 = match parse_lit(s, j2, &lit) {
                Some(j3) => j3,
                None => {
                    return None;
                },
            };
            return Some((Err(crate::archive::DatabaseError::InvalidID), j3));
        }
        return None;
    }
    None
}


impl Reply {
    /// Serializes the reply to its canonical JSON text.
    #[verifier::rlimit(100)]
    pub fn forge(&self) -> (r: Vec<char>)
        ensures
            r@ == enc_reply(self@),
    {
        let mut out: Vec<char> = Vec::new();
        match self {
            Reply::Handshake { magic, version } => {
                let lit = str_to_chars("{\"Handshake\":{\"magic\":");
                push_chars(&mut out, &lit);
                push_str_lit(&mut out, magic);
                let lit = str_to_chars(",\"version\":");
                push_chars(&mut out, &lit);
                push_u64(&mut out, *version);
                let lit = str_to_chars("}}");
                push_chars(&mut out, &lit);
                proof {
                    assert(out@ =~= enc_reply(self@));
                }
            },
            Reply::GameList { games } => {
                let lit = str_to_chars("{\"GameList\":{\"games\":");
                push_chars(&mut out, &lit);
                push_str_arr(&mut out, games);
                let lit = str_to_chars("}}");
                push_chars(&mut out, &lit);
                proof {
                    assert(out@ =~= enc_reply(self@));
                }
            },
            Reply::GameDescription { description } => {
                let lit = str_to_chars("{\"GameDescription\":{\"description\":");
                push_chars(&mut out, &lit);
                push_opt_str(&mut out, description);
                let lit = str_to_chars("}}");
                push_chars(&mut out, &lit);
                proof {
                    assert(out@ =~= enc_reply(self@));
                }
            },
            Reply::GameNew { id } => {
                let lit = str_to_chars("{\"GameNew\":{\"id\":");
                push_chars(&mut out, &lit);
                push_result_str(&mut out, id);
                let lit = str_to_chars("}}");
                push_chars(&mut out, &lit);
                proof {
                    assert(out@ =~= enc_reply(self@));
                }
            },
            Reply::LobbyList { info } => {
                let lit = str_to_chars("{\"LobbyList\":{\"info\":");
                push_chars(&mut out, &lit);
                push_mi_arr(&mut out, info);
                let lit = str_to_chars("}}");
                push_chars(&mut out, &lit);
                proof {
                    assert(out@ =~= enc_reply(self@));
                }
            },
            Reply::LobbySubscribed { seed } => {
                let lit = str_to_chars("{\"LobbySubscribed\":{\"seed\":");
                push_chars(&mut out, &lit);
                push_mi_arr(&mut out, seed);
                let lit = str_to_chars("}}");
                push_chars(&mut out, &lit);
                proof {
                    assert(out@ =~= enc_reply(self@));
                }
            },
            Reply::LobbyJoinedMatch { info } => {
                let lit = str_to_chars("{\"LobbyJoinedMatch\":{\"info\":");
                push_chars(&mut out, &lit);
                push_result_mi(&mut out, info);
                let lit = str_to_chars("}}");
                push_chars(&mut out, &lit);
                proof {
                    assert(out@ =~= enc_reply(self@));
                }
            },
            Reply::LobbyNew { info } => {
                let lit = str_to_chars("{\"LobbyNew\":{\"info\":");
                push_chars(&mut out, &lit);
                push_match_info(&mut out, info);
                let lit = str_to_chars("}}");
                push_chars(&mut out, &lit);
                proof {
                    assert(out@ =~= enc_reply(self@));
                }
            },
            Reply::LobbyUpdate { info } => {
                let lit = str_to_chars("{\"LobbyUpdate\":{\"info\":");
                push_chars(&mut out, &lit);
                push_match_info(&mut out, info);
                let lit = str_to_chars("}}");
                push_chars(&mut out, &lit);
                proof {
                    assert(out@ =~= enc_reply(self@));
                }
            },
            Reply::LobbyDelete { id } => {
                let lit = str_to_chars("{\"LobbyDelete\":{\"id\":");
                push_chars(&mut out, &lit);
                push_str_lit(&mut out, id);
                let lit = str_to_chars("}}");
                push_chars(&mut out, &lit);
                proof {
                    assert(out@ =~= enc_reply(self@));
                }
            },
            Reply::LobbyUnsubscribed => {
                let lit = str_to_chars("\"LobbyUnsubscribed\"");
                push_chars(&mut out, &lit);
            },
            Reply::LobbyLeavedMatch => {
                let lit = str_to_chars("\"LobbyLeavedMatch\"");
                push_chars(&mut out, &lit);
            },
            Reply::MatchStarted => {
                let lit = str_to_chars("\"MatchStarted\"");
                push_chars(&mut out, &lit);
            },
            Reply::MatchEnded => {
                let lit = str_to_chars("\"MatchEnded\"");
                push_chars(&mut out, &lit);
            },
            Reply::SpectateJoined { info } => {
                let lit = str_to_chars("{\"SpectateJoined\":{\"info\":");
                push_chars(&mut out, &lit);
                push_result_mi(&mut out, info);
                let lit = str_to_chars("}}");
                push_chars(&mut out, &lit);
                proof {
                    assert(out@ =~= enc_reply(self@));
                }
            },
            Reply::SpectateStarted => {
                let lit = str_to_chars("\"SpectateStarted\"");
                push_chars(&mut out, &lit);
            },
            Reply::SpectateSynced => {
                let lit = str_to_chars("\"SpectateSynced\"");
                push_chars(&mut out, &lit);
            },
            Reply::SpectateEnded => {
                let lit = str_to_chars("\"SpectateEnded\"");
                push_chars(&mut out, &lit);
            },
            Reply::SpectateLeaved => {
                let lit = str_to_chars("\"SpectateLeaved\"");
                push_chars(&mut out, &lit);
            },
            Reply::HistoryMatchList { ids } => {
                let lit = str_to_chars("{\"HistoryMatchList\":");
                push_chars(&mut out, &lit);
                push_str_arr(&mut out, ids);
                let lit = str_to_chars("}");
                push_chars(&mut out, &lit);
                proof {
                    assert(out@ =~= enc_reply(self@));
                }
            },
            Reply::HistoryMatch { data } => {
                let lit = str_to_chars("{\"HistoryMatch\":");
                push_chars(&mut out, &lit);
                push_result_md(&mut out, data);
                let lit = str_to_chars("}");
                push_chars(&mut out, &lit);
                proof {
                    assert(out@ =~= enc_reply(self@));
                }
            },
        }
        out
    }
}


impl Reply {
    /// Parses the canonical JSON text of a reply; the whole input
    /// must be consumed.
    #[verifier::rlimit(100)]
    pub fn parse(s: &Vec<char>) -> (r: Option<Reply>)
        ensures
            match r {
                Some(v) => dec_reply(s@) == Some(v@),
                None => dec_reply(s@) is None,
            },
    {
        proof {
            assert(s@.skip(0) =~= s@);
        }
        let n = s.len();
        let lit = str_to_chars("{\"Handshake\":{\"magic\":");
        if let Some(j) = parse_lit(s, 0, &lit) {
            let (magic, j) = match parse_str(s, j) {
                Some(x) => x,
                None => {
                    return None;
                },
            };
            let lit = str_to_chars(",\"version\":");
            let j = match parse_lit(s, j, &lit) {
                Some(j) => j,
                None => {
                    return None;
                },
            };
            let (version, j) = match parse_u64(s, j) {
                Some(x) => x,
                None => {
                    return None;
                },
            };
            let lit = str_to_chars("}}");
            let j = match parse_lit(s, j, &lit) {
                Some(j) => j,
                None => {
                    return None;
                },
            };
            if j < n {
                proof {
                    assert(s@.skip(j as int).len() > 0);
                }
                return None;
            }
            proof {
                assert(s@.skip(j as int).len() == 0);
            }
            return Some(Reply::Handshake { magic, version });
        }
        let lit = str_to_chars("{\"GameList\":{\"games\":");
        if let Some(j) = parse_lit(s, 0, &lit) {
            let (games, j) = match parse_str_arr(s, j) {
                Some(x) => x,
                None => {
                    return None;
                },
            };
            let lit = str_to_chars("}}");
            let j = match parse_lit(s, j, &lit) {
                Some(j) => j,
                None => {
                    return None;
                },
            };
            if j < n {
                proof {
                    assert(s@.skip(j as int).len() > 0);
                }
                return None;
            }
            proof {
                assert(s@.skip(j as int).len() == 0);
            }
            return Some(Reply::GameList { games });
        }
        let lit = str_to_chars("{\"GameDescription\":{\"description\":");
        if let Some(j) = parse_lit(s, 0, &lit) {
            let (description, j) = match parse_opt_str(s, j) {
                Some(x) => x,
                None => {
                    return None;
                },
            };
            let lit = str_to_chars("}}");
            let j = match parse_lit(s, j, &lit) {
                Some(j) => j,
                None => {
                    return None;
                },
            };
            if j < n {
                proof {
                    assert(s@.skip(j as int).len() > 0);
                }
                return None;
            }
            proof {
                assert(s@.skip(j as int).len() == 0);
            }
            return Some(Reply::GameDescription { description });
        }
        let lit = str_to_chars("{\"GameNew\":{\"id\":");
        if let Some(j) = parse_lit(s, 0, &lit) {
            let (id, j) = match parse_result_str(s, j) {
                Some(x) => x,
                None => {
                    return None;
                },
            };
            let lit = str_to_chars("}}");
            let j = match parse_lit(s, j, &lit) {
                Some(j) => j,
                None => {
                    return None;
                },
            };
            if j < n {
                proof {
                    assert(s@.skip(j as int).len() > 0);
                }
                return None;
            }
            proof {
                assert(s@.skip(j as int).len() == 0);
            }
            return Some(Reply::GameNew { id });
        }
        let lit = str_to_chars("{\"LobbyList\":{\"info\":");
        if let Some(j) = parse_lit(s, 0, &lit) {
            let (info, j) = match parse_mi_arr(s, j) {
                Some(x) => x,
                None => {
                    return None;
                },
            };
            let lit = str_to_chars("}}");
            let j = match parse_lit(s, j, &lit) {
                Some(j) => j,
                None => {
                    return None;
                },
            };
            if j < n {
                proof {
                    assert(s@.skip(j as int).len() > 0);
                }
                return None;
            }
            proof {
                assert(s@.skip(j as int).len() == 0);
            }
            return Some(Reply::LobbyList { info });
        }
        let lit = str_to_chars("{\"LobbySubscribed\":{\"seed\":");
        if let Some(j) = parse_lit(s, 0, &lit) {
            let (seed, j) = match parse_mi_arr(s, j) {
                Some(x) => x,
                None => {
                    return None;
                },
            };
            let lit = str_to_chars("}}");
            let j = match parse_lit(s, j, &lit) {
                Some(j) => j,
                None => {
                    return None;
                },
            };
            if j < n {
                proof {
                    assert(s@.skip(j as int).len() > 0);
                }
                return None;
            }
            proof {
                assert(s@.skip(j as int).len() == 0);
            }
            return Some(Reply::LobbySubscribed { seed });
        }
        let lit = str_to_chars("{\"LobbyJoinedMatch\":{\"info\":");
        if let Some(j) = parse_lit(s, 0, &lit) {
            let (info, j) = match parse_result_mi(s, j) {
                Some(x) => x,
                None => {
                    return None;
                },
            };
            let lit = str_to_chars("}}");
            let j = match parse_lit(s, j, &lit) {
                Some(j) => j,
                None => {
                    return None;
                },
            };
            if j < n {
                proof {
                    assert(s@.skip(j as int).len() > 0);
                }
                return None;
            }
            proof {
                assert(s@.skip(j as int).len() == 0);
            }
            return Some(Reply::LobbyJoinedMatch { info });
        }
        let lit = str_to_chars("{\"LobbyNew\":{\"info\":");
        if let Some(j) = parse_lit(s, 0, &lit) {
            let (info, j) = match parse_match_info(s, j) {
                Some(x) => x,
                None => {
                    return None;
                },
            };
            let lit = str_to_chars("}}");
            let j = match parse_lit(s, j, &lit) {
                Some(j) => j,
                None => {
                    return None;
                },
            };
            if j < n {
                proof {
                    assert(s@.skip(j as int).len() > 0);
                }
                return None;
            }
            proof {
                assert(s@.skip(j as int).len() == 0);
            }
            return Some(Reply::LobbyNew { info });
        }
        let lit = str_to_chars("{\"LobbyUpdate\":{\"info\":");
        if let Some(j) = parse_lit(s, 0, &lit) {
            let (info, j) = match parse_match_info(s, j) {
                Some(x) => x,
                None => {
                    return None;
                },
            };
            let lit = str_to_chars("}}");
            let j = match parse_lit(s, j, &lit) {
                Some(j) => j,
                None => {
                    return None;
                },
            };
            if j < n {
                proof {
                    assert(s@.skip(j as int).len() > 0);
                }
                return None;
            }
            proof {
                assert(s@.skip(j as int).len() == 0);
            }
            return Some(Reply::LobbyUpdate { info });
        }
        let lit = str_to_chars("{\"LobbyDelete\":{\"id\":");
        if let Some(j) = parse_lit(s, 0, &lit) {
            let (id, j) = match parse_str(s, j) {
                Some(x) => x,
                None => {
                    return None;
                },
            };
            let lit = str_to_chars("}}");
            let j = match parse_lit(s, j, &lit) {
                Some(j) => j,
                None => {
                    return None;
                },
            };
            if j < n {
                proof {
                    assert(s@.skip(j as int).len() > 0);
                }
                return None;
            }
            proof {
                assert(s@.skip(j as int).len() == 0);
            }
            return Some(Reply::LobbyDelete { id });
        }
        let lit = str_to_chars("\"LobbyUnsubscribed\"");
        if let Some(j) = parse_lit(s, 0, &lit) {
            if j == n {
                proof {
                    assert(s@.skip(j as int).len() == 0);
                }
                return Some(Reply::LobbyUnsubscribed);
            }
            proof {
                assert(s@.skip(j as int).len() > 0);
            }
            return None;
        }
        let lit = str_to_chars("\"LobbyLeavedMatch\"");
        if let Some(j) = parse_lit(s, 0, &lit) {
            if j == n {
                proof {
                    assert(s@.skip(j as int).len() == 0);
                }
                return Some(Reply::LobbyLeavedMatch);
            }
            proof {
                assert(s@.skip(j as int).len() > 0);
            }
            return None;
        }
        let lit = str_to_chars("\"MatchStarted\"");
        if let Some(j) = parse_lit(s, 0, &lit) {
            if j == n {
                proof {
                    assert(s@.skip(j as int).len() == 0);
                }
                return Some(Reply::MatchStarted);
            }
            proof {
                assert(s@.skip(j as int).len() > 0);
            }
            return None;
        }
        let lit = str_to_chars("\"MatchEnded\"");
        if let Some(j) = parse_lit(s, 0, &lit) {
            if j == n {
                proof {
                    assert(s@.skip(j as int).len() == 0);
                }
                return Some(Reply::MatchEnded);
            }
            proof {
                assert(s@.skip(j as int).len() > 0);
            }
            return None;
        }
        let lit = str_to_chars("{\"SpectateJoined\":{\"info\":");
        if let Some(j) = parse_lit(s, 0, &lit) {
            let (info, j) = match parse_result_mi(s, j) {
                Some(x) => x,
                None => {
                    return None;
                },
            };
            let lit = str_to_chars("}}");
            let j = match parse_lit(s, j, &lit) {
                Some(j) => j,
                None => {
                    return None;
                },
            };
            if j < n {
                proof {
                    assert(s@.skip(j as int).len() > 0);
                }
                return None;
            }
            proof {
                assert(s@.skip(j as int).len() == 0);
            }
            return Some(Reply::SpectateJoined { info });
        }
        let lit = str_to_chars("\"SpectateStarted\"");
        if let Some(j) = parse_lit(s, 0, &lit) {
            if j == n {
                proof {
                    assert(s@.skip(j as int).len() == 0);
                }
                return Some(Reply::SpectateStarted);
            }
            proof {
                assert(s@.skip(j as int).len() > 0);
            }
            return None;
        }
        let lit = str_to_chars("\"SpectateSynced\"");
        if let Some(j) = parse_lit(s, 0, &lit) {
            if j == n {
                proof {
                    assert(s@.skip(j as int).len() == 0);
                }
                return Some(Reply::SpectateSynced);
            }
            proof {
                assert(s@.skip(j as int).len() > 0);
            }
            return None;
        }
        let lit = str_to_chars("\"SpectateEnded\"");
        if let Some(j) = parse_lit(s, 0, &lit) {
            if j == n {
                proof {
                    assert(s@.skip(j as int).len() == 0);
                }
                return Some(Reply::SpectateEnded);
            }
            proof {
                assert(s@.skip(j as int).len() > 0);
            }
            return None;
        }
        let lit = str_to_chars("\"SpectateLeaved\"");
        if let Some(j) = parse_lit(s, 0, &lit) {
            if j == n {
                proof {
                    assert(s@.skip(j as int).len() == 0);
                }
                return Some(Reply::SpectateLeaved);
            }
            proof {
                assert(s@.skip(j as int).len() > 0);
            }
            return None;
        }
        let lit = str_to_chars("{\"HistoryMatchList\":");
        if let Some(j) = parse_lit(s, 0, &lit) {
            let (ids, j) = match parse_str_arr(s, j) {
                Some(x) => x,
                None => {
                    return None;
                },
            };
            let lit = str_to_chars("}");
            let j = match parse_lit(s, j, &lit) {
                Some(j) => j,
                None => {
                    return None;
                },
            };
            if j < n {
                proof {
                    assert(s@.skip(j as int).len() > 0);
                }
                return None;
            }
            proof {
                assert(s@.skip(j as int).len() == 0);
            }
            return Some(Reply::HistoryMatchList { ids });
        }
        let lit = str_to_chars("{\"HistoryMatch\":");
        if let Some(j) = parse_lit(s, 0, &lit) {
            let (data, j) = match parse_result_md(s, j) {
                Some(x) => x,
                None => {
                    return None;
                },
            };
            let lit = str_to_chars("}");
            let j = match parse_lit(s, j, &lit) {
                Some(j) => j,
                None => {
                    return None;
                },
            };
            if j < n {
                proof {
                    assert(s@.skip(j as int).len() > 0);
                }
                return None;
            }
            proof {
                assert(s@.skip(j as int).len() == 0);
            }
            return Some(Reply::HistoryMatch { data });
        }
        None
    }
}


// ---------------------------------------------------------------------
// Handshake
// ---------------------------------------------------------------------

/// Whether a received handshake is acceptable to this server: the
/// magic string and the version must both match.
pub open spec fn handshake_ok(magic: Seq<char>, version: u64) -> bool {
    magic == spec_magic() && version == VERSION
}

/// What a client concludes from the server's handshake.
#[derive(PartialEq, Eq, Structural, Clone, Copy, Debug)]
pub enum HandshakeOutcome {
    Accepted,
    VersionMismatch,
    NotColosseum,
}

/// Checks a peer's handshake against this endpoint's constants.
pub fn check_handshake(magic: &Vec<char>, version: u64) -> (r: bool)
    ensures
        r == handshake_ok(magic@, version),
{
    let m = magic_chars();
    crate::json::chars_eq(magic, &m) && version == VERSION
}

/// Classifies a peer's handshake: accepted, a version mismatch of a
/// true server, or not a server of this protocol at all.
pub fn classify_handshake(magic: &Vec<char>, version: u64) -> (r: HandshakeOutcome)
    ensures
        r == HandshakeOutcome::Accepted <==> handshake_ok(magic@, version),
        r == HandshakeOutcome::VersionMismatch <==> (magic@ == spec_magic() && version != VERSION),
        r == HandshakeOutcome::NotColosseum <==> magic@ != spec_magic(),
{
    let m = magic_chars();
    if !crate::json::chars_eq(magic, &m) {
        HandshakeOutcome::NotColosseum
    } else if version != VERSION {
        HandshakeOutcome::VersionMismatch
    } else {
        HandshakeOutcome::Accepted
    }
}

/// The handshake reply this server always sends.
pub fn handshake_reply() -> (r: Reply)
    ensures
        r@ == (SpecReply::Handshake { magic: spec_magic(), version: VERSION }),
{
    Reply::Handshake { magic: magic_chars(), version: VERSION }
}

/// The handshake request a client of this protocol sends.
pub fn handshake_request() -> (r: Request)
    ensures
        r@ == (SpecRequest::Handshake { magic: spec_magic(), version: VERSION }),
{
    Request::Handshake { magic: magic_chars(), version: VERSION }
}

/// A handshake request survives the codec unchanged.
pub proof fn lemma_handshake_request_round_trip(magic: Seq<char>, version: u64)
    ensures
        dec_request(enc_request(SpecRequest::Handshake { magic, version }))
            == Some(SpecRequest::Handshake { magic, version }),
{
    let t4 = "}}"@;
    let t3 = dec_digits(version as int) + t4;
    let t2 = ",\"version\":"@ + t3;
    let t1 = enc_str(magic) + t2;
    lemma_dec_lit("{\"Handshake\":{\"magic\":"@, t1);
    lemma_dec_enc_str(magic, t2);
    lemma_dec_lit(",\"version\":"@, t3);
    reveal_strlit("}}");
    reveal_strlit("}}");
    assert(t4[0] == '}');
    assert(!is_dec_digit('}'));
    lemma_dec_enc_u64(version, t4);
    assert(t4 =~= t4 + Seq::<char>::empty());
    lemma_dec_lit(t4, Seq::<char>::empty());
    assert((t4 + Seq::<char>::empty()).skip(t4.len() as int) =~= Seq::<char>::empty());
}

/// A handshake reply survives the codec unchanged.
pub proof fn lemma_handshake_reply_round_trip(magic: Seq<char>, version: u64)
    ensures
        dec_reply(enc_reply(SpecReply::Handshake { magic, version }))
            == Some(SpecReply::Handshake { magic, version }),
{
    let t4 = "}}"@;
    let t3 = dec_digits(version as int) + t4;
    let t2 = ",\"version\":"@ + t3;
    let t1 = enc_str(magic) + t2;
    lemma_dec_lit("{\"Handshake\":{\"magic\":"@, t1);
    lemma_dec_enc_str(magic, t2);
    lemma_dec_lit(",\"version\":"@, t3);
    reveal_strlit("}}");
    reveal_strlit("}}");
    assert(t4[0] == '}');
    assert(!is_dec_digit('}'));
    lemma_dec_enc_u64(version, t4);
    assert(t4 =~= t4 + Seq::<char>::empty());
    lemma_dec_lit(t4, Seq::<char>::empty());
    assert((t4 + Seq::<char>::empty()).skip(t4.len() as int) =~= Seq::<char>::empty());
}

/// Handshake symmetry: each endpoint parses exactly the magic and
/// version the other sent, so two endpoints agree exactly when their
/// magic strings and versions match, and the judgement is the same on
/// both sides.
pub proof fn lemma_handshake_symmetry(magic_a: Seq<char>, ver_a: u64, magic_b: Seq<char>, ver_b: u64)
    ensures
        dec_request(enc_request(SpecRequest::Handshake { magic: magic_a, version: ver_a }))
            == Some(SpecRequest::Handshake { magic: magic_a, version: ver_a }),
        dec_reply(enc_reply(SpecReply::Handshake { magic: magic_b, version: ver_b }))
            == Some(SpecReply::Handshake { magic: magic_b, version: ver_b }),
        (magic_a == magic_b && ver_a == ver_b) <==> (magic_b == magic_a && ver_b == ver_a),
        handshake_ok(magic_a, ver_a) && handshake_ok(magic_b, ver_b)
            ==> magic_a == magic_b && ver_a == ver_b,
{
    lemma_handshake_request_round_trip(magic_a, ver_a);
    lemma_handshake_reply_round_trip(magic_b, ver_b);
}


// ---------------------------------------------------------------------
// Round-trip laws for the message pieces
// ---------------------------------------------------------------------

/// Parsing inverts encoding for creation parameters.
pub proof fn lemma_dec_enc_game_params(p: GameParams, rest: Seq<char>)
    ensures
        dec_game_params(enc_game_params(p) + rest) == Some((p, rest)),
{
    reveal_strlit(",\"bots\":");
    reveal_strlit(",\"timeout\":");
    reveal_strlit("}");
    let t6 = "}"@ + rest;
    let t5 = enc_opt_secs(p.timeout_ms) + t6;
    let t4 = ",\"timeout\":"@ + t5;
    let t3 = dec_digits(p.bots as int) + t4;
    let t2 = ",\"bots\":"@ + t3;
    let t1 = enc_opt_u64(p.players) + t2;
    assert(enc_game_params(p) + rest =~= "{\"players\":"@ + t1);
    lemma_dec_lit("{\"players\":"@, t1);
    assert(t2[0] == ',');
    assert(!is_dec_digit(','));
    lemma_dec_enc_opt_u64(p.players, t2);
    lemma_dec_lit(",\"bots\":"@, t3);
    assert(t4[0] == ',');
    lemma_dec_enc_u64(p.bots, t4);
    lemma_dec_lit(",\"timeout\":"@, t5);
    assert(t6[0] == '}');
    assert(!is_dec_digit('}') && '}' != '.');
    lemma_dec_enc_opt_secs(p.timeout_ms, t6);
    lemma_dec_lit("}"@, rest);
}

/// Parsing inverts encoding for the last fields of match
/// information.
#[verifier::rlimit(100)]
proof fn lemma_dec_enc_match_info_last(m: SpecMatchInfo, rest: Seq<char>)
    ensures
        dec_match_info_last(enc_match_info_last(m) + rest, m.players, m.bots, m.timeout_ms,
            m.args, m.id, m.name, m.game, m.running, m.time, m.connected) == Some((m, rest)),
{
    reveal(enc_match_info_last);
    reveal_strlit(",\"spectators\":");
    reveal_strlit(",\"password\":");
    reveal_strlit(",\"verified\":");
    reveal_strlit("}");
    let t26 = "}"@ + rest;
    let t25 = enc_bool(m.verified) + t26;
    let t24 = ",\"verified\":"@ + t25;
    let t23 = enc_bool(m.password) + t24;
    let t22 = ",\"password\":"@ + t23;
    let t21 = dec_digits(m.spectators as int) + t22;
    let t20 = ",\"spectators\":"@ + t21;
    assert(enc_match_info_last(m) + rest =~= t20);
    lemma_dec_lit(",\"spectators\":"@, t21);
    assert(t22[0] == ',');
    assert(!is_dec_digit(','));
    lemma_dec_enc_u64(m.spectators, t22);
    lemma_dec_lit(",\"password\":"@, t23);
    lemma_dec_enc_bool(m.password, t24);
    lemma_dec_lit(",\"verified\":"@, t25);
    lemma_dec_enc_bool(m.verified, t26);
    lemma_dec_lit("}"@, rest);
}

/// Parsing inverts encoding for the trailing half of match
/// information.
#[verifier::rlimit(100)]
proof fn lemma_dec_enc_match_info_tail(m: SpecMatchInfo, rest: Seq<char>)
    ensures
        dec_match_info_tail(enc_match_info_tail(m) + rest, m.players, m.bots, m.timeout_ms,
            m.args, m.id, m.name) == Some((m, rest)),
{
    reveal(enc_match_info_tail);
    reveal_strlit(",\"game\":");
    reveal_strlit(",\"running\":");
    reveal_strlit(",\"time\":");
    reveal_strlit(",\"connected\":");
    lemma_dec_enc_match_info_last(m, rest);
    let t20 = enc_match_info_last(m) + rest;
    let t19 = enc_str_arr(m.connected) + t20;
    let t18 = ",\"connected\":"@ + t19;
    let t17 = dec_digits(m.time as int) + t18;
    let t16 = ",\"time\":"@ + t17;
    let t15 = enc_bool(m.running) + t16;
    let t14 = ",\"running\":"@ + t15;
    let t13 = enc_str(m.game) + t14;
    let t12 = ",\"game\":"@ + t13;
    assert(enc_match_info_tail(m) + rest =~= t12);
    lemma_dec_lit(",\"game\":"@, t13);
    lemma_dec_enc_str(m.game, t14);
    lemma_dec_lit(",\"running\":"@, t15);
    lemma_dec_enc_bool(m.running, t16);
    lemma_dec_lit(",\"time\":"@, t17);
    assert(t18[0] == ',');
    assert(!is_dec_digit(','));
    lemma_dec_enc_u64(m.time, t18);
    lemma_dec_lit(",\"connected\":"@, t19);
    lemma_dec_enc_str_arr(m.connected, t20);
}

/// Parsing inverts encoding for match information.
#[verifier::rlimit(100)]
pub proof fn lemma_dec_enc_match_info(m: SpecMatchInfo, rest: Seq<char>)
    ensures
        dec_match_info(enc_match_info(m) + rest) == Some((m, rest)),
        enc_match_info(m).len() >= 1,
{
    reveal(enc_match_info);
    reveal(dec_match_info);
    reveal_strlit("{\"players\":");
    reveal_strlit(",\"bots\":");
    reveal_strlit(",\"timeout\":");
    reveal_strlit(",\"args\":");
    reveal_strlit(",\"id\":");
    reveal_strlit(",\"name\":");
    lemma_dec_enc_match_info_tail(m, rest);
    let t12 = enc_match_info_tail(m) + rest;
    let t11 = enc_str(m.name) + t12;
    let t10 = ",\"name\":"@ + t11;
    let t9 = enc_str(m.id) + t10;
    let t8 = ",\"id\":"@ + t9;
    let t7 = enc_str_map(m.args) + t8;
    let t6 = ",\"args\":"@ + t7;
    let t5 = enc_secs(m.timeout_ms as int) + t6;
    let t4 = ",\"timeout\":"@ + t5;
    let t3 = dec_digits(m.bots as int) + t4;
    let t2 = ",\"bots\":"@ + t3;
    let t1 = dec_digits(m.players as int) + t2;
    let s = "{\"players\":"@ + t1;
    assert(enc_match_info(m) + rest =~= s);
    lemma_dec_lit("{\"players\":"@, t1);
    assert(t2[0] == ',');
    assert(!is_dec_digit(','));
    lemma_dec_enc_u64(m.players, t2);
    lemma_dec_lit(",\"bots\":"@, t3);
    assert(t4[0] == ',');
    lemma_dec_enc_u64(m.bots, t4);
    lemma_dec_lit(",\"timeout\":"@, t5);
    assert(t6[0] == ',' && ',' != '.');
    lemma_dec_enc_secs(m.timeout_ms, t6);
    lemma_dec_lit(",\"args\":"@, t7);
    lemma_dec_enc_str_map(m.args, t8);
    lemma_dec_lit(",\"id\":"@, t9);
    lemma_dec_enc_str(m.id, t10);
    lemma_dec_lit(",\"name\":"@, t11);
    lemma_dec_enc_str(m.name, t12);
}

proof fn lemma_dec_enc_mi_arr_tail(l: Seq<SpecMatchInfo>, acc: Seq<SpecMatchInfo>, rest: Seq<char>)
    ensures
        dec_mi_arr_tail(enc_mi_arr_items(l) + seq![']'] + rest, acc) == Some((acc + l, rest)),
    decreases l.len(),
{
    let s = enc_mi_arr_items(l) + seq![']'] + rest;
    if l.len() == 0 {
        assert(s =~= seq![']'] + rest);
        assert(s[0] == ']');
        assert(s.drop_first() =~= rest);
        assert(acc + l =~= acc);
    } else {
        let tail = enc_mi_arr_items(l.drop_first()) + seq![']'] + rest;
        assert(s =~= seq![','] + enc_match_info(l[0]) + tail);
        lemma_dec_enc_match_info(l[0], tail);
        assert(s[0] == ',');
        assert(s.drop_first() =~= enc_match_info(l[0]) + tail);
        assert(tail.len() < s.len());
        lemma_dec_enc_mi_arr_tail(l.drop_first(), acc.push(l[0]), rest);
        assert(acc.push(l[0]) + l.drop_first() =~= acc + l);
    }
}

/// Parsing inverts encoding for lists of match information.
pub proof fn lemma_dec_enc_mi_arr(l: Seq<SpecMatchInfo>, rest: Seq<char>)
    ensures
        dec_mi_arr(enc_mi_arr(l) + rest) == Some((l, rest)),
{
    let s = enc_mi_arr(l) + rest;
    if l.len() == 0 {
        assert(s[0] == '[' && s[1] == ']');
        assert(s.skip(2) =~= rest);
        assert(Seq::<SpecMatchInfo>::empty() =~= l);
    } else {
        let tail = enc_mi_arr_items(l.drop_first()) + seq![']'] + rest;
        assert(s =~= seq!['['] + enc_match_info(l[0]) + tail);
        lemma_dec_enc_match_info(l[0], tail);
        assert(s[0] == '[');
        assert(s[1] == (enc_match_info(l[0]) + tail)[0]);
        assert((enc_match_info(l[0]))[0] == '{') by {
            reveal(enc_match_info);
            reveal_strlit("{\"players\":");
        }
        assert(s[1] != ']');
        assert(s.drop_first() =~= enc_match_info(l[0]) + tail);
        assert(tail.len() < s.len());
        lemma_dec_enc_mi_arr_tail(l.drop_first(), seq![l[0]], rest);
        assert(seq![l[0]] + l.drop_first() =~= l);
    }
}

/// Parsing inverts encoding for string-or-error results.
pub proof fn lemma_dec_enc_result_str(v: Result<Seq<char>, Seq<char>>, rest: Seq<char>)
    ensures
        dec_result_str(enc_result_str(v) + rest) == Some((v, rest)),
{
    reveal_strlit("{\"Ok\":");
    reveal_strlit("{\"Err\":");
    reveal_strlit("}");
    match v {
        Ok(x) => {
            let t2 = "}"@ + rest;
            let t1 = enc_str(x) + t2;
            let s = "{\"Ok\":"@ + t1;
            assert(enc_result_str(v) + rest =~= s);
            lemma_dec_lit("{\"Ok\":"@, t1);
            lemma_dec_enc_str(x, t2);
            lemma_dec_lit("}"@, rest);
        },
        Err(e) => {
            let t2 = "}"@ + rest;
            let t1 = enc_str(e) + t2;
            let s = "{\"Err\":"@ + t1;
            assert(enc_result_str(v) + rest =~= s);
            assert(s[2] == 'E');
            lemma_lit_no_match(s, "{\"Ok\":"@, 2);
            lemma_dec_lit("{\"Err\":"@, t1);
            lemma_dec_enc_str(e, t2);
            lemma_dec_lit("}"@, rest);
        },
    }
}

/// Parsing inverts encoding for match-information-or-error results.
pub proof fn lemma_dec_enc_result_mi(v: Result<SpecMatchInfo, Seq<char>>, rest: Seq<char>)
    ensures
        dec_result_mi(enc_result_mi(v) + rest) == Some((v, rest)),
{
    reveal_strlit("{\"Ok\":");
    reveal_strlit("{\"Err\":");
    reveal_strlit("}");
    match v {
        Ok(x) => {
            let t2 = "}"@ + rest;
            let t1 = enc_match_info(x) + t2;
            let s = "{\"Ok\":"@ + t1;
            assert(enc_result_mi(v) + rest =~= s);
            lemma_dec_lit("{\"Ok\":"@, t1);
            lemma_dec_enc_match_info(x, t2);
            lemma_dec_lit("}"@, rest);
        },
        Err(e) => {
            let t2 = "}"@ + rest;
            let t1 = enc_str(e) + t2;
            let s = "{\"Err\":"@ + t1;
            assert(enc_result_mi(v) + rest =~= s);
            assert(s[2] == 'E');
            lemma_lit_no_match(s, "{\"Ok\":"@, 2);
            lemma_dec_lit("{\"Err\":"@, t1);
            lemma_dec_enc_str(e, t2);
            lemma_dec_lit("}"@, rest);
        },
    }
}

/// Parsing inverts encoding for persistence errors.
pub proof fn lemma_dec_enc_db_err(e: crate::archive::DatabaseError, rest: Seq<char>)
    ensures
        dec_db_err(enc_db_err(e) + rest) == Some((e, rest)),
{
    reveal_strlit("\"FileNotFound\"");
    reveal_strlit("\"UnableToDeserialize\"");
    reveal_strlit("\"InvalidID\"");
    let s = enc_db_err(e) + rest;
    match e {
        crate::archive::DatabaseError::FileNotFound => {
            lemma_dec_lit("\"FileNotFound\""@, rest);
        },
        crate::archive::DatabaseError::UnableToDeserialize => {
            assert(s[1] == 'U');
            lemma_lit_no_match(s, "\"FileNotFound\""@, 1);
            lemma_dec_lit("\"UnableToDeserialize\""@, rest);
        },
        crate::archive::DatabaseError::InvalidID => {
            assert(s[1] == 'I');
            lemma_lit_no_match(s, "\"FileNotFound\""@, 1);
            lemma_lit_no_match(s, "\"UnableToDeserialize\""@, 1);
            lemma_dec_lit("\"InvalidID\""@, rest);
        },
    }
}

/// Parsing inverts encoding for record-or-error results.
pub proof fn lemma_dec_enc_result_md(
    v: Result<crate::archive::SpecMatchData, crate::archive::DatabaseError>,
    rest: Seq<char>,
)
    ensures
        dec_result_md(enc_result_md(v) + rest) == Some((v, rest)),
{
    reveal_strlit("{\"Ok\":");
    reveal_strlit("{\"Err\":");
    reveal_strlit("}");
    match v {
        Ok(x) => {
            let t2 = "}"@ + rest;
            let t1 = crate::archive::enc_match_data(x) + t2;
            let s = "{\"Ok\":"@ + t1;
            assert(enc_result_md(v) + rest =~= s);
            lemma_dec_lit("{\"Ok\":"@, t1);
            crate::archive::lemma_dec_enc_match_data_part(x, t2);
            lemma_dec_lit("}"@, rest);
        },
        Err(e) => {
            let t2 = "}"@ + rest;
            let t1 = enc_db_err(e) + t2;
            let s = "{\"Err\":"@ + t1;
            assert(enc_result_md(v) + rest =~= s);
            assert(s[2] == 'E');
            lemma_lit_no_match(s, "{\"Ok\":"@, 2);
            lemma_dec_lit("{\"Err\":"@, t1);
            lemma_dec_enc_db_err(e, t2);
            lemma_dec_lit("}"@, rest);
        },
    }
}


// ---------------------------------------------------------------------
// Round-trip laws for whole messages
// ---------------------------------------------------------------------

#[verifier::rlimit(100)]
proof fn lemma_req_rt_handshake(magic: Seq<char>, version: u64)
    ensures
        dec_request(enc_request(SpecRequest::Handshake { magic, version })) == Some(SpecRequest::Handshake { magic, version }),
{
    let r = SpecRequest::Handshake { magic, version };
    reveal_strlit("{\"Handshake\":{\"magic\":");
    let e = Seq::<char>::empty();
    let t4 = "}}"@ + e;
    let t3 = dec_digits(version as int) + t4;
    let t2 = ",\"version\":"@ + t3;
    let t1 = enc_str(magic) + t2;
    let s = "{\"Handshake\":{\"magic\":"@ + t1;
    assert(enc_request(r) =~= s);
    lemma_dec_lit("{\"Handshake\":{\"magic\":"@, t1);
    lemma_dec_enc_str(magic, t2);
    lemma_dec_lit(",\"version\":"@, t3);
    reveal_strlit("}}");
    assert(t4[0] == '}');
    assert(!is_dec_digit('}'));
    lemma_dec_enc_u64(version, t4);
    assert(t4 =~= "}}"@ + Seq::<char>::empty());
    lemma_dec_lit("}}"@, Seq::<char>::empty());
    assert(("}}"@ + Seq::<char>::empty()).skip("}}"@.len() as int) =~= Seq::<char>::empty());
}

#[verifier::rlimit(100)]
proof fn lemma_req_rt_game_list()
    ensures
        dec_request(enc_request(SpecRequest::GameList)) == Some(SpecRequest::GameList),
{
    let r = SpecRequest::GameList;
    reveal_strlit("\"GameList\"");
    let s = "\"GameList\""@;
    reveal_strlit("{\"Handshake\":{\"magic\":");
    assert(s[0] == '"');
    lemma_lit_no_match(s, "{\"Handshake\":{\"magic\":"@, 0);
    assert(s =~= "\"GameList\""@ + Seq::<char>::empty());
    lemma_dec_lit("\"GameList\""@, Seq::<char>::empty());
}

#[verifier::rlimit(100)]
proof fn lemma_req_rt_game_description(name: Seq<char>)
    ensures
        dec_request(enc_request(SpecRequest::GameDescription { name })) == Some(SpecRequest::GameDescription { name }),
{
    let r = SpecRequest::GameDescription { name };
    reveal_strlit("{\"GameDescription\":{\"name\":");
    let e = Seq::<char>::empty();
    let t2 = "}}"@ + e;
    let t1 = enc_str(name) + t2;
    let s = "{\"GameDescription\":{\"name\":"@ + t1;
    assert(enc_request(r) =~= s);
    reveal_strlit("{\"Handshake\":{\"magic\":");
    assert(s[2] == 'G');
    lemma_lit_no_match(s, "{\"Handshake\":{\"magic\":"@, 2);
    reveal_strlit("\"GameList\"");
    assert(s[0] == '{');
    lemma_lit_no_match(s, "\"GameList\""@, 0);
    lemma_dec_lit("{\"GameDescription\":{\"name\":"@, t1);
    lemma_dec_enc_str(name, t2);
    assert(t2 =~= "}}"@ + Seq::<char>::empty());
    lemma_dec_lit("}}"@, Seq::<char>::empty());
    assert(("}}"@ + Seq::<char>::empty()).skip("}}"@.len() as int) =~= Seq::<char>::empty());
}

#[verifier::rlimit(100)]
proof fn lemma_req_rt_game_new(name: Seq<char>, game: Seq<char>, params: GameParams, args: Seq<(Seq<char>, Seq<char>)>, password: Option<Seq<char>>, verification: Option<Seq<char>>)
    ensures
        dec_request(enc_request(SpecRequest::GameNew { name, game, params, args, password, verification })) == Some(SpecRequest::GameNew { name, game, params, args, password, verification }),
{
    let r = SpecRequest::GameNew { name, game, params, args, password, verification };
    reveal_strlit("{\"GameNew\":{\"name\":");
    let e = Seq::<char>::empty();
    let t12 = "}}"@ + e;
    let t11 = enc_opt_str(verification) + t12;
    let t10 = ",\"verification\":"@ + t11;
    let t9 = enc_opt_str(password) + t10;
    let t8 = ",\"password\":"@ + t9;
    let t7 = enc_str_map(args) + t8;
    let t6 = ",\"args\":"@ + t7;
    let t5 = enc_game_params(params) + t6;
    let t4 = ",\"params\":"@ + t5;
    let t3 = enc_str(game) + t4;
    let t2 = ",\"game\":"@ + t3;
    let t1 = enc_str(name) + t2;
    let s = "{\"GameNew\":{\"name\":"@ + t1;
    assert(enc_request(r) =~= s);
    reveal_strlit("{\"Handshake\":{\"magic\":");
    assert(s[2] == 'G');
    lemma_lit_no_match(s, "{\"Handshake\":{\"magic\":"@, 2);
    reveal_strlit("\"GameList\"");
    assert(s[0] == '{');
    lemma_lit_no_match(s, "\"GameList\""@, 0);
    reveal_strlit("{\"GameDescription\":{\"name\":");
    assert(s[6] == 'N');
    lemma_lit_no_match(s, "{\"GameDescription\":{\"name\":"@, 6);
    lemma_dec_lit("{\"GameNew\":{\"name\":"@, t1);
    lemma_dec_enc_str(name, t2);
    lemma_dec_lit(",\"game\":"@, t3);
    lemma_dec_enc_str(game, t4);
    lemma_dec_lit(",\"params\":"@, t5);
    lemma_dec_enc_game_params(params, t6);
    lemma_dec_lit(",\"args\":"@, t7);
    lemma_dec_enc_str_map(args, t8);
    lemma_dec_lit(",\"password\":"@, t9);
    lemma_dec_enc_opt_str(password, t10);
    lemma_dec_lit(",\"verification\":"@, t11);
    lemma_dec_enc_opt_str(verification, t12);
    assert(t12 =~= "}}"@ + Seq::<char>::empty());
    lemma_dec_lit("}}"@, Seq::<char>::empty());
    assert(("}}"@ + Seq::<char>::empty()).skip("}}"@.len() as int) =~= Seq::<char>::empty());
}

#[verifier::rlimit(100)]
proof fn lemma_req_rt_lobby_list()
    ensures
        dec_request(enc_request(SpecRequest::LobbyList)) == Some(SpecRequest::LobbyList),
{
    let r = SpecRequest::LobbyList;
    reveal_strlit("\"LobbyList\"");
    let s = "\"LobbyList\""@;
    reveal_strlit("{\"Handshake\":{\"magic\":");
    assert(s[0] == '"');
    lemma_lit_no_match(s, "{\"Handshake\":{\"magic\":"@, 0);
    reveal_strlit("\"GameList\"");
    assert(s[1] == 'L');
    lemma_lit_no_match(s, "\"GameList\""@, 1);
    reveal_strlit("{\"GameDescription\":{\"name\":");
    assert(s[0] == '"');
    lemma_lit_no_match(s, "{\"GameDescription\":{\"name\":"@, 0);
    reveal_strlit("{\"GameNew\":{\"name\":");
    assert(s[0] == '"');
    lemma_lit_no_match(s, "{\"GameNew\":{\"name\":"@, 0);
    assert(s =~= "\"LobbyList\""@ + Seq::<char>::empty());
    lemma_dec_lit("\"LobbyList\""@, Seq::<char>::empty());
}

#[verifier::rlimit(100)]
proof fn lemma_req_rt_lobby_subscribe()
    ensures
        dec_request(enc_request(SpecRequest::LobbySubscribe)) == Some(SpecRequest::LobbySubscribe),
{
    let r = SpecRequest::LobbySubscribe;
    reveal_strlit("\"LobbySubscribe\"");
    let s = "\"LobbySubscribe\""@;
    reveal_strlit("{\"Handshake\":{\"magic\":");
    assert(s[0] == '"');
    lemma_lit_no_match(s, "{\"Handshake\":{\"magic\":"@, 0);
    reveal_strlit("\"GameList\"");
    assert(s[1] == 'L');
    lemma_lit_no_match(s, "\"GameList\""@, 1);
    reveal_strlit("{\"GameDescription\":{\"name\":");
    assert(s[0] == '"');
    lemma_lit_no_match(s, "{\"GameDescription\":{\"name\":"@, 0);
    reveal_strlit("{\"GameNew\":{\"name\":");
    assert(s[0] == '"');
    lemma_lit_no_match(s, "{\"GameNew\":{\"name\":"@, 0);
    reveal_strlit("\"LobbyList\"");
    assert(s[6] == 'S');
    lemma_lit_no_match(s, "\"LobbyList\""@, 6);
    assert(s =~= "\"LobbySubscribe\""@ + Seq::<char>::empty());
    lemma_dec_lit("\"LobbySubscribe\""@, Seq::<char>::empty());
}

#[verifier::rlimit(100)]
proof fn lemma_req_rt_lobby_unsubscribe()
    ensures
        dec_request(enc_request(SpecRequest::LobbyUnsubscribe)) == Some(SpecRequest::LobbyUnsubscribe),
{
    let r = SpecRequest::LobbyUnsubscribe;
    reveal_strlit("\"LobbyUnsubscribe\"");
    let s = "\"LobbyUnsubscribe\""@;
    reveal_strlit("{\"Handshake\":{\"magic\":");
    assert(s[0] == '"');
    lemma_lit_no_match(s, "{\"Handshake\":{\"magic\":"@, 0);
    reveal_strlit("\"GameList\"");
    assert(s[1] == 'L');
    lemma_lit_no_match(s, "\"GameList\""@, 1);
    reveal_strlit("{\"GameDescription\":{\"name\":");
    assert(s[0] == '"');
    lemma_lit_no_match(s, "{\"GameDescription\":{\"name\":"@, 0);
    reveal_strlit("{\"GameNew\":{\"name\":");
    assert(s[0] == '"');
    lemma_lit_no_match(s, "{\"GameNew\":{\"name\":"@, 0);
    reveal_strlit("\"LobbyList\"");
    assert(s[6] == 'U');
    lemma_lit_no_match(s, "\"LobbyList\""@, 6);
    reveal_strlit("\"LobbySubscribe\"");
    assert(s[6] == 'U');
    lemma_lit_no_match(s, "\"LobbySubscribe\""@, 6);
    assert(s =~= "\"LobbyUnsubscribe\""@ + Seq::<char>::empty());
    lemma_dec_lit("\"LobbyUnsubscribe\""@, Seq::<char>::empty());
}

#[verifier::rlimit(100)]
proof fn lemma_req_rt_lobby_join_match(id: Seq<char>, name: Seq<char>, password: Option<Seq<char>>)
    ensures
        dec_request(enc_request(SpecRequest::LobbyJoinMatch { id, name, password })) == Some(SpecRequest::LobbyJoinMatch { id, name, password }),
{
    let r = SpecRequest::LobbyJoinMatch { id, name, password };
    reveal_strlit("{\"LobbyJoinMatch\":{\"id\":");
    let e = Seq::<char>::empty();
    let t6 = "}}"@ + e;
    let t5 = enc_opt_str(password) + t6;
    let t4 = ",\"password\":"@ + t5;
    let t3 = enc_str(name) + t4;
    let t2 = ",\"name\":"@ + t3;
    let t1 = enc_str(id) + t2;
    let s = "{\"LobbyJoinMatch\":{\"id\":"@ + t1;
    assert(enc_request(r) =~= s);
    reveal_strlit("{\"Handshake\":{\"magic\":");
    assert(s[2] == 'L');
    lemma_lit_no_match(s, "{\"Handshake\":{\"magic\":"@, 2);
    reveal_strlit("\"GameList\"");
    assert(s[0] == '{');
    lemma_lit_no_match(s, "\"GameList\""@, 0);
    reveal_strlit("{\"GameDescription\":{\"name\":");
    assert(s[2] == 'L');
    lemma_lit_no_match(s, "{\"GameDescription\":{\"name\":"@, 2);
    reveal_strlit("{\"GameNew\":{\"name\":");
    assert(s[2] == 'L');
    lemma_lit_no_match(s, "{\"GameNew\":{\"name\":"@, 2);
    reveal_strlit("\"LobbyList\"");
    assert(s[0] == '{');
    lemma_lit_no_match(s, "\"LobbyList\""@, 0);
    reveal_strlit("\"LobbySubscribe\"");
    assert(s[0] == '{');
    lemma_lit_no_match(s, "\"LobbySubscribe\""@, 0);
    reveal_strlit("\"LobbyUnsubscribe\"");
    assert(s[0] == '{');
    lemma_lit_no_match(s, "\"LobbyUnsubscribe\""@, 0);
    lemma_dec_lit("{\"LobbyJoinMatch\":{\"id\":"@, t1);
    lemma_dec_enc_str(id, t2);
    lemma_dec_lit(",\"name\":"@, t3);
    lemma_dec_enc_str(name, t4);
    lemma_dec_lit(",\"password\":"@, t5);
    lemma_dec_enc_opt_str(password, t6);
    assert(t6 =~= "}}"@ + Seq::<char>::empty());
    lemma_dec_lit("}}"@, Seq::<char>::empty());
    assert(("}}"@ + Seq::<char>::empty()).skip("}}"@.len() as int) =~= Seq::<char>::empty());
}

#[verifier::rlimit(100)]
proof fn lemma_req_rt_lobby_leave_match()
    ensures
        dec_request(enc_request(SpecRequest::LobbyLeaveMatch)) == Some(SpecRequest::LobbyLeaveMatch),
{
    let r = SpecRequest::LobbyLeaveMatch;
    reveal_strlit("\"LobbyLeaveMatch\"");
    let s = "\"LobbyLeaveMatch\""@;
    reveal_strlit("{\"Handshake\":{\"magic\":");
    assert(s[0] == '"');
    lemma_lit_no_match(s, "{\"Handshake\":{\"magic\":"@, 0);
    reveal_strlit("\"GameList\"");
    assert(s[1] == 'L');
    lemma_lit_no_match(s, "\"GameList\""@, 1);
    reveal_strlit("{\"GameDescription\":{\"name\":");
    assert(s[0] == '"');
    lemma_lit_no_match(s, "{\"GameDescription\":{\"name\":"@, 0);
    reveal_strlit("{\"GameNew\":{\"name\":");
    assert(s[0] == '"');
    lemma_lit_no_match(s, "{\"GameNew\":{\"name\":"@, 0);
    reveal_strlit("\"LobbyList\"");
    assert(s[7] == 'e');
    lemma_lit_no_match(s, "\"LobbyList\""@, 7);
    reveal_strlit("\"LobbySubscribe\"");
    assert(s[6] == 'L');
    lemma_lit_no_match(s, "\"LobbySubscribe\""@, 6);
    reveal_strlit("\"LobbyUnsubscribe\"");
    assert(s[6] == 'L');
    lemma_lit_no_match(s, "\"LobbyUnsubscribe\""@, 6);
    reveal_strlit("{\"LobbyJoinMatch\":{\"id\":");
    assert(s[0] == '"');
    lemma_lit_no_match(s, "{\"LobbyJoinMatch\":{\"id\":"@, 0);
    assert(s =~= "\"LobbyLeaveMatch\""@ + Seq::<char>::empty());
    lemma_dec_lit("\"LobbyLeaveMatch\""@, Seq::<char>::empty());
}

#[verifier::rlimit(100)]
proof fn lemma_req_rt_spectate_join(id: Seq<char>)
    ensures
        dec_request(enc_request(SpecRequest::SpectateJoin { id })) == Some(SpecRequest::SpectateJoin { id }),
{
    let r = SpecRequest::SpectateJoin { id };
    reveal_strlit("{\"SpectateJoin\":{\"id\":");
    let e = Seq::<char>::empty();
    let t2 = "}}"@ + e;
    let t1 = enc_str(id) + t2;
    let s = "{\"SpectateJoin\":{\"id\":"@ + t1;
    assert(enc_request(r) =~= s);
    reveal_strlit("{\"Handshake\":{\"magic\":");
    assert(s[2] == 'S');
    lemma_lit_no_match(s, "{\"Handshake\":{\"magic\":"@, 2);
    reveal_strlit("\"GameList\"");
    assert(s[0] == '{');
    lemma_lit_no_match(s, "\"GameList\""@, 0);
    reveal_strlit("{\"GameDescription\":{\"name\":");
    assert(s[2] == 'S');
    lemma_lit_no_match(s, "{\"GameDescription\":{\"name\":"@, 2);
    reveal_strlit("{\"GameNew\":{\"name\":");
    assert(s[2] == 'S');
    lemma_lit_no_match(s, "{\"GameNew\":{\"name\":"@, 2);
    reveal_strlit("\"LobbyList\"");
    assert(s[0] == '{');
    lemma_lit_no_match(s, "\"LobbyList\""@, 0);
    reveal_strlit("\"LobbySubscribe\"");
    assert(s[0] == '{');
    lemma_lit_no_match(s, "\"LobbySubscribe\""@, 0);
    reveal_strlit("\"LobbyUnsubscribe\"");
    assert(s[0] == '{');
    lemma_lit_no_match(s, "\"LobbyUnsubscribe\""@, 0);
    reveal_strlit("{\"LobbyJoinMatch\":{\"id\":");
    assert(s[2] == 'S');
    lemma_lit_no_match(s, "{\"LobbyJoinMatch\":{\"id\":"@, 2);
    reveal_strlit("\"LobbyLeaveMatch\"");
    assert(s[0] == '{');
    lemma_lit_no_match(s, "\"LobbyLeaveMatch\""@, 0);
    lemma_dec_lit("{\"SpectateJoin\":{\"id\":"@, t1);
    lemma_dec_enc_str(id, t2);
    assert(t2 =~= "}}"@ + Seq::<char>::empty());
    lemma_dec_lit("}}"@, Seq::<char>::empty());
    assert(("}}"@ + Seq::<char>::empty()).skip("}}"@.len() as int) =~= Seq::<char>::empty());
}

#[verifier::rlimit(100)]
proof fn lemma_req_rt_spectate_leave()
    ensures
        dec_request(enc_request(SpecRequest::SpectateLeave)) == Some(SpecRequest::SpectateLeave),
{
    let r = SpecRequest::SpectateLeave;
    reveal_strlit("\"SpectateLeave\"");
    let s = "\"SpectateLeave\""@;
    reveal_strlit("{\"Handshake\":{\"magic\":");
    assert(s[0] == '"');
    lemma_lit_no_match(s, "{\"Handshake\":{\"magic\":"@, 0);
    reveal_strlit("\"GameList\"");
    assert(s[1] == 'S');
    lemma_lit_no_match(s, "\"GameList\""@, 1);
    reveal_strlit("{\"GameDescription\":{\"name\":");
    assert(s[0] == '"');
    lemma_lit_no_match(s, "{\"GameDescription\":{\"name\":"@, 0);
    reveal_strlit("{\"GameNew\":{\"name\":");
    assert(s[0] == '"');
    lemma_lit_no_match(s, "{\"GameNew\":{\"name\":"@, 0);
    reveal_strlit("\"LobbyList\"");
    assert(s[1] == 'S');
    lemma_lit_no_match(s, "\"LobbyList\""@, 1);
    reveal_strlit("\"LobbySubscribe\"");
    assert(s[1] == 'S');
    lemma_lit_no_match(s, "\"LobbySubscribe\""@, 1);
    reveal_strlit("\"LobbyUnsubscribe\"");
    assert(s[1] == 'S');
    lemma_lit_no_match(s, "\"LobbyUnsubscribe\""@, 1);
    reveal_strlit("{\"LobbyJoinMatch\":{\"id\":");
    assert(s[0] == '"');
    lemma_lit_no_match(s, "{\"LobbyJoinMatch\":{\"id\":"@, 0);
    reveal_strlit("\"LobbyLeaveMatch\"");
    assert(s[1] == 'S');
    lemma_lit_no_match(s, "\"LobbyLeaveMatch\""@, 1);
    reveal_strlit("{\"SpectateJoin\":{\"id\":");
    assert(s[0] == '"');
    lemma_lit_no_match(s, "{\"SpectateJoin\":{\"id\":"@, 0);
    assert(s =~= "\"SpectateLeave\""@ + Seq::<char>::empty());
    lemma_dec_lit("\"SpectateLeave\""@, Seq::<char>::empty());
}

#[verifier::rlimit(100)]
proof fn lemma_req_rt_history_match_list()
    ensures
        dec_request(enc_request(SpecRequest::HistoryMatchList)) == Some(SpecRequest::HistoryMatchList),
{
    let r = SpecRequest::HistoryMatchList;
    reveal_strlit("\"HistoryMatchList\"");
    let s = "\"HistoryMatchList\""@;
    reveal_strlit("{\"Handshake\":{\"magic\":");
    assert(s[0] == '"');
    lemma_lit_no_match(s, "{\"Handshake\":{\"magic\":"@, 0);
    reveal_strlit("\"GameList\"");
    assert(s[1] == 'H');
    lemma_lit_no_match(s, "\"GameList\""@, 1);
    reveal_strlit("{\"GameDescription\":{\"name\":");
    assert(s[0] == '"');
    lemma_lit_no_match(s, "{\"GameDescription\":{\"name\":"@, 0);
    reveal_strlit("{\"GameNew\":{\"name\":");
    assert(s[0] == '"');
    lemma_lit_no_match(s, "{\"GameNew\":{\"name\":"@, 0);
    reveal_strlit("\"LobbyList\"");
    assert(s[1] == 'H');
    lemma_lit_no_match(s, "\"LobbyList\""@, 1);
    reveal_strlit("\"LobbySubscribe\"");
    assert(s[1] == 'H');
    lemma_lit_no_match(s, "\"LobbySubscribe\""@, 1);
    reveal_strlit("\"LobbyUnsubscribe\"");
    assert(s[1] == 'H');
    lemma_lit_no_match(s, "\"LobbyUnsubscribe\""@, 1);
    reveal_strlit("{\"LobbyJoinMatch\":{\"id\":");
    assert(s[0] == '"');
    lemma_lit_no_match(s, "{\"LobbyJoinMatch\":{\"id\":"@, 0);
    reveal_strlit("\"LobbyLeaveMatch\"");
    assert(s[1] == 'H');
    lemma_lit_no_match(s, "\"LobbyLeaveMatch\""@, 1);
    reveal_strlit("{\"SpectateJoin\":{\"id\":");
    assert(s[0] == '"');
    lemma_lit_no_match(s, "{\"SpectateJoin\":{\"id\":"@, 0);
    reveal_strlit("\"SpectateLeave\"");
    assert(s[1] == 'H');
    lemma_lit_no_match(s, "\"SpectateLeave\""@, 1);
    assert(s =~= "\"HistoryMatchList\""@ + Seq::<char>::empty());
    lemma_dec_lit("\"HistoryMatchList\""@, Seq::<char>::empty());
}

#[verifier::rlimit(100)]
proof fn lemma_req_rt_history_match(id: Seq<char>)
    ensures
        dec_request(enc_request(SpecRequest::HistoryMatch { id })) == Some(SpecRequest::HistoryMatch { id }),
{
    let r = SpecRequest::HistoryMatch { id };
    reveal_strlit("{\"HistoryMatch\":{\"id\":");
    let e = Seq::<char>::empty();
    let t2 = "}}"@ + e;
    let t1 = enc_str(id) + t2;
    let s = "{\"HistoryMatch\":{\"id\":"@ + t1;
    assert(enc_request(r) =~= s);
    reveal_strlit("{\"Handshake\":{\"magic\":");
    assert(s[3] == 'i');
    lemma_lit_no_match(s, "{\"Handshake\":{\"magic\":"@, 3);
    reveal_strlit("\"GameList\"");
    assert(s[0] == '{');
    lemma_lit_no_match(s, "\"GameList\""@, 0);
    reveal_strlit("{\"GameDescription\":{\"name\":");
    assert(s[2] == 'H');
    lemma_lit_no_match(s, "{\"GameDescription\":{\"name\":"@, 2);
    reveal_strlit("{\"GameNew\":{\"name\":");
    assert(s[2] == 'H');
    lemma_lit_no_match(s, "{\"GameNew\":{\"name\":"@, 2);
    reveal_strlit("\"LobbyList\"");
    assert(s[0] == '{');
    lemma_lit_no_match(s, "\"LobbyList\""@, 0);
    reveal_strlit("\"LobbySubscribe\"");
    assert(s[0] == '{');
    lemma_lit_no_match(s, "\"LobbySubscribe\""@, 0);
    reveal_strlit("\"LobbyUnsubscribe\"");
    assert(s[0] == '{');
    lemma_lit_no_match(s, "\"LobbyUnsubscribe\""@, 0);
    reveal_strlit("{\"LobbyJoinMatch\":{\"id\":");
    assert(s[2] == 'H');
    lemma_lit_no_match(s, "{\"LobbyJoinMatch\":{\"id\":"@, 2);
    reveal_strlit("\"LobbyLeaveMatch\"");
    assert(s[0] == '{');
    lemma_lit_no_match(s, "\"LobbyLeaveMatch\""@, 0);
    reveal_strlit("{\"SpectateJoin\":{\"id\":");
    assert(s[2] == 'H');
    lemma_lit_no_match(s, "{\"SpectateJoin\":{\"id\":"@, 2);
    reveal_strlit("\"SpectateLeave\"");
    assert(s[0] == '{');
    lemma_lit_no_match(s, "\"SpectateLeave\""@, 0);
    reveal_strlit("\"HistoryMatchList\"");
    assert(s[0] == '{');
    lemma_lit_no_match(s, "\"HistoryMatchList\""@, 0);
    lemma_dec_lit("{\"HistoryMatch\":{\"id\":"@, t1);
    lemma_dec_enc_str(id, t2);
    assert(t2 =~= "}}"@ + Seq::<char>::empty());
    lemma_dec_lit("}}"@, Seq::<char>::empty());
    assert(("}}"@ + Seq::<char>::empty()).skip("}}"@.len() as int) =~= Seq::<char>::empty());
}

/// Round trip: every request survives the codec unchanged.
pub proof fn lemma_request_round_trip(r: SpecRequest)
    ensures
        dec_request(enc_request(r)) == Some(r),
{
    match r {
        SpecRequest::Handshake { magic, version } => lemma_req_rt_handshake(magic, version),
        SpecRequest::GameList => lemma_req_rt_game_list(),
        SpecRequest::GameDescription { name } => lemma_req_rt_game_description(name),
        SpecRequest::GameNew { name, game, params, args, password, verification } => lemma_req_rt_game_new(name, game, params, args, password, verification),
        SpecRequest::LobbyList => lemma_req_rt_lobby_list(),
        SpecRequest::LobbySubscribe => lemma_req_rt_lobby_subscribe(),
        SpecRequest::LobbyUnsubscribe => lemma_req_rt_lobby_unsubscribe(),
        SpecRequest::LobbyJoinMatch { id, name, password } => lemma_req_rt_lobby_join_match(id, name, password),
        SpecRequest::LobbyLeaveMatch => lemma_req_rt_lobby_leave_match(),
        SpecRequest::SpectateJoin { id } => lemma_req_rt_spectate_join(id),
        SpecRequest::SpectateLeave => lemma_req_rt_spectate_leave(),
        SpecRequest::HistoryMatchList => lemma_req_rt_history_match_list(),
        SpecRequest::HistoryMatch { id } => lemma_req_rt_history_match(id),
    }
}

#[verifier::rlimit(100)]
proof fn lemma_rep_rt_handshake(magic: Seq<char>, version: u64)
    ensures
        dec_reply(enc_reply(SpecReply::Handshake { magic, version })) == Some(SpecReply::Handshake { magic, version }),
{
    let r = SpecReply::Handshake { magic, version };
    reveal_strlit("{\"Handshake\":{\"magic\":");
    let e = Seq::<char>::empty();
    let t4 = "}}"@ + e;
    let t3 = dec_digits(version as int) + t4;
    let t2 = ",\"version\":"@ + t3;
    let t1 = enc_str(magic) + t2;
    let s = "{\"Handshake\":{\"magic\":"@ + t1;
    assert(enc_reply(r) =~= s);
    lemma_dec_lit("{\"Handshake\":{\"magic\":"@, t1);
    lemma_dec_enc_str(magic, t2);
    lemma_dec_lit(",\"version\":"@, t3);
    reveal_strlit("}}");
    assert(t4[0] == '}');
    assert(!is_dec_digit('}'));
    lemma_dec_enc_u64(version, t4);
    assert(t4 =~= "}}"@ + Seq::<char>::empty());
    lemma_dec_lit("}}"@, Seq::<char>::empty());
    assert(("}}"@ + Seq::<char>::empty()).skip("}}"@.len() as int) =~= Seq::<char>::empty());
}

#[verifier::rlimit(100)]
proof fn lemma_rep_rt_game_list(games: Seq<Seq<char>>)
    ensures
        dec_reply(enc_reply(SpecReply::GameList { games })) == Some(SpecReply::GameList { games }),
{
    let r = SpecReply::GameList { games };
    reveal_strlit("{\"GameList\":{\"games\":");
    let e = Seq::<char>::empty();
    let t2 = "}}"@ + e;
    let t1 = enc_str_arr(games) + t2;
    let s = "{\"GameList\":{\"games\":"@ + t1;
    assert(enc_reply(r) =~= s);
    reveal_strlit("{\"Handshake\":{\"magic\":");
    assert(s[2] == 'G');
    lemma_lit_no_match(s, "{\"Handshake\":{\"magic\":"@, 2);
    lemma_dec_lit("{\"GameList\":{\"games\":"@, t1);
    lemma_dec_enc_str_arr(games, t2);
    assert(t2 =~= "}}"@ + Seq::<char>::empty());
    lemma_dec_lit("}}"@, Seq::<char>::empty());
    assert(("}}"@ + Seq::<char>::empty()).skip("}}"@.len() as int) =~= Seq::<char>::empty());
}

#[verifier::rlimit(100)]
proof fn lemma_rep_rt_game_description(description: Option<Seq<char>>)
    ensures
        dec_reply(enc_reply(SpecReply::GameDescription { description })) == Some(SpecReply::GameDescription { description }),
{
    let r = SpecReply::GameDescription { description };
    reveal_strlit("{\"GameDescription\":{\"description\":");
    let e = Seq::<char>::empty();
    let t2 = "}}"@ + e;
    let t1 = enc_opt_str(description) + t2;
    let s = "{\"GameDescription\":{\"description\":"@ + t1;
    assert(enc_reply(r) =~= s);
    reveal_strlit("{\"Handshake\":{\"magic\":");
    assert(s[2] == 'G');
    lemma_lit_no_match(s, "{\"Handshake\":{\"magic\":"@, 2);
    reveal_strlit("{\"GameList\":{\"games\":");
    assert(s[6] == 'D');
    lemma_lit_no_match(s, "{\"GameList\":{\"games\":"@, 6);
    lemma_dec_lit("{\"GameDescription\":{\"description\":"@, t1);
    lemma_dec_enc_opt_str(description, t2);
    assert(t2 =~= "}}"@ + Seq::<char>::empty());
    lemma_dec_lit("}}"@, Seq::<char>::empty());
    assert(("}}"@ + Seq::<char>::empty()).skip("}}"@.len() as int) =~= Seq::<char>::empty());
}

#[verifier::rlimit(100)]
proof fn lemma_rep_rt_game_new(id: Result<Seq<char>, Seq<char>>)
    ensures
        dec_reply(enc_reply(SpecReply::GameNew { id })) == Some(SpecReply::GameNew { id }),
{
    let r = SpecReply::GameNew { id };
    reveal_strlit("{\"GameNew\":{\"id\":");
    let e = Seq::<char>::empty();
    let t2 = "}}"@ + e;
    let t1 = enc_result_str(id) + t2;
    let s = "{\"GameNew\":{\"id\":"@ + t1;
    assert(enc_reply(r) =~= s);
    reveal_strlit("{\"Handshake\":{\"magic\":");
    assert(s[2] == 'G');
    lemma_lit_no_match(s, "{\"Handshake\":{\"magic\":"@, 2);
    reveal_strlit("{\"GameList\":{\"games\":");
    assert(s[6] == 'N');
    lemma_lit_no_match(s, "{\"GameList\":{\"games\":"@, 6);
    reveal_strlit("{\"GameDescription\":{\"description\":");
    assert(s[6] == 'N');
    lemma_lit_no_match(s, "{\"GameDescription\":{\"description\":"@, 6);
    lemma_dec_lit("{\"GameNew\":{\"id\":"@, t1);
    lemma_dec_enc_result_str(id, t2);
    assert(t2 =~= "}}"@ + Seq::<char>::empty());
    lemma_dec_lit("}}"@, Seq::<char>::empty());
    assert(("}}"@ + Seq::<char>::empty()).skip("}}"@.len() as int) =~= Seq::<char>::empty());
}

#[verifier::rlimit(100)]
proof fn lemma_rep_rt_lobby_list(info: Seq<SpecMatchInfo>)
    ensures
        dec_reply(enc_reply(SpecReply::LobbyList { info })) == Some(SpecReply::LobbyList { info }),
{
    let r = SpecReply::LobbyList { info };
    reveal_strlit("{\"LobbyList\":{\"info\":");
    let e = Seq::<char>::empty();
    let t2 = "}}"@ + e;
    let t1 = enc_mi_arr(info) + t2;
    let s = "{\"LobbyList\":{\"info\":"@ + t1;
    assert(enc_reply(r) =~= s);
    reveal_strlit("{\"Handshake\":{\"magic\":");
    assert(s[2] == 'L');
    lemma_lit_no_match(s, "{\"Handshake\":{\"magic\":"@, 2);
    reveal_strlit("{\"GameList\":{\"games\":");
    assert(s[2] == 'L');
    lemma_lit_no_match(s, "{\"GameList\":{\"games\":"@, 2);
    reveal_strlit("{\"GameDescription\":{\"description\":");
    assert(s[2] == 'L');
    lemma_lit_no_match(s, "{\"GameDescription\":{\"description\":"@, 2);
    reveal_strlit("{\"GameNew\":{\"id\":");
    assert(s[2] == 'L');
    lemma_lit_no_match(s, "{\"GameNew\":{\"id\":"@, 2);
    lemma_dec_lit("{\"LobbyList\":{\"info\":"@, t1);
    lemma_dec_enc_mi_arr(info, t2);
    assert(t2 =~= "}}"@ + Seq::<char>::empty());
    lemma_dec_lit("}}"@, Seq::<char>::empty());
    assert(("}}"@ + Seq::<char>::empty()).skip("}}"@.len() as int) =~= Seq::<char>::empty());
}

#[verifier::rlimit(100)]
proof fn lemma_rep_rt_lobby_subscribed(seed: Seq<SpecMatchInfo>)
    ensures
        dec_reply(enc_reply(SpecReply::LobbySubscribed { seed })) == Some(SpecReply::LobbySubscribed { seed }),
{
    let r = SpecReply::LobbySubscribed { seed };
    reveal_strlit("{\"LobbySubscribed\":{\"seed\":");
    let e = Seq::<char>::empty();
    let t2 = "}}"@ + e;
    let t1 = enc_mi_arr(seed) + t2;
    let s = "{\"LobbySubscribed\":{\"seed\":"@ + t1;
    assert(enc_reply(r) =~= s);
    reveal_strlit("{\"Handshake\":{\"magic\":");
    assert(s[2] == 'L');
    lemma_lit_no_match(s, "{\"Handshake\":{\"magic\":"@, 2);
    reveal_strlit("{\"GameList\":{\"games\":");
    assert(s[2] == 'L');
    lemma_lit_no_match(s, "{\"GameList\":{\"games\":"@, 2);
    reveal_strlit("{\"GameDescription\":{\"description\":");
    assert(s[2] == 'L');
    lemma_lit_no_match(s, "{\"GameDescription\":{\"description\":"@, 2);
    reveal_strlit("{\"GameNew\":{\"id\":");
    assert(s[2] == 'L');
    lemma_lit_no_match(s, "{\"GameNew\":{\"id\":"@, 2);
    reveal_strlit("{\"LobbyList\":{\"info\":");
    assert(s[7] == 'S');
    lemma_lit_no_match(s, "{\"LobbyList\":{\"info\":"@, 7);
    lemma_dec_lit("{\"LobbySubscribed\":{\"seed\":"@, t1);
    lemma_dec_enc_mi_arr(seed, t2);
    assert(t2 =~= "}}"@ + Seq::<char>::empty());
    lemma_dec_lit("}}"@, Seq::<char>::empty());
    assert(("}}"@ + Seq::<char>::empty()).skip("}}"@.len() as int) =~= Seq::<char>::empty());
}

#[verifier::rlimit(100)]
proof fn lemma_rep_rt_lobby_joined_match(info: Result<SpecMatchInfo, Seq<char>>)
    ensures
        dec_reply(enc_reply(SpecReply::LobbyJoinedMatch { info })) == Some(SpecReply::LobbyJoinedMatch { info }),
{
    let r = SpecReply::LobbyJoinedMatch { info };
    reveal_strlit("{\"LobbyJoinedMatch\":{\"info\":");
    let e = Seq::<char>::empty();
    let t2 = "}}"@ + e;
    let t1 = enc_result_mi(info) + t2;
    let s = "{\"LobbyJoinedMatch\":{\"info\":"@ + t1;
    assert(enc_reply(r) =~= s);
    reveal_strlit("{\"Handshake\":{\"magic\":");
    assert(s[2] == 'L');
    lemma_lit_no_match(s, "{\"Handshake\":{\"magic\":"@, 2);
    reveal_strlit("{\"GameList\":{\"games\":");
    assert(s[2] == 'L');
    lemma_lit_no_match(s, "{\"GameList\":{\"games\":"@, 2);
    reveal_strlit("{\"GameDescription\":{\"description\":");
    assert(s[2] == 'L');
    lemma_lit_no_match(s, "{\"GameDescription\":{\"description\":"@, 2);
    reveal_strlit("{\"GameNew\":{\"id\":");
    assert(s[2] == 'L');
    lemma_lit_no_match(s, "{\"GameNew\":{\"id\":"@, 2);
    reveal_strlit("{\"LobbyList\":{\"info\":");
    assert(s[7] == 'J');
    lemma_lit_no_match(s, "{\"LobbyList\":{\"info\":"@, 7);
    reveal_strlit("{\"LobbySubscribed\":{\"seed\":");
    assert(s[7] == 'J');
    lemma_lit_no_match(s, "{\"LobbySubscribed\":{\"seed\":"@, 7);
    lemma_dec_lit("{\"LobbyJoinedMatch\":{\"info\":"@, t1);
    lemma_dec_enc_result_mi(info, t2);
    assert(t2 =~= "}}"@ + Seq::<char>::empty());
    lemma_dec_lit("}}"@, Seq::<char>::empty());
    assert(("}}"@ + Seq::<char>::empty()).skip("}}"@.len() as int) =~= Seq::<char>::empty());
}

#[verifier::rlimit(100)]
proof fn lemma_rep_rt_lobby_new(info: SpecMatchInfo)
    ensures
        dec_reply(enc_reply(SpecReply::LobbyNew { info })) == Some(SpecReply::LobbyNew { info }),
{
    let r = SpecReply::LobbyNew { info };
    reveal_strlit("{\"LobbyNew\":{\"info\":");
    let e = Seq::<char>::empty();
    let t2 = "}}"@ + e;
    let t1 = enc_match_info(info) + t2;
    let s = "{\"LobbyNew\":{\"info\":"@ + t1;
    assert(enc_reply(r) =~= s);
    reveal_strlit("{\"Handshake\":{\"magic\":");
    assert(s[2] == 'L');
    lemma_lit_no_match(s, "{\"Handshake\":{\"magic\":"@, 2);
    reveal_strlit("{\"GameList\":{\"games\":");
    assert(s[2] == 'L');
    lemma_lit_no_match(s, "{\"GameList\":{\"games\":"@, 2);
    reveal_strlit("{\"GameDescription\":{\"description\":");
    assert(s[2] == 'L');
    lemma_lit_no_match(s, "{\"GameDescription\":{\"description\":"@, 2);
    reveal_strlit("{\"GameNew\":{\"id\":");
    assert(s[2] == 'L');
    lemma_lit_no_match(s, "{\"GameNew\":{\"id\":"@, 2);
    reveal_strlit("{\"LobbyList\":{\"info\":");
    assert(s[7] == 'N');
    lemma_lit_no_match(s, "{\"LobbyList\":{\"info\":"@, 7);
    reveal_strlit("{\"LobbySubscribed\":{\"seed\":");
    assert(s[7] == 'N');
    lemma_lit_no_match(s, "{\"LobbySubscribed\":{\"seed\":"@, 7);
    reveal_strlit("{\"LobbyJoinedMatch\":{\"info\":");
    assert(s[7] == 'N');
    lemma_lit_no_match(s, "{\"LobbyJoinedMatch\":{\"info\":"@, 7);
    lemma_dec_lit("{\"LobbyNew\":{\"info\":"@, t1);
    lemma_dec_enc_match_info(info, t2);
    assert(t2 =~= "}}"@ + Seq::<char>::empty());
    lemma_dec_lit("}}"@, Seq::<char>::empty());
    assert(("}}"@ + Seq::<char>::empty()).skip("}}"@.len() as int) =~= Seq::<char>::empty());
}

#[verifier::rlimit(100)]
proof fn lemma_rep_rt_lobby_update(info: SpecMatchInfo)
    ensures
        dec_reply(enc_reply(SpecReply::LobbyUpdate { info })) == Some(SpecReply::LobbyUpdate { info }),
{
    let r = SpecReply::LobbyUpdate { info };
    reveal_strlit("{\"LobbyUpdate\":{\"info\":");
    let e = Seq::<char>::empty();
    let t2 = "}}"@ + e;
    let t1 = enc_match_info(info) + t2;
    let s = "{\"LobbyUpdate\":{\"info\":"@ + t1;
    assert(enc_reply(r) =~= s);
    reveal_strlit("{\"Handshake\":{\"magic\":");
    assert(s[2] == 'L');
    lemma_lit_no_match(s, "{\"Handshake\":{\"magic\":"@, 2);
    reveal_strlit("{\"GameList\":{\"games\":");
    assert(s[2] == 'L');
    lemma_lit_no_match(s, "{\"GameList\":{\"games\":"@, 2);
    reveal_strlit("{\"GameDescription\":{\"description\":");
    assert(s[2] == 'L');
    lemma_lit_no_match(s, "{\"GameDescription\":{\"description\":"@, 2);
    reveal_strlit("{\"GameNew\":{\"id\":");
    assert(s[2] == 'L');
    lemma_lit_no_match(s, "{\"GameNew\":{\"id\":"@, 2);
    reveal_strlit("{\"LobbyList\":{\"info\":");
    assert(s[7] == 'U');
    lemma_lit_no_match(s, "{\"LobbyList\":{\"info\":"@, 7);
    reveal_strlit("{\"LobbySubscribed\":{\"seed\":");
    assert(s[7] == 'U');
    lemma_lit_no_match(s, "{\"LobbySubscribed\":{\"seed\":"@, 7);
    reveal_strlit("{\"LobbyJoinedMatch\":{\"info\":");
    assert(s[7] == 'U');
    lemma_lit_no_match(s, "{\"LobbyJoinedMatch\":{\"info\":"@, 7);
    reveal_strlit("{\"LobbyNew\":{\"info\":");
    assert(s[7] == 'U');
    lemma_lit_no_match(s, "{\"LobbyNew\":{\"info\":"@, 7);
    lemma_dec_lit("{\"LobbyUpdate\":{\"info\":"@, t1);
    lemma_dec_enc_match_info(info, t2);
    assert(t2 =~= "}}"@ + Seq::<char>::empty());
    lemma_dec_lit("}}"@, Seq::<char>::empty());
    assert(("}}"@ + Seq::<char>::empty()).skip("}}"@.len() as int) =~= Seq::<char>::empty());
}

#[verifier::rlimit(100)]
proof fn lemma_rep_rt_lobby_delete(id: Seq<char>)
    ensures
        dec_reply(enc_reply(SpecReply::LobbyDelete { id })) == Some(SpecReply::LobbyDelete { id }),
{
    let r = SpecReply::LobbyDelete { id };
    reveal_strlit("{\"LobbyDelete\":{\"id\":");
    let e = Seq::<char>::empty();
    let t2 = "}}"@ + e;
    let t1 = enc_str(id) + t2;
    let s = "{\"LobbyDelete\":{\"id\":"@ + t1;
    assert(enc_reply(r) =~= s);
    reveal_strlit("{\"Handshake\":{\"magic\":");
    assert(s[2] == 'L');
    lemma_lit_no_match(s, "{\"Handshake\":{\"magic\":"@, 2);
    reveal_strlit("{\"GameList\":{\"games\":");
    assert(s[2] == 'L');
    lemma_lit_no_match(s, "{\"GameList\":{\"games\":"@, 2);
    reveal_strlit("{\"GameDescription\":{\"description\":");
    assert(s[2] == 'L');
    lemma_lit_no_match(s, "{\"GameDescription\":{\"description\":"@, 2);
    reveal_strlit("{\"GameNew\":{\"id\":");
    assert(s[2] == 'L');
    lemma_lit_no_match(s, "{\"GameNew\":{\"id\":"@, 2);
    reveal_strlit("{\"LobbyList\":{\"info\":");
    assert(s[7] == 'D');
    lemma_lit_no_match(s, "{\"LobbyList\":{\"info\":"@, 7);
    reveal_strlit("{\"LobbySubscribed\":{\"seed\":");
    assert(s[7] == 'D');
    lemma_lit_no_match(s, "{\"LobbySubscribed\":{\"seed\":"@, 7);
    reveal_strlit("{\"LobbyJoinedMatch\":{\"info\":");
    assert(s[7] == 'D');
    lemma_lit_no_match(s, "{\"LobbyJoinedMatch\":{\"info\":"@, 7);
    reveal_strlit("{\"LobbyNew\":{\"info\":");
    assert(s[7] == 'D');
    lemma_lit_no_match(s, "{\"LobbyNew\":{\"info\":"@, 7);
    reveal_strlit("{\"LobbyUpdate\":{\"info\":");
    assert(s[7] == 'D');
    lemma_lit_no_match(s, "{\"LobbyUpdate\":{\"info\":"@, 7);
    lemma_dec_lit("{\"LobbyDelete\":{\"id\":"@, t1);
    lemma_dec_enc_str(id, t2);
    assert(t2 =~= "}}"@ + Seq::<char>::empty());
    lemma_dec_lit("}}"@, Seq::<char>::empty());
    assert(("}}"@ + Seq::<char>::empty()).skip("}}"@.len() as int) =~= Seq::<char>::empty());
}

#[verifier::rlimit(100)]
proof fn lemma_rep_rt_lobby_unsubscribed()
    ensures
        dec_reply(enc_reply(SpecReply::LobbyUnsubscribed)) == Some(SpecReply::LobbyUnsubscribed),
{
    let r = SpecReply::LobbyUnsubscribed;
    reveal_strlit("\"LobbyUnsubscribed\"");
    let s = "\"LobbyUnsubscribed\""@;
    reveal_strlit("{\"Handshake\":{\"magic\":");
    assert(s[0] == '"');
    lemma_lit_no_match(s, "{\"Handshake\":{\"magic\":"@, 0);
    reveal_strlit("{\"GameList\":{\"games\":");
    assert(s[0] == '"');
    lemma_lit_no_match(s, "{\"GameList\":{\"games\":"@, 0);
    reveal_strlit("{\"GameDescription\":{\"description\":");
    assert(s[0] == '"');
    lemma_lit_no_match(s, "{\"GameDescription\":{\"description\":"@, 0);
    reveal_strlit("{\"GameNew\":{\"id\":");
    assert(s[0] == '"');
    lemma_lit_no_match(s, "{\"GameNew\":{\"id\":"@, 0);
    reveal_strlit("{\"LobbyList\":{\"info\":");
    assert(s[0] == '"');
    lemma_lit_no_match(s, "{\"LobbyList\":{\"info\":"@, 0);
    reveal_strlit("{\"LobbySubscribed\":{\"seed\":");
    assert(s[0] == '"');
    lemma_lit_no_match(s, "{\"LobbySubscribed\":{\"seed\":"@, 0);
    reveal_strlit("{\"LobbyJoinedMatch\":{\"info\":");
    assert(s[0] == '"');
    lemma_lit_no_match(s, "{\"LobbyJoinedMatch\":{\"info\":"@, 0);
    reveal_strlit("{\"LobbyNew\":{\"info\":");
    assert(s[0] == '"');
    lemma_lit_no_match(s, "{\"LobbyNew\":{\"info\":"@, 0);
    reveal_strlit("{\"LobbyUpdate\":{\"info\":");
    assert(s[0] == '"');
    lemma_lit_no_match(s, "{\"LobbyUpdate\":{\"info\":"@, 0);
    reveal_strlit("{\"LobbyDelete\":{\"id\":");
    assert(s[0] == '"');
    lemma_lit_no_match(s, "{\"LobbyDelete\":{\"id\":"@, 0);
    assert(s =~= "\"LobbyUnsubscribed\""@ + Seq::<char>::empty());
    lemma_dec_lit("\"LobbyUnsubscribed\""@, Seq::<char>::empty());
}

#[verifier::rlimit(100)]
proof fn lemma_rep_rt_lobby_leaved_match()
    ensures
        dec_reply(enc_reply(SpecReply::LobbyLeavedMatch)) == Some(SpecReply::LobbyLeavedMatch),
{
    let r = SpecReply::LobbyLeavedMatch;
    reveal_strlit("\"LobbyLeavedMatch\"");
    let s = "\"LobbyLeavedMatch\""@;
    reveal_strlit("{\"Handshake\":{\"magic\":");
    assert(s[0] == '"');
    lemma_lit_no_match(s, "{\"Handshake\":{\"magic\":"@, 0);
    reveal_strlit("{\"GameList\":{\"games\":");
    assert(s[0] == '"');
    lemma_lit_no_match(s, "{\"GameList\":{\"games\":"@, 0);
    reveal_strlit("{\"GameDescription\":{\"description\":");
    assert(s[0] == '"');
    lemma_lit_no_match(s, "{\"GameDescription\":{\"description\":"@, 0);
    reveal_strlit("{\"GameNew\":{\"id\":");
    assert(s[0] == '"');
    lemma_lit_no_match(s, "{\"GameNew\":{\"id\":"@, 0);
    reveal_strlit("{\"LobbyList\":{\"info\":");
    assert(s[0] == '"');
    lemma_lit_no_match(s, "{\"LobbyList\":{\"info\":"@, 0);
    reveal_strlit("{\"LobbySubscribed\":{\"seed\":");
    assert(s[0] == '"');
    lemma_lit_no_match(s, "{\"LobbySubscribed\":{\"seed\":"@, 0);
    reveal_strlit("{\"LobbyJoinedMatch\":{\"info\":");
    assert(s[0] == '"');
    lemma_lit_no_match(s, "{\"LobbyJoinedMatch\":{\"info\":"@, 0);
    reveal_strlit("{\"LobbyNew\":{\"info\":");
    assert(s[0] == '"');
    lemma_lit_no_match(s, "{\"LobbyNew\":{\"info\":"@, 0);
    reveal_strlit("{\"LobbyUpdate\":{\"info\":");
    assert(s[0] == '"');
    lemma_lit_no_match(s, "{\"LobbyUpdate\":{\"info\":"@, 0);
    reveal_strlit("{\"LobbyDelete\":{\"id\":");
    assert(s[0] == '"');
    lemma_lit_no_match(s, "{\"LobbyDelete\":{\"id\":"@, 0);
    reveal_strlit("\"LobbyUnsubscribed\"");
    assert(s[6] == 'L');
    lemma_lit_no_match(s, "\"LobbyUnsubscribed\""@, 6);
    assert(s =~= "\"LobbyLeavedMatch\""@ + Seq::<char>::empty());
    lemma_dec_lit("\"LobbyLeavedMatch\""@, Seq::<char>::empty());
}

#[verifier::rlimit(100)]
proof fn lemma_rep_rt_match_started()
    ensures
        dec_reply(enc_reply(SpecReply::MatchStarted)) == Some(SpecReply::MatchStarted),
{
    let r = SpecReply::MatchStarted;
    reveal_strlit("\"MatchStarted\"");
    let s = "\"MatchStarted\""@;
    reveal_strlit("{\"Handshake\":{\"magic\":");
    assert(s[0] == '"');
    lemma_lit_no_match(s, "{\"Handshake\":{\"magic\":"@, 0);
    reveal_strlit("{\"GameList\":{\"games\":");
    assert(s[0] == '"');
    lemma_lit_no_match(s, "{\"GameList\":{\"games\":"@, 0);
    reveal_strlit("{\"GameDescription\":{\"description\":");
    assert(s[0] == '"');
    lemma_lit_no_match(s, "{\"GameDescription\":{\"description\":"@, 0);
    reveal_strlit("{\"GameNew\":{\"id\":");
    assert(s[0] == '"');
    lemma_lit_no_match(s, "{\"GameNew\":{\"id\":"@, 0);
    reveal_strlit("{\"LobbyList\":{\"info\":");
    assert(s[0] == '"');
    lemma_lit_no_match(s, "{\"LobbyList\":{\"info\":"@, 0);
    reveal_strlit("{\"LobbySubscribed\":{\"seed\":");
    assert(s[0] == '"');
    lemma_lit_no_match(s, "{\"LobbySubscribed\":{\"seed\":"@, 0);
    reveal_strlit("{\"LobbyJoinedMatch\":{\"info\":");
    assert(s[0] == '"');
    lemma_lit_no_match(s, "{\"LobbyJoinedMatch\":{\"info\":"@, 0);
    reveal_strlit("{\"LobbyNew\":{\"info\":");
    assert(s[0] == '"');
    lemma_lit_no_match(s, "{\"LobbyNew\":{\"info\":"@, 0);
    reveal_strlit("{\"LobbyUpdate\":{\"info\":");
    assert(s[0] == '"');
    lemma_lit_no_match(s, "{\"LobbyUpdate\":{\"info\":"@, 0);
    reveal_strlit("{\"LobbyDelete\":{\"id\":");
    assert(s[0] == '"');
    lemma_lit_no_match(s, "{\"LobbyDelete\":{\"id\":"@, 0);
    reveal_strlit("\"LobbyUnsubscribed\"");
    assert(s[1] == 'M');
    lemma_lit_no_match(s, "\"LobbyUnsubscribed\""@, 1);
    reveal_strlit("\"LobbyLeavedMatch\"");
    assert(s[1] == 'M');
    lemma_lit_no_match(s, "\"LobbyLeavedMatch\""@, 1);
    assert(s =~= "\"MatchStarted\""@ + Seq::<char>::empty());
    lemma_dec_lit("\"MatchStarted\""@, Seq::<char>::empty());
}

#[verifier::rlimit(100)]
proof fn lemma_rep_rt_match_ended()
    ensures
        dec_reply(enc_reply(SpecReply::MatchEnded)) == Some(SpecReply::MatchEnded),
{
    let r = SpecReply::MatchEnded;
    reveal_strlit("\"MatchEnded\"");
    let s = "\"MatchEnded\""@;
    reveal_strlit("{\"Handshake\":{\"magic\":");
    assert(s[0] == '"');
    lemma_lit_no_match(s, "{\"Handshake\":{\"magic\":"@, 0);
    reveal_strlit("{\"GameList\":{\"games\":");
    assert(s[0] == '"');
    lemma_lit_no_match(s, "{\"GameList\":{\"games\":"@, 0);
    reveal_strlit("{\"GameDescription\":{\"description\":");
    assert(s[0] == '"');
    lemma_lit_no_match(s, "{\"GameDescription\":{\"description\":"@, 0);
    reveal_strlit("{\"GameNew\":{\"id\":");
    assert(s[0] == '"');
    lemma_lit_no_match(s, "{\"GameNew\":{\"id\":"@, 0);
    reveal_strlit("{\"LobbyList\":{\"info\":");
    assert(s[0] == '"');
    lemma_lit_no_match(s, "{\"LobbyList\":{\"info\":"@, 0);
    reveal_strlit("{\"LobbySubscribed\":{\"seed\":");
    assert(s[0] == '"');
    lemma_lit_no_match(s, "{\"LobbySubscribed\":{\"seed\":"@, 0);
    reveal_strlit("{\"LobbyJoinedMatch\":{\"info\":");
    assert(s[0] == '"');
    lemma_lit_no_match(s, "{\"LobbyJoinedMatch\":{\"info\":"@, 0);
    reveal_strlit("{\"LobbyNew\":{\"info\":");
    assert(s[0] == '"');
    lemma_lit_no_match(s, "{\"LobbyNew\":{\"info\":"@, 0);
    reveal_strlit("{\"LobbyUpdate\":{\"info\":");
    assert(s[0] == '"');
    lemma_lit_no_match(s, "{\"LobbyUpdate\":{\"info\":"@, 0);
    reveal_strlit("{\"LobbyDelete\":{\"id\":");
    assert(s[0] == '"');
    lemma_lit_no_match(s, "{\"LobbyDelete\":{\"id\":"@, 0);
    reveal_strlit("\"LobbyUnsubscribed\"");
    assert(s[1] == 'M');
    lemma_lit_no_match(s, "\"LobbyUnsubscribed\""@, 1);
    reveal_strlit("\"LobbyLeavedMatch\"");
    assert(s[1] == 'M');
    lemma_lit_no_match(s, "\"LobbyLeavedMatch\""@, 1);
    reveal_strlit("\"MatchStarted\"");
    assert(s[6] == 'E');
    lemma_lit_no_match(s, "\"MatchStarted\""@, 6);
    assert(s =~= "\"MatchEnded\""@ + Seq::<char>::empty());
    lemma_dec_lit("\"MatchEnded\""@, Seq::<char>::empty());
}

#[verifier::rlimit(100)]
proof fn lemma_rep_rt_spectate_joined(info: Result<SpecMatchInfo, Seq<char>>)
    ensures
        dec_reply(enc_reply(SpecReply::SpectateJoined { info })) == Some(SpecReply::SpectateJoined { info }),
{
    let r = SpecReply::SpectateJoined { info };
    reveal_strlit("{\"SpectateJoined\":{\"info\":");
    let e = Seq::<char>::empty();
    let t2 = "}}"@ + e;
    let t1 = enc_result_mi(info) + t2;
    let s = "{\"SpectateJoined\":{\"info\":"@ + t1;
    assert(enc_reply(r) =~= s);
    reveal_strlit("{\"Handshake\":{\"magic\":");
    assert(s[2] == 'S');
    lemma_lit_no_match(s, "{\"Handshake\":{\"magic\":"@, 2);
    reveal_strlit("{\"GameList\":{\"games\":");
    assert(s[2] == 'S');
    lemma_lit_no_match(s, "{\"GameList\":{\"games\":"@, 2);
    reveal_strlit("{\"GameDescription\":{\"description\":");
    assert(s[2] == 'S');
    lemma_lit_no_match(s, "{\"GameDescription\":{\"description\":"@, 2);
    reveal_strlit("{\"GameNew\":{\"id\":");
    assert(s[2] == 'S');
    lemma_lit_no_match(s, "{\"GameNew\":{\"id\":"@, 2);
    reveal_strlit("{\"LobbyList\":{\"info\":");
    assert(s[2] == 'S');
    lemma_lit_no_match(s, "{\"LobbyList\":{\"info\":"@, 2);
    reveal_strlit("{\"LobbySubscribed\":{\"seed\":");
    assert(s[2] == 'S');
    lemma_lit_no_match(s, "{\"LobbySubscribed\":{\"seed\":"@, 2);
    reveal_strlit("{\"LobbyJoinedMatch\":{\"info\":");
    assert(s[2] == 'S');
    lemma_lit_no_match(s, "{\"LobbyJoinedMatch\":{\"info\":"@, 2);
    reveal_strlit("{\"LobbyNew\":{\"info\":");
    assert(s[2] == 'S');
    lemma_lit_no_match(s, "{\"LobbyNew\":{\"info\":"@, 2);
    reveal_strlit("{\"LobbyUpdate\":{\"info\":");
    assert(s[2] == 'S');
    lemma_lit_no_match(s, "{\"LobbyUpdate\":{\"info\":"@, 2);
    reveal_strlit("{\"LobbyDelete\":{\"id\":");
    assert(s[2] == 'S');
    lemma_lit_no_match(s, "{\"LobbyDelete\":{\"id\":"@, 2);
    reveal_strlit("\"LobbyUnsubscribed\"");
    assert(s[0] == '{');
    lemma_lit_no_match(s, "\"LobbyUnsubscribed\""@, 0);
    reveal_strlit("\"LobbyLeavedMatch\"");
    assert(s[0] == '{');
    lemma_lit_no_match(s, "\"LobbyLeavedMatch\""@, 0);
    reveal_strlit("\"MatchStarted\"");
    assert(s[0] == '{');
    lemma_lit_no_match(s, "\"MatchStarted\""@, 0);
    reveal_strlit("\"MatchEnded\"");
    assert(s[0] == '{');
    lemma_lit_no_match(s, "\"MatchEnded\""@, 0);
    lemma_dec_lit("{\"SpectateJoined\":{\"info\":"@, t1);
    lemma_dec_enc_result_mi(info, t2);
    assert(t2 =~= "}}"@ + Seq::<char>::empty());
    lemma_dec_lit("}}"@, Seq::<char>::empty());
    assert(("}}"@ + Seq::<char>::empty()).skip("}}"@.len() as int) =~= Seq::<char>::empty());
}

#[verifier::rlimit(100)]
proof fn lemma_rep_rt_spectate_started()
    ensures
        dec_reply(enc_reply(SpecReply::SpectateStarted)) == Some(SpecReply::SpectateStarted),
{
    let r = SpecReply::SpectateStarted;
    reveal_strlit("\"SpectateStarted\"");
    let s = "\"SpectateStarted\""@;
    reveal_strlit("{\"Handshake\":{\"magic\":");
    assert(s[0] == '"');
    lemma_lit_no_match(s, "{\"Handshake\":{\"magic\":"@, 0);
    reveal_strlit("{\"GameList\":{\"games\":");
    assert(s[0] == '"');
    lemma_lit_no_match(s, "{\"GameList\":{\"games\":"@, 0);
    reveal_strlit("{\"GameDescription\":{\"description\":");
    assert(s[0] == '"');
    lemma_lit_no_match(s, "{\"GameDescription\":{\"description\":"@, 0);
    reveal_strlit("{\"GameNew\":{\"id\":");
    assert(s[0] == '"');
    lemma_lit_no_match(s, "{\"GameNew\":{\"id\":"@, 0);
    reveal_strlit("{\"LobbyList\":{\"info\":");
    assert(s[0] == '"');
    lemma_lit_no_match(s, "{\"LobbyList\":{\"info\":"@, 0);
    reveal_strlit("{\"LobbySubscribed\":{\"seed\":");
    assert(s[0] == '"');
    lemma_lit_no_match(s, "{\"LobbySubscribed\":{\"seed\":"@, 0);
    reveal_strlit("{\"LobbyJoinedMatch\":{\"info\":");
    assert(s[0] == '"');
    lemma_lit_no_match(s, "{\"LobbyJoinedMatch\":{\"info\":"@, 0);
    reveal_strlit("{\"LobbyNew\":{\"info\":");
    assert(s[0] == '"');
    lemma_lit_no_match(s, "{\"LobbyNew\":{\"info\":"@, 0);
    reveal_strlit("{\"LobbyUpdate\":{\"info\":");
    assert(s[0] == '"');
    lemma_lit_no_match(s, "{\"LobbyUpdate\":{\"info\":"@, 0);
    reveal_strlit("{\"LobbyDelete\":{\"id\":");
    assert(s[0] == '"');
    lemma_lit_no_match(s, "{\"LobbyDelete\":{\"id\":"@, 0);
    reveal_strlit("\"LobbyUnsubscribed\"");
    assert(s[1] == 'S');
    lemma_lit_no_match(s, "\"LobbyUnsubscribed\""@, 1);
    reveal_strlit("\"LobbyLeavedMatch\"");
    assert(s[1] == 'S');
    lemma_lit_no_match(s, "\"LobbyLeavedMatch\""@, 1);
    reveal_strlit("\"MatchStarted\"");
    assert(s[1] == 'S');
    lemma_lit_no_match(s, "\"MatchStarted\""@, 1);
    reveal_strlit("\"MatchEnded\"");
    assert(s[1] == 'S');
    lemma_lit_no_match(s, "\"MatchEnded\""@, 1);
    reveal_strlit("{\"SpectateJoined\":{\"info\":");
    assert(s[0] == '"');
    lemma_lit_no_match(s, "{\"SpectateJoined\":{\"info\":"@, 0);
    assert(s =~= "\"SpectateStarted\""@ + Seq::<char>::empty());
    lemma_dec_lit("\"SpectateStarted\""@, Seq::<char>::empty());
}

#[verifier::rlimit(100)]
proof fn lemma_rep_rt_spectate_synced()
    ensures
        dec_reply(enc_reply(SpecReply::SpectateSynced)) == Some(SpecReply::SpectateSynced),
{
    let r = SpecReply::SpectateSynced;
    reveal_strlit("\"SpectateSynced\"");
    let s = "\"SpectateSynced\""@;
    reveal_strlit("{\"Handshake\":{\"magic\":");
    assert(s[0] == '"');
    lemma_lit_no_match(s, "{\"Handshake\":{\"magic\":"@, 0);
    reveal_strlit("{\"GameList\":{\"games\":");
    assert(s[0] == '"');
    lemma_lit_no_match(s, "{\"GameList\":{\"games\":"@, 0);
    reveal_strlit("{\"GameDescription\":{\"description\":");
    assert(s[0] == '"');
    lemma_lit_no_match(s, "{\"GameDescription\":{\"description\":"@, 0);
    reveal_strlit("{\"GameNew\":{\"id\":");
    assert(s[0] == '"');
    lemma_lit_no_match(s, "{\"GameNew\":{\"id\":"@, 0);
    reveal_strlit("{\"LobbyList\":{\"info\":");
    assert(s[0] == '"');
    lemma_lit_no_match(s, "{\"LobbyList\":{\"info\":"@, 0);
    reveal_strlit("{\"LobbySubscribed\":{\"seed\":");
    assert(s[0] == '"');
    lemma_lit_no_match(s, "{\"LobbySubscribed\":{\"seed\":"@, 0);
    reveal_strlit("{\"LobbyJoinedMatch\":{\"info\":");
    assert(s[0] == '"');
    lemma_lit_no_match(s, "{\"LobbyJoinedMatch\":{\"info\":"@, 0);
    reveal_strlit("{\"LobbyNew\":{\"info\":");
    assert(s[0] == '"');
    lemma_lit_no_match(s, "{\"LobbyNew\":{\"info\":"@, 0);
    reveal_strlit("{\"LobbyUpdate\":{\"info\":");
    assert(s[0] == '"');
    lemma_lit_no_match(s, "{\"LobbyUpdate\":{\"info\":"@, 0);
    reveal_strlit("{\"LobbyDelete\":{\"id\":");
    assert(s[0] == '"');
    lemma_lit_no_match(s, "{\"LobbyDelete\":{\"id\":"@, 0);
    reveal_strlit("\"LobbyUnsubscribed\"");
    assert(s[1] == 'S');
    lemma_lit_no_match(s, "\"LobbyUnsubscribed\""@, 1);
    reveal_strlit("\"LobbyLeavedMatch\"");
    assert(s[1] == 'S');
    lemma_lit_no_match(s, "\"LobbyLeavedMatch\""@, 1);
    reveal_strlit("\"MatchStarted\"");
    assert(s[1] == 'S');
    lemma_lit_no_match(s, "\"MatchStarted\""@, 1);
    reveal_strlit("\"MatchEnded\"");
    assert(s[1] == 'S');
    lemma_lit_no_match(s, "\"MatchEnded\""@, 1);
    reveal_strlit("{\"SpectateJoined\":{\"info\":");
    assert(s[0] == '"');
    lemma_lit_no_match(s, "{\"SpectateJoined\":{\"info\":"@, 0);
    reveal_strlit("\"SpectateStarted\"");
    assert(s[10] == 'y');
    lemma_lit_no_match(s, "\"SpectateStarted\""@, 10);
    assert(s =~= "\"SpectateSynced\""@ + Seq::<char>::empty());
    lemma_dec_lit("\"SpectateSynced\""@, Seq::<char>::empty());
}

#[verifier::rlimit(100)]
proof fn lemma_rep_rt_spectate_ended()
    ensures
        dec_reply(enc_reply(SpecReply::SpectateEnded)) == Some(SpecReply::SpectateEnded),
{
    let r = SpecReply::SpectateEnded;
    reveal_strlit("\"SpectateEnded\"");
    let s = "\"SpectateEnded\""@;
    reveal_strlit("{\"Handshake\":{\"magic\":");
    assert(s[0] == '"');
    lemma_lit_no_match(s, "{\"Handshake\":{\"magic\":"@, 0);
    reveal_strlit("{\"GameList\":{\"games\":");
    assert(s[0] == '"');
    lemma_lit_no_match(s, "{\"GameList\":{\"games\":"@, 0);
    reveal_strlit("{\"GameDescription\":{\"description\":");
    assert(s[0] == '"');
    lemma_lit_no_match(s, "{\"GameDescription\":{\"description\":"@, 0);
    reveal_strlit("{\"GameNew\":{\"id\":");
    assert(s[0] == '"');
    lemma_lit_no_match(s, "{\"GameNew\":{\"id\":"@, 0);
    reveal_strlit("{\"LobbyList\":{\"info\":");
    assert(s[0] == '"');
    lemma_lit_no_match(s, "{\"LobbyList\":{\"info\":"@, 0);
    reveal_strlit("{\"LobbySubscribed\":{\"seed\":");
    assert(s[0] == '"');
    lemma_lit_no_match(s, "{\"LobbySubscribed\":{\"seed\":"@, 0);
    reveal_strlit("{\"LobbyJoinedMatch\":{\"info\":");
    assert(s[0] == '"');
    lemma_lit_no_match(s, "{\"LobbyJoinedMatch\":{\"info\":"@, 0);
    reveal_strlit("{\"LobbyNew\":{\"info\":");
    assert(s[0] == '"');
    lemma_lit_no_match(s, "{\"LobbyNew\":{\"info\":"@, 0);
    reveal_strlit("{\"LobbyUpdate\":{\"info\":");
    assert(s[0] == '"');
    lemma_lit_no_match(s, "{\"LobbyUpdate\":{\"info\":"@, 0);
    reveal_strlit("{\"LobbyDelete\":{\"id\":");
    assert(s[0] == '"');
    lemma_lit_no_match(s, "{\"LobbyDelete\":{\"id\":"@, 0);
    reveal_strlit("\"LobbyUnsubscribed\"");
    assert(s[1] == 'S');
    lemma_lit_no_match(s, "\"LobbyUnsubscribed\""@, 1);
    reveal_strlit("\"LobbyLeavedMatch\"");
    assert(s[1] == 'S');
    lemma_lit_no_match(s, "\"LobbyLeavedMatch\""@, 1);
    reveal_strlit("\"MatchStarted\"");
    assert(s[1] == 'S');
    lemma_lit_no_match(s, "\"MatchStarted\""@, 1);
    reveal_strlit("\"MatchEnded\"");
    assert(s[1] == 'S');
    lemma_lit_no_match(s, "\"MatchEnded\""@, 1);
    reveal_strlit("{\"SpectateJoined\":{\"info\":");
    assert(s[0] == '"');
    lemma_lit_no_match(s, "{\"SpectateJoined\":{\"info\":"@, 0);
    reveal_strlit("\"SpectateStarted\"");
    assert(s[9] == 'E');
    lemma_lit_no_match(s, "\"SpectateStarted\""@, 9);
    reveal_strlit("\"SpectateSynced\"");
    assert(s[9] == 'E');
    lemma_lit_no_match(s, "\"SpectateSynced\""@, 9);
    assert(s =~= "\"SpectateEnded\""@ + Seq::<char>::empty());
    lemma_dec_lit("\"SpectateEnded\""@, Seq::<char>::empty());
}

#[verifier::rlimit(100)]
proof fn lemma_rep_rt_spectate_leaved()
    ensures
        dec_reply(enc_reply(SpecReply::SpectateLeaved)) == Some(SpecReply::SpectateLeaved),
{
    let r = SpecReply::SpectateLeaved;
    reveal_strlit("\"SpectateLeaved\"");
    let s = "\"SpectateLeaved\""@;
    reveal_strlit("{\"Handshake\":{\"magic\":");
    assert(s[0] == '"');
    lemma_lit_no_match(s, "{\"Handshake\":{\"magic\":"@, 0);
    reveal_strlit("{\"GameList\":{\"games\":");
    assert(s[0] == '"');
    lemma_lit_no_match(s, "{\"GameList\":{\"games\":"@, 0);
    reveal_strlit("{\"GameDescription\":{\"description\":");
    assert(s[0] == '"');
    lemma_lit_no_match(s, "{\"GameDescription\":{\"description\":"@, 0);
    reveal_strlit("{\"GameNew\":{\"id\":");
    assert(s[0] == '"');
    lemma_lit_no_match(s, "{\"GameNew\":{\"id\":"@, 0);
    reveal_strlit("{\"LobbyList\":{\"info\":");
    assert(s[0] == '"');
    lemma_lit_no_match(s, "{\"LobbyList\":{\"info\":"@, 0);
    reveal_strlit("{\"LobbySubscribed\":{\"seed\":");
    assert(s[0] == '"');
    lemma_lit_no_match(s, "{\"LobbySubscribed\":{\"seed\":"@, 0);
    reveal_strlit("{\"LobbyJoinedMatch\":{\"info\":");
    assert(s[0] == '"');
    lemma_lit_no_match(s, "{\"LobbyJoinedMatch\":{\"info\":"@, 0);
    reveal_strlit("{\"LobbyNew\":{\"info\":");
    assert(s[0] == '"');
    lemma_lit_no_match(s, "{\"LobbyNew\":{\"info\":"@, 0);
    reveal_strlit("{\"LobbyUpdate\":{\"info\":");
    assert(s[0] == '"');
    lemma_lit_no_match(s, "{\"LobbyUpdate\":{\"info\":"@, 0);
    reveal_strlit("{\"LobbyDelete\":{\"id\":");
    assert(s[0] == '"');
    lemma_lit_no_match(s, "{\"LobbyDelete\":{\"id\":"@, 0);
    reveal_strlit("\"LobbyUnsubscribed\"");
    assert(s[1] == 'S');
    lemma_lit_no_match(s, "\"LobbyUnsubscribed\""@, 1);
    reveal_strlit("\"LobbyLeavedMatch\"");
    assert(s[1] == 'S');
    lemma_lit_no_match(s, "\"LobbyLeavedMatch\""@, 1);
    reveal_strlit("\"MatchStarted\"");
    assert(s[1] == 'S');
    lemma_lit_no_match(s, "\"MatchStarted\""@, 1);
    reveal_strlit("\"MatchEnded\"");
    assert(s[1] == 'S');
    lemma_lit_no_match(s, "\"MatchEnded\""@, 1);
    reveal_strlit("{\"SpectateJoined\":{\"info\":");
    assert(s[0] == '"');
    lemma_lit_no_match(s, "{\"SpectateJoined\":{\"info\":"@, 0);
    reveal_strlit("\"SpectateStarted\"");
    assert(s[9] == 'L');
    lemma_lit_no_match(s, "\"SpectateStarted\""@, 9);
    reveal_strlit("\"SpectateSynced\"");
    assert(s[9] == 'L');
    lemma_lit_no_match(s, "\"SpectateSynced\""@, 9);
    reveal_strlit("\"SpectateEnded\"");
    assert(s[9] == 'L');
    lemma_lit_no_match(s, "\"SpectateEnded\""@, 9);
    assert(s =~= "\"SpectateLeaved\""@ + Seq::<char>::empty());
    lemma_dec_lit("\"SpectateLeaved\""@, Seq::<char>::empty());
}

#[verifier::rlimit(100)]
proof fn lemma_rep_rt_history_match_list(ids: Seq<Seq<char>>)
    ensures
        dec_reply(enc_reply(SpecReply::HistoryMatchList { ids })) == Some(SpecReply::HistoryMatchList { ids }),
{
    let r = SpecReply::HistoryMatchList { ids };
    reveal_strlit("{\"HistoryMatchList\":");
    let e = Seq::<char>::empty();
    let t2 = "}"@ + e;
    let t1 = enc_str_arr(ids) + t2;
    let s = "{\"HistoryMatchList\":"@ + t1;
    assert(enc_reply(r) =~= s);
    reveal_strlit("{\"Handshake\":{\"magic\":");
    assert(s[3] == 'i');
    lemma_lit_no_match(s, "{\"Handshake\":{\"magic\":"@, 3);
    reveal_strlit("{\"GameList\":{\"games\":");
    assert(s[2] == 'H');
    lemma_lit_no_match(s, "{\"GameList\":{\"games\":"@, 2);
    reveal_strlit("{\"GameDescription\":{\"description\":");
    assert(s[2] == 'H');
    lemma_lit_no_match(s, "{\"GameDescription\":{\"description\":"@, 2);
    reveal_strlit("{\"GameNew\":{\"id\":");
    assert(s[2] == 'H');
    lemma_lit_no_match(s, "{\"GameNew\":{\"id\":"@, 2);
    reveal_strlit("{\"LobbyList\":{\"info\":");
    assert(s[2] == 'H');
    lemma_lit_no_match(s, "{\"LobbyList\":{\"info\":"@, 2);
    reveal_strlit("{\"LobbySubscribed\":{\"seed\":");
    assert(s[2] == 'H');
    lemma_lit_no_match(s, "{\"LobbySubscribed\":{\"seed\":"@, 2);
    reveal_strlit("{\"LobbyJoinedMatch\":{\"info\":");
    assert(s[2] == 'H');
    lemma_lit_no_match(s, "{\"LobbyJoinedMatch\":{\"info\":"@, 2);
    reveal_strlit("{\"LobbyNew\":{\"info\":");
    assert(s[2] == 'H');
    lemma_lit_no_match(s, "{\"LobbyNew\":{\"info\":"@, 2);
    reveal_strlit("{\"LobbyUpdate\":{\"info\":");
    assert(s[2] == 'H');
    lemma_lit_no_match(s, "{\"LobbyUpdate\":{\"info\":"@, 2);
    reveal_strlit("{\"LobbyDelete\":{\"id\":");
    assert(s[2] == 'H');
    lemma_lit_no_match(s, "{\"LobbyDelete\":{\"id\":"@, 2);
    reveal_strlit("\"LobbyUnsubscribed\"");
    assert(s[0] == '{');
    lemma_lit_no_match(s, "\"LobbyUnsubscribed\""@, 0);
    reveal_strlit("\"LobbyLeavedMatch\"");
    assert(s[0] == '{');
    lemma_lit_no_match(s, "\"LobbyLeavedMatch\""@, 0);
    reveal_strlit("\"MatchStarted\"");
    assert(s[0] == '{');
    lemma_lit_no_match(s, "\"MatchStarted\""@, 0);
    reveal_strlit("\"MatchEnded\"");
    assert(s[0] == '{');
    lemma_lit_no_match(s, "\"MatchEnded\""@, 0);
    reveal_strlit("{\"SpectateJoined\":{\"info\":");
    assert(s[2] == 'H');
    lemma_lit_no_match(s, "{\"SpectateJoined\":{\"info\":"@, 2);
    reveal_strlit("\"SpectateStarted\"");
    assert(s[0] == '{');
    lemma_lit_no_match(s, "\"SpectateStarted\""@, 0);
    reveal_strlit("\"SpectateSynced\"");
    assert(s[0] == '{');
    lemma_lit_no_match(s, "\"SpectateSynced\""@, 0);
    reveal_strlit("\"SpectateEnded\"");
    assert(s[0] == '{');
    lemma_lit_no_match(s, "\"SpectateEnded\""@, 0);
    reveal_strlit("\"SpectateLeaved\"");
    assert(s[0] == '{');
    lemma_lit_no_match(s, "\"SpectateLeaved\""@, 0);
    lemma_dec_lit("{\"HistoryMatchList\":"@, t1);
    lemma_dec_enc_str_arr(ids, t2);
    assert(t2 =~= "}"@ + Seq::<char>::empty());
    lemma_dec_lit("}"@, Seq::<char>::empty());
    assert(("}"@ + Seq::<char>::empty()).skip("}"@.len() as int) =~= Seq::<char>::empty());
}

#[verifier::rlimit(100)]
proof fn lemma_rep_rt_history_match(data: Result<crate::archive::SpecMatchData, crate::archive::DatabaseError>)
    ensures
        dec_reply(enc_reply(SpecReply::HistoryMatch { data })) == Some(SpecReply::HistoryMatch { data }),
{
    let r = SpecReply::HistoryMatch { data };
    reveal_strlit("{\"HistoryMatch\":");
    let e = Seq::<char>::empty();
    let t2 = "}"@ + e;
    let t1 = enc_result_md(data) + t2;
    let s = "{\"HistoryMatch\":"@ + t1;
    assert(enc_reply(r) =~= s);
    reveal_strlit("{\"Handshake\":{\"magic\":");
    assert(s[3] == 'i');
    lemma_lit_no_match(s, "{\"Handshake\":{\"magic\":"@, 3);
    reveal_strlit("{\"GameList\":{\"games\":");
    assert(s[2] == 'H');
    lemma_lit_no_match(s, "{\"GameList\":{\"games\":"@, 2);
    reveal_strlit("{\"GameDescription\":{\"description\":");
    assert(s[2] == 'H');
    lemma_lit_no_match(s, "{\"GameDescription\":{\"description\":"@, 2);
    reveal_strlit("{\"GameNew\":{\"id\":");
    assert(s[2] == 'H');
    lemma_lit_no_match(s, "{\"GameNew\":{\"id\":"@, 2);
    reveal_strlit("{\"LobbyList\":{\"info\":");
    assert(s[2] == 'H');
    lemma_lit_no_match(s, "{\"LobbyList\":{\"info\":"@, 2);
    reveal_strlit("{\"LobbySubscribed\":{\"seed\":");
    assert(s[2] == 'H');
    lemma_lit_no_match(s, "{\"LobbySubscribed\":{\"seed\":"@, 2);
    reveal_strlit("{\"LobbyJoinedMatch\":{\"info\":");
    assert(s[2] == 'H');
    lemma_lit_no_match(s, "{\"LobbyJoinedMatch\":{\"info\":"@, 2);
    reveal_strlit("{\"LobbyNew\":{\"info\":");
    assert(s[2] == 'H');
    lemma_lit_no_match(s, "{\"LobbyNew\":{\"info\":"@, 2);
    reveal_strlit("{\"LobbyUpdate\":{\"info\":");
    assert(s[2] == 'H');
    lemma_lit_no_match(s, "{\"LobbyUpdate\":{\"info\":"@, 2);
    reveal_strlit("{\"LobbyDelete\":{\"id\":");
    assert(s[2] == 'H');
    lemma_lit_no_match(s, "{\"LobbyDelete\":{\"id\":"@, 2);
    reveal_strlit("\"LobbyUnsubscribed\"");
    assert(s[0] == '{');
    lemma_lit_no_match(s, "\"LobbyUnsubscribed\""@, 0);
    reveal_strlit("\"LobbyLeavedMatch\"");
    assert(s[0] == '{');
    lemma_lit_no_match(s, "\"LobbyLeavedMatch\""@, 0);
    reveal_strlit("\"MatchStarted\"");
    assert(s[0] == '{');
    lemma_lit_no_match(s, "\"MatchStarted\""@, 0);
    reveal_strlit("\"MatchEnded\"");
    assert(s[0] == '{');
    lemma_lit_no_match(s, "\"MatchEnded\""@, 0);
    reveal_strlit("{\"SpectateJoined\":{\"info\":");
    assert(s[2] == 'H');
    lemma_lit_no_match(s, "{\"SpectateJoined\":{\"info\":"@, 2);
    reveal_strlit("\"SpectateStarted\"");
    assert(s[0] == '{');
    lemma_lit_no_match(s, "\"SpectateStarted\""@, 0);
    reveal_strlit("\"SpectateSynced\"");
    assert(s[0] == '{');
    lemma_lit_no_match(s, "\"SpectateSynced\""@, 0);
    reveal_strlit("\"SpectateEnded\"");
    assert(s[0] == '{');
    lemma_lit_no_match(s, "\"SpectateEnded\""@, 0);
    reveal_strlit("\"SpectateLeaved\"");
    assert(s[0] == '{');
    lemma_lit_no_match(s, "\"SpectateLeaved\""@, 0);
    reveal_strlit("{\"HistoryMatchList\":");
    assert(s[14] == '"');
    lemma_lit_no_match(s, "{\"HistoryMatchList\":"@, 14);
    lemma_dec_lit("{\"HistoryMatch\":"@, t1);
    lemma_dec_enc_result_md(data, t2);
    assert(t2 =~= "}"@ + Seq::<char>::empty());
    lemma_dec_lit("}"@, Seq::<char>::empty());
    assert(("}"@ + Seq::<char>::empty()).skip("}"@.len() as int) =~= Seq::<char>::empty());
}

/// Round trip: every reply survives the codec unchanged.
pub proof fn lemma_reply_round_trip(r: SpecReply)
    ensures
        dec_reply(enc_reply(r)) == Some(r),
{
    match r {
        SpecReply::Handshake { magic, version } => lemma_rep_rt_handshake(magic, version),
        SpecReply::GameList { games } => lemma_rep_rt_game_list(games),
        SpecReply::GameDescription { description } => lemma_rep_rt_game_description(description),
        SpecReply::GameNew { id } => lemma_rep_rt_game_new(id),
        SpecReply::LobbyList { info } => lemma_rep_rt_lobby_list(info),
        SpecReply::LobbySubscribed { seed } => lemma_rep_rt_lobby_subscribed(seed),
        SpecReply::LobbyJoinedMatch { info } => lemma_rep_rt_lobby_joined_match(info),
        SpecReply::LobbyNew { info } => lemma_rep_rt_lobby_new(info),
        SpecReply::LobbyUpdate { info } => lemma_rep_rt_lobby_update(info),
        SpecReply::LobbyDelete { id } => lemma_rep_rt_lobby_delete(id),
        SpecReply::LobbyUnsubscribed => lemma_rep_rt_lobby_unsubscribed(),
        SpecReply::LobbyLeavedMatch => lemma_rep_rt_lobby_leaved_match(),
        SpecReply::MatchStarted => lemma_rep_rt_match_started(),
        SpecReply::MatchEnded => lemma_rep_rt_match_ended(),
        SpecReply::SpectateJoined { info } => lemma_rep_rt_spectate_joined(info),
        SpecReply::SpectateStarted => lemma_rep_rt_spectate_started(),
        SpecReply::SpectateSynced => lemma_rep_rt_spectate_synced(),
        SpecReply::SpectateEnded => lemma_rep_rt_spectate_ended(),
        SpecReply::SpectateLeaved => lemma_rep_rt_spectate_leaved(),
        SpecReply::HistoryMatchList { ids } => lemma_rep_rt_history_match_list(ids),
        SpecReply::HistoryMatch { data } => lemma_rep_rt_history_match(data),
    }
}

} // verus!
