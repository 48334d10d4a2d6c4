//! The lobby: the directory of live matches and its life cycle rules.
//!
//! The lobby owns every match from creation to start, expiry or
//! deletion.  Its well-formedness invariant keeps match ids unique
//! and player counts below capacity while a match waits; a match that
//! fills up starts exactly at that instant and never returns to the
//! waiting state.

use vstd::prelude::*;
use crate::json::{chars_eq, dec_digits, enc_secs, push_chars, push_u64, push_secs, str_to_chars};
use crate::proto::MatchInfo;
use crate::tuning::{INSTANCE_LIFETIME_MS, MAX_GAME_INSTANCES, MAX_PLAYERS, MAX_TIMEOUT_MS, MIN_TIMEOUT_MS};

verus! {

// ---------------------------------------------------------------------
// Validation of names and passwords
// ---------------------------------------------------------------------

/// A visible ASCII character (no space).
pub open spec fn is_graph_char(c: char) -> bool {
    33 <= (c as u32) && (c as u32) <= 126
}

/// A printable ASCII character (space included).
pub open spec fn is_print_char(c: char) -> bool {
    32 <= (c as u32) && (c as u32) <= 126
}

/// A valid username: 1 to 16 visible characters, `$` excluded.
pub open spec fn valid_username(s: Seq<char>) -> bool {
    1 <= s.len() <= 16 && forall|i: int| 0 <= i < s.len() ==> is_graph_char(s[i]) && s[i] != '$'
}

/// A valid human match name: 1 to 24 printable characters.
pub open spec fn valid_gamename(s: Seq<char>) -> bool {
    1 <= s.len() <= 24 && forall|i: int| 0 <= i < s.len() ==> is_print_char(s[i])
}

/// A valid password: up to 32 visible characters.
pub open spec fn valid_password(s: Seq<char>) -> bool {
    s.len() <= 32 && forall|i: int| 0 <= i < s.len() ==> is_graph_char(s[i])
}

/// Checks a username.
pub fn check_username(s: &Vec<char>) -> (r: bool)
    ensures
        r == valid_username(s@),
{
    if s.len() < 1 || s.len() > 16 {
        return false;
    }
    let mut i: usize = 0;
    while i < s.len()
        invariant
            i <= s@.len(),
            forall|m: int| 0 <= m < i ==> is_graph_char(s@[m]) && s@[m] != '$',
        decreases s@.len() - i,
    {
        let c = s[i];
        if (c as u32) < 33 || (c as u32) > 126 || c == '$' {
            return false;
        }
        i = i + 1;
    }
    true
}

/// Checks a human match name.
pub fn check_gamename(s: &Vec<char>) -> (r: bool)
    ensures
        r == valid_gamename(s@),
{
    if s.len() < 1 || s.len() > 24 {
        return false;
    }
    let mut i: usize = 0;
    while i < s.len()
        invariant
            i <= s@.len(),
            forall|m: int| 0 <= m < i ==> is_print_char(s@[m]),
        decreases s@.len() - i,
    {
        let c = s[i];
        if (c as u32) < 32 || (c as u32) > 126 {
            return false;
        }
        i = i + 1;
    }
    true
}

/// Checks a password.
pub fn check_password(s: &Vec<char>) -> (r: bool)
    ensures
        r == valid_password(s@),
{
    if s.len() > 32 {
        return false;
    }
    let mut i: usize = 0;
    while i < s.len()
        invariant
            i <= s@.len(),
            forall|m: int| 0 <= m < i ==> is_graph_char(s@[m]),
        decreases s@.len() - i,
    {
        let c = s[i];
        if (c as u32) < 33 || (c as u32) > 126 {
            return false;
        }
        i = i + 1;
    }
    true
}

// ---------------------------------------------------------------------
// Match ids
// ---------------------------------------------------------------------

/// The base32 text of a numeric match id.
pub uninterp spec fn match_id_chars(id: u64) -> Seq<char>;

/// Relies on data_encoding's BASE32_DNSSEC encoding: 13 characters
/// over the lowercase alphabet `0-9a-v` for 8 bytes of input, and
/// decoding inverts encoding, so distinct ids have distinct text.
#[verifier::external_body]
pub fn encode_match_id(id: u64) -> (r: Vec<char>)
    ensures
        r@ == match_id_chars(id),
        r@.len() == 13,
        forall|k: int| 0 <= k < r@.len() ==> crate::archive::is_ascii_alnum(r@[k]),
        forall|j: u64| j != id ==> match_id_chars(j) != r@,
{
    data_encoding::BASE32_DNSSEC.encode(&id.to_le_bytes()).chars().collect()
}

/// Relies on data_encoding's BASE32_DNSSEC decoding, which inverts
/// the encoding above.
#[verifier::external_body]
pub fn decode_match_id(s: &Vec<char>) -> (r: Option<u64>)
    ensures
        forall|id: u64| s@ == match_id_chars(id) ==> r == Some(id),
{
    let text: String = s.iter().collect();
    match data_encoding::BASE32_DNSSEC.decode(text.as_bytes()) {
        Ok(bytes) => match <[u8; 8]>::try_from(bytes) {
            Ok(arr) => Some(u64::from_le_bytes(arr)),
            Err(_) => None,
        },
        Err(_) => None,
    }
}

// ---------------------------------------------------------------------
// Errors
// ---------------------------------------------------------------------

/// Everything the lobby can refuse.
#[derive(Debug)]
pub enum LobbyError {
    ServerFull,
    InvalidGameName(Vec<char>),
    InvalidPassword(Vec<char>),
    WrongVerification(Vec<char>),
    AllBots,
    TooManyPlayers(u64),
    BadTimeout(u64),
    InvalidId,
    UnknownMatch(Vec<char>),
    AlreadyRunning(Vec<char>),
    NameTaken(Vec<char>),
    WrongPassword,
    InvalidUsername(Vec<char>),
    NotInMatch(Vec<char>),
}

/// The message text of a lobby error, as sent to clients.
pub open spec fn spec_error_message(e: LobbyError) -> Seq<char> {
    match e {
        LobbyError::ServerFull => "Server is at maximum capacity"@,
        LobbyError::InvalidGameName(n) => "\""@ + n@ + "\" is not a valid game name"@,
        LobbyError::InvalidPassword(p) => "\""@ + p@ + "\" is not a valid password"@,
        LobbyError::WrongVerification(v) => "\""@ + v@ + "\" is the wrong verification password"@,
        LobbyError::AllBots => "Cannot have all server bots"@,
        LobbyError::TooManyPlayers(n) => "Too many players: "@ + dec_digits(n as int) + " > 100"@,
        LobbyError::BadTimeout(t) => "Timeout "@ + enc_secs(t as int) + " out of allowed range [0.1; 600]"@,
        LobbyError::InvalidId => "Invalid ID"@,
        LobbyError::UnknownMatch(id) => "Game \""@ + id@ + "\" does not exists"@,
        LobbyError::AlreadyRunning(id) => "Game \""@ + id@ + "\" is already running"@,
        LobbyError::NameTaken(n) => "Username \""@ + n@ + "\" already taken"@,
        LobbyError::WrongPassword => "Wrong password"@,
        LobbyError::InvalidUsername(n) => "\""@ + n@ + "\" is not a valid username"@,
        LobbyError::NotInMatch(n) => "\""@ + n@ + "\" is not in this game"@,
    }
}

impl LobbyError {
    /// Builds the message text of this error.
    pub fn message(&self) -> (r: Vec<char>)
        ensures
            r@ == spec_error_message(*self),
    {
        let mut out: Vec<char> = Vec::new();
        match self {
            LobbyError::ServerFull => {
                let lit = str_to_chars("Server is at maximum capacity");
                push_chars(&mut out, &lit);
            },
            LobbyError::InvalidGameName(n) => {
                let lit = str_to_chars("\"");
                push_chars(&mut out, &lit);
                push_chars(&mut out, n);
                let lit = str_to_chars("\" is not a valid game name");
                push_chars(&mut out, &lit);
                proof {
                    assert(out@ =~= spec_error_message(*self));
                }
            },
            LobbyError::InvalidPassword(p) => {
                let lit = str_to_chars("\"");
                push_chars(&mut out, &lit);
                push_chars(&mut out, p);
                let lit = str_to_chars("\" is not a valid password");
                push_chars(&mut out, &lit);
                proof {
                    assert(out@ =~= spec_error_message(*self));
                }
            },
            LobbyError::WrongVerification(v) => {
                let lit = str_to_chars("\"");
                push_chars(&mut out, &lit);
                push_chars(&mut out, v);
                let lit = str_to_chars("\" is the wrong verification password");
                push_chars(&mut out, &lit);
                proof {
                    assert(out@ =~= spec_error_message(*self));
                }
            },
            LobbyError::AllBots => {
                let lit = str_to_chars("Cannot have all server bots");
                push_chars(&mut out, &lit);
            },
            LobbyError::TooManyPlayers(n) => {
                let lit = str_to_chars("Too many players: ");
                push_chars(&mut out, &lit);
                push_u64(&mut out, *n);
                let lit = str_to_chars(" > 100");
                push_chars(&mut out, &lit);
                proof {
                    assert(out@ =~= spec_error_message(*self));
                }
            },
            LobbyError::BadTimeout(t) => {
                let lit = str_to_chars("Timeout ");
                push_chars(&mut out, &lit);
                push_secs(&mut out, *t);
                let lit = str_to_chars(" out of allowed range [0.1; 600]");
                push_chars(&mut out, &lit);
                proof {
                    assert(out@ =~= spec_error_message(*self));
                }
            },
            LobbyError::InvalidId => {
                let lit = str_to_chars("Invalid ID");
                push_chars(&mut out, &lit);
            },
            LobbyError::UnknownMatch(id) => {
                let lit = str_to_chars("Game \"");
                push_chars(&mut out, &lit);
                push_chars(&mut out, id);
                let lit = str_to_chars("\" does not exists");
                push_chars(&mut out, &lit);
                proof {
                    assert(out@ =~= spec_error_message(*self));
                }
            },
            LobbyError::AlreadyRunning(id) => {
                let lit = str_to_chars("Game \"");
                push_chars(&mut out, &lit);
                push_chars(&mut out, id);
                let lit = str_to_chars("\" is already running");
                push_chars(&mut out, &lit);
                proof {
                    assert(out@ =~= spec_error_message(*self));
                }
            },
            LobbyError::NameTaken(n) => {
                let lit = str_to_chars("Username \"");
                push_chars(&mut out, &lit);
                push_chars(&mut out, n);
                let lit = str_to_chars("\" already taken");
                push_chars(&mut out, &lit);
                proof {
                    assert(out@ =~= spec_error_message(*self));
                }
            },
            LobbyError::WrongPassword => {
                let lit = str_to_chars("Wrong password");
                push_chars(&mut out, &lit);
            },
            LobbyError::InvalidUsername(n) => {
                let lit = str_to_chars("\"");
                push_chars(&mut out, &lit);
                push_chars(&mut out, n);
                let lit = str_to_chars("\" is not a valid username");
                push_chars(&mut out, &lit);
                proof {
                    assert(out@ =~= spec_error_message(*self));
                }
            },
            LobbyError::NotInMatch(n) => {
                let lit = str_to_chars("\"");
                push_chars(&mut out, &lit);
                push_chars(&mut out, n);
                let lit = str_to_chars("\" is not in this game");
                push_chars(&mut out, &lit);
                proof {
                    assert(out@ =~= spec_error_message(*self));
                }
            },
        }
        out
    }
}

// ---------------------------------------------------------------------
// The directory
// ---------------------------------------------------------------------

/// One live match as the lobby holds it.
pub struct LobbyEntry {
    pub key: u64,
    pub info: MatchInfo,
    pub password: Option<Vec<char>>,
    pub expiration_ms: u64,
}

/// The process-wide lobby state.
pub struct Lobby {
    pub matches: Vec<LobbyEntry>,
    pub admin_password: Vec<char>,
}

/// Distinct names inside a match.
pub open spec fn names_unique(c: Seq<Seq<char>>) -> bool {
    forall|i: int, j: int| 0 <= i < j < c.len() ==> c[i] != c[j]
}

/// Well-formedness of one entry.
pub open spec fn entry_wf(e: LobbyEntry) -> bool {
    &&& e.info.id@ == match_id_chars(e.key)
    &&& e.info.bots < e.info.players
    &&& e.info.players <= MAX_PLAYERS
    &&& e.info.running ==> e.info.connected@.len() + e.info.bots <= e.info.players
    &&& !e.info.running ==> e.info.connected@.len() + e.info.bots < e.info.players
    &&& names_unique(e.info.connected.deep_view())
    &&& MIN_TIMEOUT_MS <= e.info.timeout_ms <= MAX_TIMEOUT_MS
}

impl Lobby {
    /// Well-formedness of the directory: distinct keys, distinct id
    /// texts, and every entry well formed.
    pub open spec fn wf(&self) -> bool {
        &&& forall|i: int, j: int| 0 <= i < j < self.matches@.len()
            ==> self.matches@[i].key != self.matches@[j].key
        &&& forall|i: int, j: int| 0 <= i < j < self.matches@.len()
            ==> self.matches@[i].info.id@ != self.matches@[j].info.id@
        &&& forall|i: int| 0 <= i < self.matches@.len() ==> entry_wf(#[trigger] self.matches@[i])
    }

    /// Whether a numeric id is in the directory.
    pub open spec fn has_key(&self, key: u64) -> bool {
        exists|i: int| 0 <= i < self.matches@.len() && self.matches@[i].key == key
    }

    /// A fresh lobby with the given administrator password.
    pub fn new(admin_password: Vec<char>) -> (r: Lobby)
        ensures
            r.wf(),
            r.matches@.len() == 0,
            r.admin_password == admin_password,
    {
        Lobby { matches: Vec::new(), admin_password }
    }

    /// Finds the index of a key.
    fn find(&self, key: u64) -> (r: Option<usize>)
        ensures
            match r {
                Some(i) => i < self.matches@.len() && self.matches@[i as int].key == key,
                None => !self.has_key(key),
            },
    {
        let mut i: usize = 0;
        while i < self.matches.len()
            invariant
                i <= self.matches@.len(),
                forall|m: int| 0 <= m < i ==> self.matches@[m].key != key,
            decreases self.matches@.len() - i,
        {
            if self.matches[i].key == key {
                return Some(i);
            }
            i = i + 1;
        }
        None
    }

    /// The snapshot sent for `LobbyList` and as a subscription seed.
    pub fn get_list(&self) -> (r: Vec<MatchInfo>)
        ensures
            r@.len() == self.matches@.len(),
            forall|i: int| 0 <= i < r@.len() ==> #[trigger] r@[i]@ == self.matches@[i].info@,
    {
        let mut r: Vec<MatchInfo> = Vec::new();
        let mut i: usize = 0;
        while i < self.matches.len()
            invariant
                i <= self.matches@.len(),
                r@.len() == i,
                forall|m: int| 0 <= m < i ==> #[trigger] r@[m]@ == self.matches@[m].info@,
            decreases self.matches@.len() - i,
        {
            r.push(self.matches[i].info.clone_info());
            i = i + 1;
        }
        r
    }
}

impl MatchInfo {
    /// A structural copy of match information.
    pub fn clone_info(&self) -> (r: MatchInfo)
        ensures
            r@ == self@,
    {
        let mut args: Vec<(Vec<char>, Vec<char>)> = Vec::new();
        let mut i: usize = 0;
        while i < self.args.len()
            invariant
                i <= self.args@.len(),
                args.deep_view() =~= self.args.deep_view().take(i as int),
            decreases self.args@.len() - i,
        {
            let k = clone_chars(&self.args[i].0);
            let v = clone_chars(&self.args[i].1);
            let ghost prev = args.deep_view();
            args.push((k, v));
            proof {
                assert(args.deep_view() =~~= prev.push((k@, v@)));
                assert(self.args.deep_view()[i as int] == self.args@[i as int].deep_view());
                assert((k@, v@) == self.args.deep_view()[i as int]);
                assert(self.args.deep_view().take(i + 1 as int)
                    =~= self.args.deep_view().take(i as int).push(self.args.deep_view()[i as int]));
                assert(args.deep_view() =~= self.args.deep_view().take(i + 1 as int));
            }
            i = i + 1;
        }
        let mut connected: Vec<Vec<char>> = Vec::new();
        let mut i: usize = 0;
        while i < self.connected.len()
            invariant
                i <= self.connected@.len(),
                connected.deep_view() =~= self.connected.deep_view().take(i as int),
            decreases self.connected@.len() - i,
        {
            let c = clone_chars(&self.connected[i]);
            let ghost prev = connected.deep_view();
            connected.push(c);
            proof {
                assert(connected.deep_view() =~~= prev.push(c@));
                assert(self.connected.deep_view()[i as int] == self.connected@[i as int]@);
                assert(c@ == self.connected.deep_view()[i as int]);
                assert(self.connected.deep_view().take(i + 1 as int)
                    =~= self.connected.deep_view().take(i as int).push(self.connected.deep_view()[i as int]));
                assert(connected.deep_view() =~= self.connected.deep_view().take(i + 1 as int));
            }
            i = i + 1;
        }
        proof {
            assert(args.deep_view() =~= self.args.deep_view());
            assert(connected.deep_view() =~= self.connected.deep_view());
        }
        MatchInfo {
            players: self.players,
            bots: self.bots,
            timeout_ms: self.timeout_ms,
            args,
            id: clone_chars(&self.id),
            name: clone_chars(&self.name),
            game: clone_chars(&self.game),
            running: self.running,
            time: self.time,
            connected,
            spectators: self.spectators,
            password: self.password,
            verified: self.verified,
        }
    }
}

/// A copy of a character vector.
pub fn clone_chars(s: &Vec<char>) -> (r: Vec<char>)
    ensures
        r@ == s@,
{
    let mut r: Vec<char> = Vec::new();
    let mut i: usize = 0;
    while i < s.len()
        invariant
            i <= s@.len(),
            r@ == s@.take(i as int),
        decreases s@.len() - i,
    {
        r.push(s[i]);
        proof {
            assert(s@.take(i + 1 as int) =~= s@.take(i as int).push(s@[i as int]));
        }
        i = i + 1;
    }
    proof {
        assert(s@.take(s@.len() as int) =~= s@);
    }
    r
}


impl Lobby {
    /// The numeric keys of all live matches.
    pub open spec fn keys(&self) -> Seq<u64> {
        Seq::new(self.matches@.len(), |i: int| self.matches@[i].key)
    }

    /// Checks what can be checked of a creation request before the
    /// game registry is asked for an instance: the live-match cap,
    /// the human name, the password shape, and the administrator
    /// password.  Returns whether the match will be verified.
    pub fn new_game_precheck(
        &self,
        name: &Vec<char>,
        password: &Option<Vec<char>>,
        verification: &Option<Vec<char>>,
    ) -> (r: Result<bool, LobbyError>)
        ensures
            self.matches@.len() >= MAX_GAME_INSTANCES ==> (r matches Err(e) && e == LobbyError::ServerFull),
            self.matches@.len() < MAX_GAME_INSTANCES && !valid_gamename(name@)
                ==> (r matches Err(e) && spec_error_message(e)
                    == spec_error_message(LobbyError::InvalidGameName(*name))),
            self.matches@.len() < MAX_GAME_INSTANCES && valid_gamename(name@)
                && (password matches Some(p) && !valid_password(p@))
                ==> (r matches Err(e) && spec_error_message(e)
                    == spec_error_message(LobbyError::InvalidPassword(password->Some_0))),
            self.matches@.len() < MAX_GAME_INSTANCES && valid_gamename(name@)
                && (password matches Some(p) ==> valid_password(p@))
                ==> match verification {
                    Some(v) => {
                        if v@ == self.admin_password@ {
                            r matches Ok(true)
                        } else {
                            r matches Err(e) && spec_error_message(e)
                                == spec_error_message(LobbyError::WrongVerification(verification->Some_0))
                        }
                    },
                    None => r matches Ok(false),
                },
    {
        if self.matches.len() >= MAX_GAME_INSTANCES {
            return Err(LobbyError::ServerFull);
        }
        if !check_gamename(name) {
            return Err(LobbyError::InvalidGameName(clone_chars(name)));
        }
        if let Some(p) = password {
            if !check_password(p) {
                return Err(LobbyError::InvalidPassword(clone_chars(p)));
            }
        }
        match verification {
            Some(v) => {
                if chars_eq(v, &self.admin_password) {
                    Ok(true)
                } else {
                    Err(LobbyError::WrongVerification(clone_chars(v)))
                }
            },
            None => Ok(false),
        }
    }

    /// Picks a key not yet in the directory: the random candidate if
    /// it is free, else the first free small number, which exists
    /// because there are more candidates than live matches.
    fn fresh_key(&self, entropy: u64) -> (r: u64)
        requires
            self.wf(),
            self.matches@.len() < MAX_GAME_INSTANCES,
        ensures
            !self.has_key(r),
    {
        if self.find(entropy).is_none() {
            return entropy;
        }
        let n = self.matches.len();
        let mut i: usize = 0;
        while i <= n
            invariant
                i <= n + 1,
                n == self.matches@.len(),
                n < MAX_GAME_INSTANCES,
                self.wf(),
                forall|m: int| 0 <= m < i ==> self.has_key(#[trigger] (m as u64)),
            decreases n + 1 - i,
        {
            if self.find(i as u64).is_none() {
                return i as u64;
            }
            i = i + 1;
        }
        // Unreachable: more candidates than matches.
        proof {
            let ks = self.keys();
            assert(ks.no_duplicates()) by {
                assert(forall|a: int, b: int| 0 <= a < b < ks.len()
                    ==> ks[a] == self.matches@[a].key && ks[b] == self.matches@[b].key);
            }
            ks.unique_seq_to_set();
            let cs = Seq::new((n + 1) as nat, |m: int| m as u64);
            assert(cs.no_duplicates()) by {
                assert(forall|a: int, b: int| 0 <= a < b < cs.len() ==> cs[a] == a as u64 && cs[b] == b as u64);
            }
            cs.unique_seq_to_set();
            assert forall|x: u64| cs.to_set().contains(x) implies ks.to_set().contains(x) by {
                let m = choose|m: int| 0 <= m < cs.len() && cs[m] == x;
                assert(self.has_key(m as u64));
                let w = choose|w: int| 0 <= w < self.matches@.len() && self.matches@[w].key == m as u64;
                assert(ks[w] == x);
                assert(ks.contains(x));
            }
            vstd::set_lib::lemma_len_subset(cs.to_set(), ks.to_set());
            assert(false);
        }
        0
    }

    /// Creates a match after the registry has produced an instance
    /// and normalized parameters; re-validates the parameters,
    /// assigns a fresh unique id, and lists the match as waiting.
    ///
    /// A new match is immediately visible in the snapshot, and its id
    /// differs from the id of every other live match.
    #[verifier::rlimit(100)]
    pub fn new_game_commit(
        &mut self,
        now_ms: u64,
        entropy: u64,
        name: Vec<char>,
        gamename: Vec<char>,
        players: u64,
        bots: u64,
        timeout_ms: u64,
        args: Vec<(Vec<char>, Vec<char>)>,
        password: Option<Vec<char>>,
        verified: bool,
    ) -> (r: Result<Vec<char>, LobbyError>)
        requires
            old(self).wf(),
        ensures
            final(self).wf(),
            final(self).admin_password == old(self).admin_password,
            match spec_commit_check(old(self).matches@.len() as int, players, bots, timeout_ms) {
                Some(e) => {
                    &&& (r matches Err(e2) && e2 == e)
                    &&& final(self).matches@ == old(self).matches@
                },
                None => {
                    &&& r matches Ok(rid)
                    &&& final(self).matches@.len() == old(self).matches@.len() + 1
                    &&& forall|i: int| 0 <= i < old(self).matches@.len()
                        ==> final(self).matches@[i] == old(self).matches@[i]
                    &&& {
                        let ne = final(self).matches@.last();
                        let rid = r->Ok_0;
                        &&& rid@ == ne.info.id@
                        &&& rid@ == match_id_chars(ne.key)
                        &&& !old(self).has_key(ne.key)
                        &&& forall|i: int| 0 <= i < old(self).matches@.len()
                            ==> old(self).matches@[i].info.id@ != rid@
                        &&& ne.info.name@ == name@
                        &&& ne.info.game@ == gamename@
                        &&& ne.info.players == players
                        &&& ne.info.bots == bots
                        &&& ne.info.timeout_ms == timeout_ms
                        &&& ne.info.args.deep_view() == args.deep_view()
                        &&& !ne.info.running
                        &&& ne.info.connected@.len() == 0
                        &&& ne.info.spectators == 0
                        &&& ne.info.password == (password is Some)
                        &&& spec_opt_chars_eq(ne.password, password)
                        &&& ne.info.verified == verified
                        &&& ne.info.time == spec_deadline(now_ms) / 1000
                        &&& ne.expiration_ms == spec_deadline(now_ms)
                    }
                },
            },
    {
        if self.matches.len() >= MAX_GAME_INSTANCES {
            return Err(LobbyError::ServerFull);
        }
        if bots >= players {
            return Err(LobbyError::AllBots);
        }
        if players > MAX_PLAYERS {
            return Err(LobbyError::TooManyPlayers(players));
        }
        if timeout_ms < MIN_TIMEOUT_MS || timeout_ms > MAX_TIMEOUT_MS {
            return Err(LobbyError::BadTimeout(timeout_ms));
        }
        let key = self.fresh_key(entropy);
        let id = encode_match_id(key);
        let expiration_ms = deadline_after(now_ms);
        let info = MatchInfo {
            players,
            bots,
            timeout_ms,
            args,
            id: clone_chars(&id),
            name,
            game: gamename,
            running: false,
            time: expiration_ms / 1000,
            connected: Vec::new(),
            spectators: 0,
            password: password.is_some(),
            verified,
        };
        let entry = LobbyEntry { key, info, password, expiration_ms };
        proof {
            assert(entry_wf(entry));
            assert forall|i: int| 0 <= i < old(self).matches@.len()
                implies old(self).matches@[i].info.id@ != id@ by {
                assert(old(self).matches@[i].key != key);
                assert(match_id_chars(old(self).matches@[i].key) != id@);
            }
        }
        self.matches.push(entry);
        Ok(id)
    }
}

/// Replacing one entry with one of the same key and id text keeps
/// the directory's keys and id texts pairwise distinct.
proof fn lemma_update_keeps_distinct(olds: Seq<LobbyEntry>, news: Seq<LobbyEntry>, i: int)
    requires
        forall|a: int, b: int| 0 <= a < b < olds.len() ==> olds[a].key != olds[b].key,
        forall|a: int, b: int| 0 <= a < b < olds.len() ==> olds[a].info.id@ != olds[b].info.id@,
        0 <= i < olds.len(),
        news.len() == olds.len(),
        forall|a: int| 0 <= a < olds.len() && a != i ==> news[a] == olds[a],
        news[i].key == olds[i].key,
        news[i].info.id@ == olds[i].info.id@,
    ensures
        forall|a: int, b: int| 0 <= a < b < news.len() ==> news[a].key != news[b].key,
        forall|a: int, b: int| 0 <= a < b < news.len() ==> news[a].info.id@ != news[b].info.id@,
{
    assert forall|a: int, b: int| 0 <= a < b < news.len()
        implies news[a].key != news[b].key && news[a].info.id@ != news[b].info.id@ by {
        assert(news[a].key == olds[a].key);
        assert(news[b].key == olds[b].key);
        assert(news[a].info.id@ == olds[a].info.id@);
        assert(news[b].info.id@ == olds[b].info.id@);
    }
}

/// The inactivity deadline reached from a current time, saturating
/// at the largest representable instant.
pub open spec fn spec_deadline(now_ms: u64) -> u64 {
    if now_ms <= u64::MAX - INSTANCE_LIFETIME_MS {
        (now_ms + INSTANCE_LIFETIME_MS) as u64
    } else {
        u64::MAX
    }
}

/// The inactivity deadline reached from a current time.
pub fn deadline_after(now_ms: u64) -> (r: u64)
    ensures
        r == spec_deadline(now_ms),
{
    if now_ms <= u64::MAX - INSTANCE_LIFETIME_MS {
        now_ms + INSTANCE_LIFETIME_MS
    } else {
        u64::MAX
    }
}

/// The parameter checks a creation request must pass, in order.
pub open spec fn spec_commit_check(len: int, players: u64, bots: u64, timeout_ms: u64) -> Option<LobbyError> {
    if len >= MAX_GAME_INSTANCES {
        Some(LobbyError::ServerFull)
    } else if bots >= players {
        Some(LobbyError::AllBots)
    } else if players > MAX_PLAYERS {
        Some(LobbyError::TooManyPlayers(players))
    } else if timeout_ms < MIN_TIMEOUT_MS || timeout_ms > MAX_TIMEOUT_MS {
        Some(LobbyError::BadTimeout(timeout_ms))
    } else {
        None
    }
}


/// Equality of optional character vectors, by contents.
pub open spec fn spec_opt_chars_eq(a: Option<Vec<char>>, b: Option<Vec<char>>) -> bool {
    match (a, b) {
        (None, None) => true,
        (Some(x), Some(y)) => x@ == y@,
        _ => false,
    }
}

/// Compares optional character vectors.
pub fn opt_chars_eq(a: &Option<Vec<char>>, b: &Option<Vec<char>>) -> (r: bool)
    ensures
        r == spec_opt_chars_eq(*a, *b),
{
    match (a, b) {
        (None, None) => true,
        (Some(x), Some(y)) => chars_eq(x, y),
        _ => false,
    }
}

/// Finds a name in a member list.
pub fn find_name(c: &Vec<Vec<char>>, name: &Vec<char>) -> (r: Option<usize>)
    ensures
        match r {
            Some(i) => i < c@.len() && c.deep_view()[i as int] == name@,
            None => !c.deep_view().contains(name@),
        },
{
    let mut i: usize = 0;
    while i < c.len()
        invariant
            i <= c@.len(),
            forall|m: int| 0 <= m < i ==> c.deep_view()[m] != name@,
        decreases c@.len() - i,
    {
        if chars_eq(&c[i], name) {
            proof {
                assert(c.deep_view()[i as int] == c@[i as int]@);
            }
            return Some(i);
        }
        proof {
            assert(c.deep_view()[i as int] == c@[i as int]@);
        }
        i = i + 1;
    }
    proof {
        if c.deep_view().contains(name@) {
            let w = choose|w: int| 0 <= w < c.deep_view().len() && c.deep_view()[w] == name@;
            assert(false);
        }
    }
    None
}

/// The checks of a join request against one match, in the order they
/// are applied.
pub open spec fn spec_join_check(e: LobbyEntry, name: Seq<char>, password: Option<Vec<char>>) -> Option<LobbyError> {
    if e.info.running {
        Some(LobbyError::AlreadyRunning(e.info.id))
    } else if e.info.connected.deep_view().contains(name) {
        Some(LobbyError::NameTaken(e.info.name))
    } else if !spec_opt_chars_eq(e.password, password) {
        Some(LobbyError::WrongPassword)
    } else {
        None
    }
}

impl Lobby {
    /// Joins a waiting match: validates the username, the match
    /// state and the password, adds the player, extends the
    /// inactivity deadline, and starts the match exactly when the
    /// players and bots reach its capacity.
    #[verifier::rlimit(100)]
    pub fn join_match(
        &mut self,
        now_ms: u64,
        key: u64,
        name: Vec<char>,
        password: Option<Vec<char>>,
    ) -> (r: Result<(MatchInfo, bool), LobbyError>)
        requires
            old(self).wf(),
        ensures
            final(self).wf(),
            final(self).admin_password == old(self).admin_password,
            !valid_username(name@) ==> (r matches Err(e) && spec_error_message(e)
                == spec_error_message(LobbyError::InvalidUsername(name))) && final(self).matches@ == old(self).matches@,
            valid_username(name@) && !old(self).has_key(key) ==> (r matches Err(e)
                && spec_error_message(e) == "Game \""@ + match_id_chars(key) + "\" does not exists"@)
                && final(self).matches@ == old(self).matches@,
            valid_username(name@) ==> forall|i: int|
                0 <= i < old(self).matches@.len() && (#[trigger] old(self).matches@[i]).key == key
                ==> match spec_join_check(old(self).matches@[i], name@, password) {
                    Some(e) => {
                        &&& r matches Err(e2) && spec_error_message(e2) == spec_error_message(e)
                        &&& final(self).matches@ == old(self).matches@
                    },
                    None => {
                        &&& r matches Ok(p)
                        &&& final(self).matches@.len() == old(self).matches@.len()
                        &&& forall|m: int| 0 <= m < old(self).matches@.len() && m != i
                            ==> final(self).matches@[m] == old(self).matches@[m]
                        &&& {
                            let oe = old(self).matches@[i];
                            let ne = final(self).matches@[i];
                            let started = oe.info.connected@.len() + 1 + oe.info.bots == oe.info.players;
                            &&& ne.key == oe.key
                            &&& ne.info.connected.deep_view() == oe.info.connected.deep_view().push(name@)
                            &&& ne.info.running == started
                            &&& ne.expiration_ms == spec_deadline(now_ms)
                            &&& ne.info.id@ == oe.info.id@
                            &&& ne.info.players == oe.info.players
                            &&& ne.info.bots == oe.info.bots
                            &&& p.1 == started
                            &&& p.0@ == ne.info@
                        }
                    },
                },
    {
        if !check_username(&name) {
            return Err(LobbyError::InvalidUsername(name));
        }
        let i = match self.find(key) {
            Some(i) => i,
            None => {
                return Err(LobbyError::UnknownMatch(encode_match_id(key)));
            },
        };
        if self.matches[i].info.running {
            return Err(LobbyError::AlreadyRunning(clone_chars(&self.matches[i].info.id)));
        }
        if find_name(&self.matches[i].info.connected, &name).is_some() {
            return Err(LobbyError::NameTaken(clone_chars(&self.matches[i].info.name)));
        }
        if !opt_chars_eq(&self.matches[i].password, &password) {
            return Err(LobbyError::WrongPassword);
        }
        let ghost oldmatches = self.matches@;
        let ghost oe = self.matches@[i as int];
        let mut entry = self.matches.remove(i);
        let ghost prevconn = entry.info.connected.deep_view();
        entry.info.connected.push(name);
        proof {
            assert(entry.info.connected.deep_view() =~~= prevconn.push(entry.info.connected@.last()@));
        }
        let started = entry.info.connected.len() as u64 + entry.info.bots == entry.info.players;
        if started {
            entry.info.running = true;
            entry.info.time = now_ms / 1000;
        } else {
            entry.info.time = deadline_after(now_ms) / 1000;
        }
        entry.expiration_ms = deadline_after(now_ms);
        let snapshot = entry.info.clone_info();
        let ghost ne = entry;
        self.matches.insert(i, entry);
        proof {
            assert(self.matches@ =~= oldmatches.update(i as int, ne));
            assert(names_unique(ne.info.connected.deep_view())) by {
                assert(forall|a: int| 0 <= a < prevconn.len()
                    ==> ne.info.connected.deep_view()[a] == prevconn[a]);
                assert(ne.info.connected.deep_view().last() == name@ ==> true);
            }
            assert(entry_wf(ne));
            lemma_update_keeps_distinct(oldmatches, self.matches@, i as int);
        }
        Ok((snapshot, started))
    }
}


/// The checks of a leave request against one match, in the order
/// they are applied.
pub open spec fn spec_leave_check(e: LobbyEntry, name: Seq<char>) -> Option<LobbyError> {
    if !e.info.connected.deep_view().contains(name) {
        Some(LobbyError::NotInMatch(e.info.name))
    } else if e.info.running {
        Some(LobbyError::AlreadyRunning(e.info.id))
    } else {
        None
    }
}

impl Lobby {
    /// Leaves a waiting match: removes the player's slot and extends
    /// the inactivity deadline.
    #[verifier::rlimit(100)]
    pub fn leave_match(
        &mut self,
        now_ms: u64,
        key: u64,
        name: &Vec<char>,
    ) -> (r: Result<(), LobbyError>)
        requires
            old(self).wf(),
        ensures
            final(self).wf(),
            final(self).admin_password == old(self).admin_password,
            !old(self).has_key(key) ==> (r matches Err(e)
                && spec_error_message(e) == "Game \""@ + match_id_chars(key) + "\" does not exists"@)
                && final(self).matches@ == old(self).matches@,
            forall|i: int| 0 <= i < old(self).matches@.len() && (#[trigger] old(self).matches@[i]).key == key
                ==> match spec_leave_check(old(self).matches@[i], name@) {
                    Some(e) => {
                        &&& r matches Err(e2) && spec_error_message(e2) == spec_error_message(e)
                        &&& final(self).matches@ == old(self).matches@
                    },
                    None => {
                        &&& r matches Ok(u)
                        &&& final(self).matches@.len() == old(self).matches@.len()
                        &&& forall|m: int| 0 <= m < old(self).matches@.len() && m != i
                            ==> final(self).matches@[m] == old(self).matches@[m]
                        &&& {
                            let oe = old(self).matches@[i];
                            let ne = final(self).matches@[i];
                            &&& ne.key == oe.key
                            &&& ne.info.id@ == oe.info.id@
                            &&& !ne.info.connected.deep_view().contains(name@)
                            &&& ne.info.connected@.len() + 1 == oe.info.connected@.len()
                            &&& forall|x: Seq<char>| x != name@
                                ==> (#[trigger] ne.info.connected.deep_view().contains(x)
                                    <==> oe.info.connected.deep_view().contains(x))
                            &&& !ne.info.running
                            &&& ne.expiration_ms == spec_deadline(now_ms)
                        }
                    },
                },
    {
        let i = match self.find(key) {
            Some(i) => i,
            None => {
                return Err(LobbyError::UnknownMatch(encode_match_id(key)));
            },
        };
        let w = match find_name(&self.matches[i].info.connected, name) {
            Some(w) => w,
            None => {
                return Err(LobbyError::NotInMatch(clone_chars(&self.matches[i].info.name)));
            },
        };
        if self.matches[i].info.running {
            return Err(LobbyError::AlreadyRunning(clone_chars(&self.matches[i].info.id)));
        }
        let ghost oldmatches = self.matches@;
        let ghost oe = self.matches@[i as int];
        let mut entry = self.matches.remove(i);
        let ghost prevconn = entry.info.connected.deep_view();
        entry.info.connected.remove(w);
        proof {
            assert(entry.info.connected.deep_view() =~~= prevconn.remove(w as int));
        }
        entry.expiration_ms = deadline_after(now_ms);
        entry.info.time = deadline_after(now_ms) / 1000;
        let ghost ne = entry;
        self.matches.insert(i, entry);
        proof {
            let newconn = ne.info.connected.deep_view();
            assert(self.matches@ =~= oldmatches.update(i as int, ne));
            assert(forall|a: int| 0 <= a < w ==> newconn[a] == prevconn[a]);
            assert(forall|a: int| w <= a < newconn.len() ==> newconn[a] == prevconn[a + 1]);
            assert forall|x: Seq<char>| x != name@
                implies (newconn.contains(x) <==> prevconn.contains(x)) by {
                if newconn.contains(x) {
                    let a = choose|a: int| 0 <= a < newconn.len() && newconn[a] == x;
                    if a < w {
                        assert(prevconn[a] == x);
                    } else {
                        assert(prevconn[a + 1] == x);
                    }
                }
                if prevconn.contains(x) {
                    let a = choose|a: int| 0 <= a < prevconn.len() && prevconn[a] == x;
                    assert(a != w);
                    if a < w {
                        assert(newconn[a] == x);
                    } else {
                        assert(newconn[a - 1] == x);
                    }
                }
            }
            assert(!newconn.contains(name@)) by {
                if newconn.contains(name@) {
                    let a = choose|a: int| 0 <= a < newconn.len() && newconn[a] == name@;
                    if a < w {
                        assert(prevconn[a] == name@);
                        assert(prevconn[w as int] == name@);
                    } else {
                        assert(prevconn[a + 1] == name@);
                        assert(prevconn[w as int] == name@);
                    }
                }
            }
            assert(names_unique(newconn));
            assert(entry_wf(ne));
            lemma_update_keeps_distinct(oldmatches, self.matches@, i as int);
        }
        Ok(())
    }

    /// Answers a spectate request: the match's current state and
    /// whether it is running, so the session can subscribe either to
    /// the play coordinator or to the match channel.
    pub fn spectate_match(&self, key: u64) -> (r: Result<(MatchInfo, bool), LobbyError>)
        requires
            self.wf(),
        ensures
            !self.has_key(key) ==> (r matches Err(e)
                && spec_error_message(e) == "Game \""@ + match_id_chars(key) + "\" does not exists"@),
            forall|i: int| 0 <= i < self.matches@.len() && (#[trigger] self.matches@[i]).key == key
                ==> (r matches Ok(p) && p.0@ == self.matches@[i].info@
                    && p.1 == self.matches@[i].info.running),
    {
        match self.find(key) {
            Some(i) => Ok((self.matches[i].info.clone_info(), self.matches[i].info.running)),
            None => Err(LobbyError::UnknownMatch(encode_match_id(key))),
        }
    }

    /// Removes a match from the directory; used when a game ends.
    pub fn delete_game(&mut self, key: u64) -> (r: bool)
        requires
            old(self).wf(),
        ensures
            final(self).wf(),
            final(self).admin_password == old(self).admin_password,
            r == old(self).has_key(key),
            !r ==> final(self).matches@ == old(self).matches@,
            r ==> forall|i: int| 0 <= i < old(self).matches@.len() && (#[trigger] old(self).matches@[i]).key == key
                ==> final(self).matches@ == old(self).matches@.remove(i),
            !final(self).has_key(key),
    {
        let ghost oldmatches = self.matches@;
        match self.find(key) {
            Some(i) => {
                self.matches.remove(i);
                proof {
                    assert(self.matches@ =~= oldmatches.remove(i as int));
                    assert(forall|a: int| 0 <= a < i ==> self.matches@[a] == oldmatches[a]);
                    assert(forall|a: int| i <= a < self.matches@.len() ==> self.matches@[a] == oldmatches[a + 1]);
                    assert forall|a: int, b: int| 0 <= a < b < self.matches@.len()
                        implies self.matches@[a].key != self.matches@[b].key
                            && self.matches@[a].info.id@ != self.matches@[b].info.id@ by {
                    }
                    assert(forall|i2: int| 0 <= i2 < self.matches@.len()
                        ==> entry_wf(#[trigger] self.matches@[i2]));
                    if self.has_key(key) {
                        let a = choose|a: int| 0 <= a < self.matches@.len() && self.matches@[a].key == key;
                        if a < i {
                            assert(oldmatches[a].key == key && oldmatches[i as int].key == key);
                        } else {
                            assert(oldmatches[a + 1].key == key && oldmatches[i as int].key == key);
                        }
                    }
                }
                true
            },
            None => false,
        }
    }

    /// Removes one player whose session is gone; unlike a leave this
    /// is allowed while the match runs and does not touch the
    /// deadline.
    #[verifier::rlimit(100)]
    pub fn remove_player(&mut self, key: u64, name: &Vec<char>) -> (r: bool)
        requires
            old(self).wf(),
        ensures
            final(self).wf(),
            final(self).admin_password == old(self).admin_password,
            !r ==> final(self).matches@ == old(self).matches@,
            forall|i: int| 0 <= i < old(self).matches@.len() && (#[trigger] old(self).matches@[i]).key == key
                ==> {
                    let oe = old(self).matches@[i];
                    if oe.info.connected.deep_view().contains(name@) {
                        &&& r
                        &&& final(self).matches@.len() == old(self).matches@.len()
                        &&& forall|m: int| 0 <= m < old(self).matches@.len() && m != i
                            ==> final(self).matches@[m] == old(self).matches@[m]
                        &&& {
                            let ne = final(self).matches@[i];
                            &&& ne.key == oe.key
                            &&& ne.info.id@ == oe.info.id@
                            &&& !ne.info.connected.deep_view().contains(name@)
                            &&& ne.info.connected@.len() + 1 == oe.info.connected@.len()
                            &&& ne.info.running == oe.info.running
                            &&& ne.expiration_ms == oe.expiration_ms
                        }
                    } else {
                        !r && final(self).matches@ == old(self).matches@
                    }
                },
    {
        let i = match self.find(key) {
            Some(i) => i,
            None => {
                return false;
            },
        };
        let w = match find_name(&self.matches[i].info.connected, name) {
            Some(w) => w,
            None => {
                return false;
            },
        };
        let ghost oldmatches = self.matches@;
        let mut entry = self.matches.remove(i);
        let ghost prevconn = entry.info.connected.deep_view();
        entry.info.connected.remove(w);
        proof {
            assert(entry.info.connected.deep_view() =~~= prevconn.remove(w as int));
        }
        let ghost ne = entry;
        self.matches.insert(i, entry);
        proof {
            let newconn = ne.info.connected.deep_view();
            assert(self.matches@ =~= oldmatches.update(i as int, ne));
            assert(forall|a: int| 0 <= a < w ==> newconn[a] == prevconn[a]);
            assert(forall|a: int| w <= a < newconn.len() ==> newconn[a] == prevconn[a + 1]);
            assert(!newconn.contains(name@)) by {
                if newconn.contains(name@) {
                    let a = choose|a: int| 0 <= a < newconn.len() && newconn[a] == name@;
                    if a < w {
                        assert(prevconn[a] == name@);
                        assert(prevconn[w as int] == name@);
                    } else {
                        assert(prevconn[a + 1] == name@);
                        assert(prevconn[w as int] == name@);
                    }
                }
            }
            assert(names_unique(newconn));
            assert(entry_wf(ne));
            lemma_update_keeps_distinct(oldmatches, self.matches@, i as int);
        }
        true
    }

    /// Records the current spectator count of a match.
    pub fn set_spectators(&mut self, key: u64, n: u64) -> (r: bool)
        requires
            old(self).wf(),
        ensures
            final(self).wf(),
            final(self).admin_password == old(self).admin_password,
            r == old(self).has_key(key),
            !r ==> final(self).matches@ == old(self).matches@,
            forall|i: int| 0 <= i < old(self).matches@.len() && (#[trigger] old(self).matches@[i]).key == key
                ==> {
                    &&& final(self).matches@.len() == old(self).matches@.len()
                    &&& forall|m: int| 0 <= m < old(self).matches@.len() && m != i
                        ==> final(self).matches@[m] == old(self).matches@[m]
                    &&& {
                        let oe = old(self).matches@[i];
                        let ne = final(self).matches@[i];
                        &&& ne.key == oe.key
                        &&& ne.info.spectators == n
                        &&& ne.info.connected == oe.info.connected
                        &&& ne.info.running == oe.info.running
                        &&& ne.info.id@ == oe.info.id@
                        &&& ne.expiration_ms == oe.expiration_ms
                    }
                },
    {
        let ghost oldmatches = self.matches@;
        let i = match self.find(key) {
            Some(i) => i,
            None => {
                return false;
            },
        };
        let mut entry = self.matches.remove(i);
        entry.info.spectators = n;
        let ghost ne = entry;
        self.matches.insert(i, entry);
        proof {
            assert(self.matches@ =~= oldmatches.update(i as int, ne));
            assert(entry_wf(ne));
            lemma_update_keeps_distinct(oldmatches, self.matches@, i as int);
        }
        true
    }
}


/// Whether the reaper keeps a match: running matches stay, waiting
/// matches stay until their deadline passes.
pub open spec fn keep_entry(e: LobbyEntry, now_ms: u64) -> bool {
    e.info.running || e.expiration_ms > now_ms
}

/// The entries the reaper keeps, in order.
pub open spec fn reap_kept(s: Seq<LobbyEntry>, now_ms: u64) -> Seq<LobbyEntry>
    decreases s.len(),
{
    if s.len() == 0 {
        Seq::empty()
    } else if keep_entry(s.last(), now_ms) {
        reap_kept(s.drop_last(), now_ms).push(s.last())
    } else {
        reap_kept(s.drop_last(), now_ms)
    }
}

/// The entries the reaper removes, in order.
pub open spec fn reap_dropped(s: Seq<LobbyEntry>, now_ms: u64) -> Seq<LobbyEntry>
    decreases s.len(),
{
    if s.len() == 0 {
        Seq::empty()
    } else if keep_entry(s.last(), now_ms) {
        reap_dropped(s.drop_last(), now_ms)
    } else {
        reap_dropped(s.drop_last(), now_ms).push(s.last())
    }
}

/// Everything the reaper keeps was there before.
proof fn lemma_reap_kept_sub(s: Seq<LobbyEntry>, now_ms: u64)
    ensures
        forall|x: LobbyEntry| #[trigger] reap_kept(s, now_ms).contains(x) ==> s.contains(x),
        reap_kept(s, now_ms).len() <= s.len(),
    decreases s.len(),
{
    if s.len() > 0 {
        lemma_reap_kept_sub(s.drop_last(), now_ms);
        assert forall|x: LobbyEntry| #[trigger] reap_kept(s, now_ms).contains(x)
            implies s.contains(x) by {
            let k = reap_kept(s, now_ms);
            let a = choose|a: int| 0 <= a < k.len() && k[a] == x;
            if keep_entry(s.last(), now_ms) && a == k.len() - 1 {
                assert(s[s.len() - 1] == x);
            } else {
                assert(reap_kept(s.drop_last(), now_ms).contains(x));
                let b = choose|b: int| 0 <= b < s.drop_last().len() && s.drop_last()[b] == x;
                assert(s[b] == x);
            }
        }
    }
}

impl Lobby {
    /// Removes every waiting match whose inactivity deadline has
    /// passed and returns their states for the delete notifications.
    #[verifier::rlimit(100)]
    pub fn reap(&mut self, now_ms: u64) -> (r: Vec<MatchInfo>)
        requires
            old(self).wf(),
        ensures
            final(self).wf(),
            final(self).admin_password == old(self).admin_password,
            final(self).matches@ == reap_kept(old(self).matches@, now_ms),
            r@.len() == reap_dropped(old(self).matches@, now_ms).len(),
            forall|i: int| 0 <= i < r@.len()
                ==> #[trigger] r@[i]@ == reap_dropped(old(self).matches@, now_ms)[i].info@,
            forall|i: int| 0 <= i < final(self).matches@.len()
                ==> keep_entry(#[trigger] final(self).matches@[i], now_ms),
    {
        let ghost olds = self.matches@;
        let mut tmp: Vec<LobbyEntry> = Vec::new();
        core::mem::swap(&mut self.matches, &mut tmp);
        let mut kept: Vec<LobbyEntry> = Vec::new();
        let mut dropped: Vec<MatchInfo> = Vec::new();
        let ghost total = olds.len();
        let n0 = tmp.len();
        let mut i: usize = 0;
        proof {
            assert(olds.take(0) =~= Seq::<LobbyEntry>::empty());
            assert(tmp@ =~= olds.skip(0));
            assert(olds.len() == n0);
        }
        while tmp.len() > 0
            invariant
                i <= olds.len(),
                olds.len() == n0,
                tmp@ == olds.skip(i as int),
                kept@ == reap_kept(olds.take(i as int), now_ms),
                dropped@.len() == reap_dropped(olds.take(i as int), now_ms).len(),
                forall|m: int| 0 <= m < dropped@.len()
                    ==> #[trigger] dropped@[m]@ == reap_dropped(olds.take(i as int), now_ms)[m].info@,
            decreases tmp@.len(),
        {
            proof {
                assert(tmp@.len() > 0);
                assert(i <= olds.len());
                assert(olds.skip(i as int).len() == olds.len() - i);
                assert(i < olds.len());
            }
            let e = tmp.remove(0);
            proof {
                assert(olds.skip(i as int)[0] == olds[i as int]);
                assert(e == olds[i as int]);
                assert(tmp@ =~= olds.skip(i + 1 as int)) by {
                    assert(tmp@ == olds.skip(i as int).remove(0));
                    assert(forall|m: int| 0 <= m < tmp@.len()
                        ==> tmp@[m] == olds.skip(i as int)[m + 1]);
                }
                assert(olds.take(i + 1 as int).drop_last() =~= olds.take(i as int));
                assert(olds.take(i + 1 as int).last() == olds[i as int]);
            }
            let keep = e.info.running || e.expiration_ms > now_ms;
            if keep {
                kept.push(e);
            } else {
                dropped.push(e.info.clone_info());
            }
            i = i + 1;
        }
        proof {
            assert(i == olds.len());
            assert(olds.take(i as int) =~= olds);
        }
        core::mem::swap(&mut self.matches, &mut kept);
        proof {
            lemma_reap_kept_sub(olds, now_ms);
            let news = self.matches@;
            assert forall|a: int| 0 <= a < news.len() implies entry_wf(#[trigger] news[a]) by {
                assert(news.contains(news[a]));
                assert(olds.contains(news[a]));
            }
            assert forall|a: int| 0 <= a < news.len()
                implies keep_entry(#[trigger] news[a], now_ms) by {
                lemma_reap_kept_keeps(olds, now_ms, a);
            }
            lemma_reap_kept_distinct(olds, now_ms);
        }
        dropped
    }
}

/// Every kept entry satisfies the keep condition.
proof fn lemma_reap_kept_keeps(s: Seq<LobbyEntry>, now_ms: u64, a: int)
    requires
        0 <= a < reap_kept(s, now_ms).len(),
    ensures
        keep_entry(reap_kept(s, now_ms)[a], now_ms),
    decreases s.len(),
{
    if s.len() > 0 {
        if keep_entry(s.last(), now_ms) && a == reap_kept(s, now_ms).len() - 1 {
        } else {
            lemma_reap_kept_keeps(s.drop_last(), now_ms, a);
        }
    }
}

/// The reaper keeps an in-order selection, so distinct keys and ids
/// stay distinct.
proof fn lemma_reap_kept_distinct(s: Seq<LobbyEntry>, now_ms: u64)
    requires
        forall|i: int, j: int| 0 <= i < j < s.len() ==> s[i].key != s[j].key,
        forall|i: int, j: int| 0 <= i < j < s.len() ==> s[i].info.id@ != s[j].info.id@,
    ensures
        forall|i: int, j: int| 0 <= i < j < reap_kept(s, now_ms).len()
            ==> reap_kept(s, now_ms)[i].key != reap_kept(s, now_ms)[j].key,
        forall|i: int, j: int| 0 <= i < j < reap_kept(s, now_ms).len()
            ==> reap_kept(s, now_ms)[i].info.id@ != reap_kept(s, now_ms)[j].info.id@,
    decreases s.len(),
{
    if s.len() > 0 {
        let sd = s.drop_last();
        assert(forall|i: int, j: int| 0 <= i < j < sd.len() ==> sd[i].key != sd[j].key);
        assert(forall|i: int, j: int| 0 <= i < j < sd.len() ==> sd[i].info.id@ != sd[j].info.id@);
        lemma_reap_kept_distinct(sd, now_ms);
        if keep_entry(s.last(), now_ms) {
            lemma_reap_kept_sub(sd, now_ms);
            let k = reap_kept(s, now_ms);
            let kd = reap_kept(sd, now_ms);
            assert forall|i: int, j: int| 0 <= i < j < k.len()
                implies k[i].key != k[j].key && k[i].info.id@ != k[j].info.id@ by {
                if j == k.len() - 1 {
                    assert(k[j] == s.last());
                    assert(kd.contains(kd[i]));
                    assert(sd.contains(kd[i]));
                    let w = choose|w: int| 0 <= w < sd.len() && sd[w] == kd[i];
                    assert(s[w] == kd[i]);
                    assert(s[w].key != s[s.len() - 1].key);
                    assert(s[w].info.id@ != s[s.len() - 1].info.id@);
                } else {
                    assert(k[i] == kd[i] && k[j] == kd[j]);
                }
            }
        }
    }
}


impl Lobby {
    /// The earliest inactivity deadline among waiting matches, for
    /// the reaper's timer.
    pub fn next_deadline(&self) -> (r: Option<u64>)
        ensures
            match r {
                Some(d) => {
                    &&& exists|i: int| 0 <= i < self.matches@.len()
                        && !(#[trigger] self.matches@[i]).info.running
                        && self.matches@[i].expiration_ms == d
                    &&& forall|i: int| 0 <= i < self.matches@.len()
                        && !(#[trigger] self.matches@[i]).info.running
                        ==> self.matches@[i].expiration_ms >= d
                },
                None => forall|i: int| 0 <= i < self.matches@.len()
                    ==> (#[trigger] self.matches@[i]).info.running,
            },
    {
        let mut best: Option<u64> = None;
        let mut i: usize = 0;
        while i < self.matches.len()
            invariant
                i <= self.matches@.len(),
                match best {
                    Some(d) => {
                        &&& exists|m: int| 0 <= m < i
                            && !(#[trigger] self.matches@[m]).info.running
                            && self.matches@[m].expiration_ms == d
                        &&& forall|m: int| 0 <= m < i
                            && !(#[trigger] self.matches@[m]).info.running
                            ==> self.matches@[m].expiration_ms >= d
                    },
                    None => forall|m: int| 0 <= m < i
                        ==> (#[trigger] self.matches@[m]).info.running,
                },
            decreases self.matches@.len() - i,
    {
            let e = &self.matches[i];
            if !e.info.running {
                match best {
                    Some(d) => {
                        if e.expiration_ms < d {
                            best = Some(e.expiration_ms);
                        }
                    },
                    None => {
                        best = Some(e.expiration_ms);
                    },
                }
            }
            i = i + 1;
        }
        best
    }
}

// ---------------------------------------------------------------------
// Laws
// ---------------------------------------------------------------------

/// Capacity law: in every well-formed lobby, each match has at most
/// as many connected players and bots as its capacity, and a waiting
/// match is strictly below it, so the counts can reach the capacity
/// only at the instant the match starts.
pub proof fn lemma_match_capacity(l: Lobby, i: int)
    requires
        l.wf(),
        0 <= i < l.matches@.len(),
    ensures
        l.matches@[i].info.connected@.len() + l.matches@[i].info.bots <= l.matches@[i].info.players,
        !l.matches@[i].info.running
            ==> l.matches@[i].info.connected@.len() + l.matches@[i].info.bots < l.matches@[i].info.players,
{
}

/// Identity law: in every well-formed lobby, distinct live matches
/// carry distinct id texts; since creation inserts only fresh ids,
/// starting any number of matches yields pairwise distinct ids.
pub proof fn lemma_live_ids_distinct(l: Lobby, i: int, j: int)
    requires
        l.wf(),
        0 <= i < l.matches@.len(),
        0 <= j < l.matches@.len(),
        i != j,
    ensures
        l.matches@[i].info.id@ != l.matches@[j].info.id@,
{
}

/// Visibility law: every live match, and in particular a newly
/// created one, appears in the snapshot handed to `LobbyList` and to
/// fresh subscribers, until it is deleted or reaped.
pub proof fn lemma_match_listed(l: Lobby, snapshot: Seq<MatchInfo>, i: int)
    requires
        l.wf(),
        0 <= i < l.matches@.len(),
        snapshot.len() == l.matches@.len(),
        forall|m: int| 0 <= m < snapshot.len() ==> #[trigger] snapshot[m]@ == l.matches@[m].info@,
    ensures
        exists|m: int| 0 <= m < snapshot.len()
            && (#[trigger] snapshot[m]@).id == l.matches@[i].info.id@,
{
    assert(snapshot[i]@.id == l.matches@[i].info.id@);
}

} // verus!

