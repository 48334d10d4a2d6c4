//! Archive records of completed matches and their persisted form.
//!
//! A record is serialized to a canonical JSON descriptor; the parser
//! accepts exactly that canonical form, and a proved law states that
//! parsing inverts serialization, byte history included.  Archive ids
//! are restricted to ASCII alphanumerics to rule out path confusion.

use vstd::prelude::*;
use crate::json::{
    dec_byte_arr, dec_digits, dec_lit, dec_str, dec_str_arr, dec_str_map, dec_u64, enc_byte_arr,
    enc_str, enc_str_arr, enc_str_map, is_dec_digit, lemma_dec_enc_byte_arr, lemma_dec_enc_str,
    lemma_dec_enc_str_arr, lemma_dec_enc_str_map, lemma_dec_enc_u64, lemma_dec_lit, parse_byte_arr,
    parse_lit, parse_str, parse_str_arr, parse_str_map, parse_u64, push_byte_arr, push_chars,
    push_str_arr, push_str_lit, push_str_map, push_u64, str_to_chars,
};

verus! {

/// Everything stored about a completed match.
#[derive(Debug)]
pub struct MatchData {
    pub id: Vec<char>,
    pub game_name: Vec<char>,
    pub args: Vec<(Vec<char>, Vec<char>)>,
    pub players: Vec<Vec<char>>,
    pub bot_count: u32,
    pub history: Vec<u8>,
}

/// The mathematical model of a record.
pub struct SpecMatchData {
    pub id: Seq<char>,
    pub game_name: Seq<char>,
    pub args: Seq<(Seq<char>, Seq<char>)>,
    pub players: Seq<Seq<char>>,
    pub bot_count: u32,
    pub history: Seq<u8>,
}

impl View for MatchData {
    type V = SpecMatchData;

    open spec fn view(&self) -> SpecMatchData {
        SpecMatchData {
            id: self.id@,
            game_name: self.game_name@,
            args: self.args.deep_view(),
            players: self.players.deep_view(),
            bot_count: self.bot_count,
            history: self.history@,
        }
    }
}

/// Errors of the persistence layer.
#[derive(PartialEq, Eq, Structural, Clone, Copy, Debug)]
pub enum DatabaseError {
    FileNotFound,
    UnableToDeserialize,
    InvalidID,
}

// ---------------------------------------------------------------------
// Archive ids
// ---------------------------------------------------------------------

/// ASCII alphanumeric characters, the only ones allowed in archive
/// ids.
pub open spec fn is_ascii_alnum(c: char) -> bool {
    ('0' <= c && c <= '9') || ('a' <= c && c <= 'z') || ('A' <= c && c <= 'Z')
}

/// A valid archive id: nonempty and purely alphanumeric.
pub open spec fn valid_archive_id(id: Seq<char>) -> bool {
    id.len() > 0 && forall|m: int| 0 <= m < id.len() ==> is_ascii_alnum(id[m])
}

/// Checks an archive id before it is used in a filesystem path.
pub fn check_archive_id(id: &Vec<char>) -> (r: bool)
    ensures
        r == valid_archive_id(id@),
{
    if id.len() == 0 {
        return false;
    }
    let mut m: usize = 0;
    while m < id.len()
        invariant
            m <= id@.len(),
            forall|mm: int| 0 <= mm < m ==> is_ascii_alnum(id@[mm]),
        decreases id@.len() - m,
    {
        let c = id[m];
        if !(('0' <= c && c <= '9') || ('a' <= c && c <= 'z') || ('A' <= c && c <= 'Z')) {
            return false;
        }
        m = m + 1;
    }
    true
}

/// The path of a record's descriptor file below the storage root:
/// `<root>/<id>/descriptor.json`.
pub open spec fn spec_descriptor_path(root: Seq<char>, id: Seq<char>) -> Seq<char> {
    root + seq!['/'] + id + seq!['/'] + "descriptor.json"@
}

/// Builds the descriptor path of a valid archive id.
pub fn descriptor_path(root: &Vec<char>, id: &Vec<char>) -> (r: Vec<char>)
    requires
        valid_archive_id(id@),
    ensures
        r@ == spec_descriptor_path(root@, id@),
{
    let mut r: Vec<char> = Vec::new();
    push_chars(&mut r, root);
    r.push('/');
    push_chars(&mut r, id);
    r.push('/');
    let tail = str_to_chars("descriptor.json");
    push_chars(&mut r, &tail);
    proof {
        assert(r@ =~= spec_descriptor_path(root@, id@));
    }
    r
}

// ---------------------------------------------------------------------
// Descriptor codec
// ---------------------------------------------------------------------

/// The trailing half of a descriptor, from the player list on.
#[verifier::opaque]
pub open spec fn enc_match_data_tail(m: SpecMatchData) -> Seq<char> {
    let t12 = "}"@;
    let t11 = enc_byte_arr(m.history) + t12;
    let t10 = ",\"history\":"@ + t11;
    let t9 = dec_digits(m.bot_count as int) + t10;
    let t8 = ",\"bot_count\":"@ + t9;
    let t7 = enc_str_arr(m.players) + t8;
    ",\"players\":"@ + t7
}

/// The canonical JSON descriptor of a record, written as the chain
/// of suffixes the parser walks.
pub open spec fn enc_match_data(m: SpecMatchData) -> Seq<char> {
    let t6 = enc_match_data_tail(m);
    let t5 = enc_str_map(m.args) + t6;
    let t4 = ",\"args\":"@ + t5;
    let t3 = enc_str(m.game_name) + t4;
    let t2 = ",\"game_name\":"@ + t3;
    let t1 = enc_str(m.id) + t2;
    "{\"id\":"@ + t1
}

/// Parses a canonical descriptor and returns the remaining input.
pub open spec fn dec_match_data_part(s: Seq<char>) -> Option<(SpecMatchData, Seq<char>)> {
    match dec_lit(s, "{\"id\":"@) {
        None => None,
        Some(s) => match dec_str(s) {
            None => None,
            Some((id, s)) => match dec_lit(s, ",\"game_name\":"@) {
                None => None,
                Some(s) => match dec_str(s) {
                    None => None,
                    Some((game_name, s)) => match dec_lit(s, ",\"args\":"@) {
                        None => None,
                        Some(s) => match dec_str_map(s) {
                            None => None,
                            Some((args, s)) => match dec_lit(s, ",\"players\":"@) {
                                None => None,
                                Some(s) => match dec_str_arr(s) {
                                    None => None,
                                    Some((players, s)) => match dec_lit(s, ",\"bot_count\":"@) {
                                        None => None,
                                        Some(s) => match dec_u64(s) {
                                            None => None,
                                            Some((bot_count, s)) => {
                                                if bot_count > 0xffff_ffffu64 {
                                                    None
                                                } else {
                                                match dec_lit(s, ",\"history\":"@) {
                                                    None => None,
                                                    Some(s) => match dec_byte_arr(s) {
                                                        None => None,
                                                        Some((history, s)) => match dec_lit(s, "}"@) {
                                                            None => None,
                                                            Some(s) => Some((SpecMatchData {
                                                                id,
                                                                game_name,
                                                                args,
                                                                players,
                                                                bot_count: bot_count as u32,
                                                                history,
                                                            }, s)),
                                                        },
                                                    },
                                                }
                                                }
                                            },
                                        },
                                    },
                                },
                            },
                        },
                    },
                },
            },
        },
    }
}

/// Parses a canonical descriptor; the whole input must be consumed.
pub open spec fn dec_match_data(s: Seq<char>) -> Option<SpecMatchData> {
    match dec_match_data_part(s) {
        Some((m, rest)) => {
            if rest.len() == 0 {
                Some(m)
            } else {
                None
            }
        },
        None => None,
    }
}

/// Round trip: a record's canonical descriptor parses back to an
/// equal record whatever follows it; in particular the history
/// bytes are identical.
#[verifier::rlimit(100)]
pub proof fn lemma_dec_enc_match_data_part(m: SpecMatchData, rest: Seq<char>)
    ensures
        dec_match_data_part(enc_match_data(m) + rest) == Some((m, rest)),
{
    reveal(enc_match_data_tail);
    let t12 = "}"@ + rest;
    let t11 = enc_byte_arr(m.history) + t12;
    let t10 = ",\"history\":"@ + t11;
    let t9 = dec_digits(m.bot_count as int) + t10;
    let t8 = ",\"bot_count\":"@ + t9;
    let t7 = enc_str_arr(m.players) + t8;
    let t6 = ",\"players\":"@ + t7;
    assert(t6 =~= enc_match_data_tail(m) + rest);
    let t5 = enc_str_map(m.args) + t6;
    let t4 = ",\"args\":"@ + t5;
    let t3 = enc_str(m.game_name) + t4;
    let t2 = ",\"game_name\":"@ + t3;
    let t1 = enc_str(m.id) + t2;
    lemma_dec_lit("{\"id\":"@, t1);
    lemma_dec_enc_str(m.id, t2);
    lemma_dec_lit(",\"game_name\":"@, t3);
    lemma_dec_enc_str(m.game_name, t4);
    lemma_dec_lit(",\"args\":"@, t5);
    lemma_dec_enc_str_map(m.args, t6);
    lemma_dec_lit(",\"players\":"@, t7);
    lemma_dec_enc_str_arr(m.players, t8);
    lemma_dec_lit(",\"bot_count\":"@, t9);
    reveal_strlit(",\"history\":");
    assert(t10[0] == ',');
    assert(!is_dec_digit(','));
    lemma_dec_enc_u64(m.bot_count as u64, t10);
    lemma_dec_lit(",\"history\":"@, t11);
    lemma_dec_enc_byte_arr(m.history, t12);
    assert(t12 =~= "}"@ + rest);
    lemma_dec_lit("}"@, rest);
    assert(enc_match_data(m) + rest =~= "{\"id\":"@ + t1);
}

/// Round trip on a whole descriptor: parsing inverts serialization.
pub proof fn lemma_match_data_round_trip(m: SpecMatchData)
    ensures
        dec_match_data(enc_match_data(m)) == Some(m),
{
    lemma_dec_enc_match_data_part(m, Seq::<char>::empty());
    assert(enc_match_data(m) + Seq::<char>::empty() =~= enc_match_data(m));
}


impl MatchData {
    /// Appends the trailing half of the descriptor.
    #[verifier::rlimit(100)]
    fn forge_tail(&self, out: &mut Vec<char>)
        ensures
            final(out)@ == old(out)@ + enc_match_data_tail(self@),
    {
        let lit = str_to_chars(",\"players\":");
        push_chars(out, &lit);
        push_str_arr(out, &self.players);
        let lit = str_to_chars(",\"bot_count\":");
        push_chars(out, &lit);
        push_u64(out, self.bot_count as u64);
        let lit = str_to_chars(",\"history\":");
        push_chars(out, &lit);
        push_byte_arr(out, &self.history);
        out.push('}');
        proof {
            reveal(enc_match_data_tail);
            assert(seq!['}'] =~= "}"@) by {
                reveal_strlit("}");
            }
            assert(out@ =~= old(out)@ + enc_match_data_tail(self@));
        }
    }

    /// Serializes the record to its canonical JSON descriptor.
    #[verifier::rlimit(100)]
    pub fn forge(&self) -> (r: Vec<char>)
        ensures
            r@ == enc_match_data(self@),
    {
        let mut out: Vec<char> = Vec::new();
        let lit = str_to_chars("{\"id\":");
        push_chars(&mut out, &lit);
        push_str_lit(&mut out, &self.id);
        let lit = str_to_chars(",\"game_name\":");
        push_chars(&mut out, &lit);
        push_str_lit(&mut out, &self.game_name);
        let lit = str_to_chars(",\"args\":");
        push_chars(&mut out, &lit);
        push_str_map(&mut out, &self.args);
        self.forge_tail(&mut out);
        out
    }

    /// Parses a canonical JSON descriptor at index `i`.
    pub fn parse_part(s: &Vec<char>, i: usize) -> (r: Option<(MatchData, usize)>)
        requires
            i <= s@.len(),
        ensures
            match r {
                Some((m, j)) => {
                    &&& i <= j <= s@.len()
                    &&& dec_match_data_part(s@.skip(i as int)) == Some((m@, s@.skip(j as int)))
                },
                None => dec_match_data_part(s@.skip(i as int)) is None,
            },
    {
        let lit = str_to_chars("{\"id\":");
        let i = match parse_lit(s, i, &lit) {
            Some(i) => i,
            None => {
                return None;
            },
        };
        let (id, i) = match parse_str(s, i) {
            Some(x) => x,
            None => {
                return None;
            },
        };
        let lit = str_to_chars(",\"game_name\":");
        let i = match parse_lit(s, i, &lit) {
            Some(i) => i,
            None => {
                return None;
            },
        };
        let (game_name, i) = match parse_str(s, i) {
            Some(x) => x,
            None => {
                return None;
            },
        };
        let lit = str_to_chars(",\"args\":");
        let i = match parse_lit(s, i, &lit) {
            Some(i) => i,
            None => {
                return None;
            },
        };
        let (args, i) = match parse_str_map(s, i) {
            Some(x) => x,
            None => {
                return None;
            },
        };
        let lit = str_to_chars(",\"players\":");
        let i = match parse_lit(s, i, &lit) {
            Some(i) => i,
            None => {
                return None;
            },
        };
        let (players, i) = match parse_str_arr(s, i) {
            Some(x) => x,
            None => {
                return None;
            },
        };
        let lit = str_to_chars(",\"bot_count\":");
        let i = match parse_lit(s, i, &lit) {
            Some(i) => i,
            None => {
                return None;
            },
        };
        let (bot_count, i) = match parse_u64(s, i) {
            Some(x) => x,
            None => {
                return None;
            },
        };
        if bot_count > 0xffff_ffff {
            return None;
        }
        let lit = str_to_chars(",\"history\":");
        let i = match parse_lit(s, i, &lit) {
            Some(i) => i,
            None => {
                return None;
            },
        };
        let (history, i) = match parse_byte_arr(s, i) {
            Some(x) => x,
            None => {
                return None;
            },
        };
        let rest = str_to_chars("}");
        let i = match parse_lit(s, i, &rest) {
            Some(i) => i,
            None => {
                return None;
            },
        };
        Some((MatchData { id, game_name, args, players, bot_count: bot_count as u32, history }, i))
    }

    /// Parses a canonical JSON descriptor; the whole input must be
    /// consumed.
    pub fn parse(s: &Vec<char>) -> (r: Option<MatchData>)
        ensures
            match r {
                Some(m) => dec_match_data(s@) == Some(m@),
                None => dec_match_data(s@) is None,
            },
    {
        proof {
            assert(s@.skip(0) =~= s@);
        }
        match Self::parse_part(s, 0) {
            Some((m, j)) => {
                if j == s.len() {
                    proof {
                        assert(s@.skip(j as int).len() == 0);
                    }
                    Some(m)
                } else {
                    proof {
                        assert(s@.skip(j as int).len() > 0);
                    }
                    None
                }
            },
            None => None,
        }
    }
}

} // verus!
