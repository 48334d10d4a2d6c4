//! The rock-paper-scissors game's round logic.
//!
//! Each round both players submit a move within the timeout; the
//! round's outcome tells each side what the other played, and a
//! player who fails to answer retires in favour of the opponent.

use vstd::prelude::*;
use crate::json::{chars_eq, dec_u64, parse_u64, str_to_chars};

verus! {

/// The three moves.
#[derive(PartialEq, Eq, Structural, Clone, Copy, Debug)]
pub enum Throw {
    Rock,
    Paper,
    Scissors,
}

/// Parses a round's line: anything but the three moves counts as no
/// answer.
pub open spec fn spec_parse_throw(s: Seq<char>) -> Option<Throw> {
    if s == "ROCK"@ {
        Some(Throw::Rock)
    } else if s == "PAPER"@ {
        Some(Throw::Paper)
    } else if s == "SCISSORS"@ {
        Some(Throw::Scissors)
    } else {
        None
    }
}

/// Parses a round's line.
pub fn parse_throw(s: &Vec<char>) -> (r: Option<Throw>)
    ensures
        r == spec_parse_throw(s@),
{
    let kw = str_to_chars("ROCK");
    if chars_eq(s, &kw) {
        return Some(Throw::Rock);
    }
    let kw = str_to_chars("PAPER");
    if chars_eq(s, &kw) {
        return Some(Throw::Paper);
    }
    let kw = str_to_chars("SCISSORS");
    if chars_eq(s, &kw) {
        return Some(Throw::Scissors);
    }
    None
}

/// The text of a move.
pub open spec fn spec_throw_text(t: Throw) -> Seq<char> {
    match t {
        Throw::Rock => "ROCK"@,
        Throw::Paper => "PAPER"@,
        Throw::Scissors => "SCISSORS"@,
    }
}

/// The text of a move.
pub fn throw_text(t: Throw) -> (r: Vec<char>)
    ensures
        r@ == spec_throw_text(t),
{
    match t {
        Throw::Rock => str_to_chars("ROCK"),
        Throw::Paper => str_to_chars("PAPER"),
        Throw::Scissors => str_to_chars("SCISSORS"),
    }
}

/// Validates the rounds argument of a match creation: a whole
/// decimal number of rounds between one and the largest the game
/// accepts.
pub fn parse_rounds(v: &Vec<char>) -> (r: Option<u64>)
    ensures
        r == (match dec_u64(v@) {
            Some((n, rest)) => {
                if rest.len() == 0 && 1 <= n <= 9999 {
                    Some(n)
                } else {
                    None
                }
            },
            None => None,
        }),
        r matches Some(n) ==> 1 <= n <= 9999,
{
    proof {
        assert(v@.skip(0) =~= v@);
    }
    match parse_u64(v, 0) {
        Some((n, j)) => {
            if j == v.len() && 1 <= n && n <= 9999 {
                proof {
                    assert(v@.skip(j as int).len() == 0);
                }
                Some(n)
            } else {
                proof {
                    if j < v.len() {
                        assert(v@.skip(j as int).len() > 0);
                    }
                }
                None
            }
        },
        None => None,
    }
}

/// What one round decides.
pub struct RoundOutcome {
    /// Text for the first player, empty when nothing is owed.
    pub to_first: Vec<char>,
    /// Text for the second player, empty when nothing is owed.
    pub to_second: Vec<char>,
    /// Lines for the spectator stream, in order.
    pub to_spectators: Vec<Vec<char>>,
    /// Whether the match continues.
    pub go_on: bool,
}

/// Decides one round from both players' answers: each player is told
/// what the other played and the spectators see both lines in
/// submission order; a silent player retires in favour of the
/// opponent, ending the match, and the spectators see the retire in
/// the silent player's place.
pub fn round(first: Option<Throw>, second: Option<Throw>) -> (r: RoundOutcome)
    ensures
        match (first, second) {
            (Some(a), Some(b)) => {
                &&& r.to_first@ == spec_throw_text(b)
                &&& r.to_second@ == spec_throw_text(a)
                &&& r.to_spectators.deep_view() =~= seq![spec_throw_text(a), spec_throw_text(b)]
                &&& r.go_on
            },
            (None, Some(b)) => {
                &&& r.to_first@.len() == 0
                &&& r.to_second@ == "RETIRE"@
                &&& r.to_spectators.deep_view() =~= seq!["RETIRE"@, spec_throw_text(b)]
                &&& !r.go_on
            },
            (Some(a), None) => {
                &&& r.to_first@ == "RETIRE"@
                &&& r.to_second@.len() == 0
                &&& r.to_spectators.deep_view() =~= seq![spec_throw_text(a), "RETIRE"@]
                &&& !r.go_on
            },
            (None, None) => {
                &&& r.to_first@.len() == 0
                &&& r.to_second@.len() == 0
                &&& r.to_spectators.deep_view() =~= seq!["RETIRE"@, "RETIRE"@]
                &&& !r.go_on
            },
        },
{
    match (first, second) {
        (Some(a), Some(b)) => {
            let mut spect: Vec<Vec<char>> = Vec::new();
            spect.push(throw_text(a));
            spect.push(throw_text(b));
            proof {
                assert(spect.deep_view() =~~= seq![spec_throw_text(a), spec_throw_text(b)]);
            }
            RoundOutcome {
                to_first: throw_text(b),
                to_second: throw_text(a),
                to_spectators: spect,
                go_on: true,
            }
        },
        (None, Some(b)) => {
            let mut spect: Vec<Vec<char>> = Vec::new();
            spect.push(str_to_chars("RETIRE"));
            spect.push(throw_text(b));
            proof {
                assert(spect.deep_view() =~~= seq!["RETIRE"@, spec_throw_text(b)]);
            }
            RoundOutcome {
                to_first: Vec::new(),
                to_second: str_to_chars("RETIRE"),
                to_spectators: spect,
                go_on: false,
            }
        },
        (Some(a), None) => {
            let mut spect: Vec<Vec<char>> = Vec::new();
            spect.push(throw_text(a));
            spect.push(str_to_chars("RETIRE"));
            proof {
                assert(spect.deep_view() =~~= seq![spec_throw_text(a), "RETIRE"@]);
            }
            RoundOutcome {
                to_first: str_to_chars("RETIRE"),
                to_second: Vec::new(),
                to_spectators: spect,
                go_on: false,
            }
        },
        (None, None) => {
            let mut spect: Vec<Vec<char>> = Vec::new();
            spect.push(str_to_chars("RETIRE"));
            spect.push(str_to_chars("RETIRE"));
            proof {
                assert(spect.deep_view() =~~= seq!["RETIRE"@, "RETIRE"@]);
            }
            RoundOutcome {
                to_first: Vec::new(),
                to_second: Vec::new(),
                to_spectators: spect,
                go_on: false,
            }
        },
    }
}

} // verus!
