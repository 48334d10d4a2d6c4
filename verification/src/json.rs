//! Canonical JSON text fragments over sequences of characters.
//!
//! Every wire message and archive descriptor of this crate is built from
//! the fragments here: quoted strings with escapes, decimal integers,
//! booleans and fixed literals.  Each encoder has a specification twin
//! producing the canonical character sequence, each parser a twin that
//! consumes exactly one fragment and returns the remaining suffix, and
//! round-trip lemmas connect the two.

use vstd::prelude::*;

verus! {

// ---------------------------------------------------------------------
// Digits
// ---------------------------------------------------------------------

/// The character for one decimal digit value.
pub open spec fn dec_char(d: int) -> char {
    if d == 0 { '0' }
    else if d == 1 { '1' }
    else if d == 2 { '2' }
    else if d == 3 { '3' }
    else if d == 4 { '4' }
    else if d == 5 { '5' }
    else if d == 6 { '6' }
    else if d == 7 { '7' }
    else if d == 8 { '8' }
    else { '9' }
}

/// The value of one decimal digit character, or -1.
pub open spec fn dec_val(c: char) -> int {
    if c == '0' { 0 }
    else if c == '1' { 1 }
    else if c == '2' { 2 }
    else if c == '3' { 3 }
    else if c == '4' { 4 }
    else if c == '5' { 5 }
    else if c == '6' { 6 }
    else if c == '7' { 7 }
    else if c == '8' { 8 }
    else if c == '9' { 9 }
    else { -1 }
}

pub open spec fn is_dec_digit(c: char) -> bool {
    dec_val(c) >= 0
}

/// The canonical (shortest) decimal digit string of a natural number.
pub open spec fn dec_digits(n: int) -> Seq<char>
    decreases n,
{
    if n < 10 {
        seq![dec_char(n)]
    } else {
        dec_digits(n / 10).push(dec_char(n % 10))
    }
}

/// The value of a digit string.
pub open spec fn digits_val(s: Seq<char>) -> int
    decreases s.len(),
{
    if s.len() == 0 {
        0
    } else {
        digits_val(s.drop_last()) * 10 + dec_val(s.last())
    }
}

/// The character for one lowercase hexadecimal digit value.
pub open spec fn hex_char(d: int) -> char {
    if d < 10 { dec_char(d) }
    else if d == 10 { 'a' }
    else if d == 11 { 'b' }
    else if d == 12 { 'c' }
    else if d == 13 { 'd' }
    else if d == 14 { 'e' }
    else { 'f' }
}

/// The value of one lowercase hexadecimal digit character, or -1.
pub open spec fn hex_val(c: char) -> int {
    if c == 'a' { 10 }
    else if c == 'b' { 11 }
    else if c == 'c' { 12 }
    else if c == 'd' { 13 }
    else if c == 'e' { 14 }
    else if c == 'f' { 15 }
    else { dec_val(c) }
}

/// Digit characters as executable values.
pub fn dec_char_of(d: u64) -> (c: char)
    requires
        d < 10,
    ensures
        c == dec_char(d as int),
{
    if d == 0 { '0' }
    else if d == 1 { '1' }
    else if d == 2 { '2' }
    else if d == 3 { '3' }
    else if d == 4 { '4' }
    else if d == 5 { '5' }
    else if d == 6 { '6' }
    else if d == 7 { '7' }
    else if d == 8 { '8' }
    else { '9' }
}

/// Digit values as executable results; 10 stands for "not a digit".
pub fn dec_val_of(c: char) -> (d: i8)
    ensures
        d >= 0 ==> d == dec_val(c),
        d < 0 ==> dec_val(c) == -1,
{
    if c == '0' { 0 }
    else if c == '1' { 1 }
    else if c == '2' { 2 }
    else if c == '3' { 3 }
    else if c == '4' { 4 }
    else if c == '5' { 5 }
    else if c == '6' { 6 }
    else if c == '7' { 7 }
    else if c == '8' { 8 }
    else if c == '9' { 9 }
    else { -1 }
}

fn hex_char_of(d: u32) -> (c: char)
    requires
        d < 16,
    ensures
        c == hex_char(d as int),
{
    if d < 10 { dec_char_of(d as u64) }
    else if d == 10 { 'a' }
    else if d == 11 { 'b' }
    else if d == 12 { 'c' }
    else if d == 13 { 'd' }
    else if d == 14 { 'e' }
    else { 'f' }
}

fn hex_val_of(c: char) -> (d: i8)
    ensures
        d >= 0 ==> d == hex_val(c),
        d < 0 ==> hex_val(c) == -1,
{
    if c == 'a' { 10 }
    else if c == 'b' { 11 }
    else if c == 'c' { 12 }
    else if c == 'd' { 13 }
    else if c == 'e' { 14 }
    else if c == 'f' { 15 }
    else { dec_val_of(c) }
}

// ---------------------------------------------------------------------
// Unsigned integers
// ---------------------------------------------------------------------

/// Appends the canonical decimal digits of `n`.
pub fn push_u64(out: &mut Vec<char>, n: u64)
    ensures
        final(out)@ == old(out)@ + dec_digits(n as int),
{
    // Collect digits least-significant first, then copy them reversed.
    let mut tmp: Vec<char> = Vec::new();
    let mut m: u64 = n;
    while m >= 10
        invariant
            dec_digits(n as int) == dec_digits(m as int) + tmp@.reverse(),
        decreases m,
    {
        let d = dec_char_of(m % 10);
        tmp.push(d);
        proof {
            assert(tmp@.reverse() =~= seq![d] + tmp@.drop_last().reverse());
            assert(dec_digits(m as int) == dec_digits(m as int / 10).push(dec_char(m as int % 10)));
            assert(dec_digits(m as int / 10).push(d) + tmp@.drop_last().reverse()
                =~= dec_digits(m as int / 10) + tmp@.reverse());
        }
        m = m / 10;
    }
    let d = dec_char_of(m);
    tmp.push(d);
    proof {
        assert(tmp@.reverse() =~= seq![d] + tmp@.drop_last().reverse());
        assert(dec_digits(m as int) == seq![dec_char(m as int)]);
        assert(dec_digits(n as int) =~= tmp@.reverse());
    }
    let ghost base = out@;
    let mut k: usize = tmp.len();
    while k > 0
        invariant
            k <= tmp@.len(),
            out@ == base + tmp@.reverse().take(tmp@.len() - k),
            tmp@.reverse() == dec_digits(n as int),
        decreases k,
    {
        let c = tmp[k - 1];
        out.push(c);
        proof {
            assert(tmp@.reverse()[tmp@.len() - k] == tmp@[k - 1]);
            assert(tmp@.reverse().take(tmp@.len() - (k - 1) as int)
                =~= tmp@.reverse().take(tmp@.len() - k).push(tmp@[k - 1]));
        }
        k = k - 1;
    }
    proof {
        assert(tmp@.reverse().take(tmp@.len() as int) =~= tmp@.reverse());
    }
}

// ---------------------------------------------------------------------
// Characters from code points
// ---------------------------------------------------------------------

/// The character with a given ASCII code point.
pub open spec fn char_of(v: int) -> char {
    (v as u8) as char
}

/// Characters with the same code point are the same character.
pub proof fn lemma_char_inj(a: char, b: char)
    requires
        a as u32 == b as u32,
    ensures
        a == b,
{
}

// ---------------------------------------------------------------------
// String escaping
// ---------------------------------------------------------------------

/// The canonical escape sequence of one character inside a JSON string.
pub open spec fn esc_char(c: char) -> Seq<char> {
    if c == '"' {
        seq!['\\', '"']
    } else if c == '\\' {
        seq!['\\', '\\']
    } else if (c as u32) < 32 {
        seq!['\\', 'u', '0', '0', hex_char((c as u32) as int / 16), hex_char((c as u32) as int % 16)]
    } else {
        seq![c]
    }
}

/// The canonical escaped body of a JSON string.
pub open spec fn esc_str(s: Seq<char>) -> Seq<char>
    decreases s.len(),
{
    if s.len() == 0 {
        Seq::empty()
    } else {
        esc_char(s[0]) + esc_str(s.drop_first())
    }
}

/// The canonical JSON string literal of a character sequence.
pub open spec fn enc_str(s: Seq<char>) -> Seq<char> {
    seq!['"'] + esc_str(s) + seq!['"']
}

pub proof fn lemma_esc_str_push(s: Seq<char>, c: char)
    ensures
        esc_str(s.push(c)) == esc_str(s) + esc_char(c),
    decreases s.len(),
{
    if s.len() == 0 {
        assert(s.push(c)[0] == c);
        assert(s.push(c).drop_first() =~= Seq::<char>::empty());
        assert(esc_str(s.push(c)) == esc_char(c) + esc_str(Seq::<char>::empty()));
        assert(esc_char(c) + Seq::<char>::empty() =~= esc_char(c));
        assert(esc_str(s) + esc_char(c) =~= esc_char(c));
    } else {
        assert(s.push(c).drop_first() =~= s.drop_first().push(c));
        lemma_esc_str_push(s.drop_first(), c);
        assert(s.push(c)[0] == s[0]);
        assert(esc_str(s.push(c)) == esc_char(s[0]) + (esc_str(s.drop_first()) + esc_char(c)));
        assert(esc_char(s[0]) + (esc_str(s.drop_first()) + esc_char(c))
            =~= (esc_char(s[0]) + esc_str(s.drop_first())) + esc_char(c));
    }
}

/// Appends the canonical JSON string literal of `s`, quotes included.
pub fn push_str_lit(out: &mut Vec<char>, s: &Vec<char>)
    ensures
        final(out)@ == old(out)@ + enc_str(s@),
{
    let ghost base = out@;
    out.push('"');
    let mut i: usize = 0;
    while i < s.len()
        invariant
            i <= s@.len(),
            out@ == base + seq!['"'] + esc_str(s@.take(i as int)),
        decreases s@.len() - i,
    {
        let c = s[i];
        if c == '"' {
            out.push('\\');
            out.push('"');
        } else if c == '\\' {
            out.push('\\');
            out.push('\\');
        } else if (c as u32) < 32 {
            out.push('\\');
            out.push('u');
            out.push('0');
            out.push('0');
            out.push(hex_char_of((c as u32) / 16));
            out.push(hex_char_of((c as u32) % 16));
        } else {
            out.push(c);
        }
        proof {
            lemma_esc_str_push(s@.take(i as int), c);
            assert(s@.take(i + 1 as int) =~= s@.take(i as int).push(c));
            assert(out@ =~= base + seq!['"'] + esc_str(s@.take(i + 1 as int)));
        }
        i = i + 1;
    }
    out.push('"');
    proof {
        assert(s@.take(s@.len() as int) =~= s@);
        assert(out@ =~= base + enc_str(s@));
    }
}

// ---------------------------------------------------------------------
// String parsing
// ---------------------------------------------------------------------

/// Parses the body of a JSON string up to and including the closing
/// quote; accepts exactly the escapes the encoder emits.
pub open spec fn dec_str_body(s: Seq<char>) -> Option<(Seq<char>, Seq<char>)>
    decreases s.len(),
{
    if s.len() == 0 {
        None
    } else if s[0] == '"' {
        Some((Seq::empty(), s.drop_first()))
    } else if s[0] == '\\' {
        if s.len() >= 2 && (s[1] == '"' || s[1] == '\\') {
            match dec_str_body(s.skip(2)) {
                Some((v, r)) => Some((seq![s[1]] + v, r)),
                None => None,
            }
        } else if s.len() >= 6 && s[1] == 'u' && s[2] == '0' && s[3] == '0'
            && 0 <= hex_val(s[4]) < 2 && 0 <= hex_val(s[5]) {
            match dec_str_body(s.skip(6)) {
                Some((v, r)) => Some((seq![char_of(hex_val(s[4]) * 16 + hex_val(s[5]))] + v, r)),
                None => None,
            }
        } else {
            None
        }
    } else if (s[0] as u32) >= 32 {
        match dec_str_body(s.drop_first()) {
            Some((v, r)) => Some((seq![s[0]] + v, r)),
            None => None,
        }
    } else {
        None
    }
}

/// Parses a complete JSON string literal.
pub open spec fn dec_str(s: Seq<char>) -> Option<(Seq<char>, Seq<char>)> {
    if s.len() >= 1 && s[0] == '"' {
        dec_str_body(s.drop_first())
    } else {
        None
    }
}

/// Parsing inverts escaping: the body parser maps an escaped string
/// followed by the closing quote back to the original characters.
pub proof fn lemma_dec_esc_str(v: Seq<char>, rest: Seq<char>)
    ensures
        dec_str_body(esc_str(v) + seq!['"'] + rest) == Some((v, rest)),
    decreases v.len(),
{
    let s = esc_str(v) + seq!['"'] + rest;
    if v.len() == 0 {
        assert(esc_str(v) =~= Seq::<char>::empty());
        assert(s =~= seq!['"'] + rest);
        assert(s[0] == '"');
        assert(s.drop_first() =~= rest);
        assert(dec_str_body(s) == Some((Seq::<char>::empty(), rest)));
        assert(Seq::<char>::empty() =~= v);
    } else {
        let c = v[0];
        let v1 = v.drop_first();
        lemma_dec_esc_str(v1, rest);
        let tail = esc_str(v1) + seq!['"'] + rest;
        assert(esc_str(v) == esc_char(c) + esc_str(v1));
        assert(s =~= esc_char(c) + tail);
        if c == '"' {
            assert(s[0] == '\\' && s[1] == '"');
            assert(s.skip(2) =~= tail);
            assert(seq![s[1]] + v1 =~= v);
        } else if c == '\\' {
            assert(s[0] == '\\' && s[1] == '\\');
            assert(s.skip(2) =~= tail);
            assert(seq![s[1]] + v1 =~= v);
        } else if (c as u32) < 32 {
            let hi = (c as u32) as int / 16;
            let lo = (c as u32) as int % 16;
            assert(s[0] == '\\' && s[1] == 'u' && s[2] == '0' && s[3] == '0');
            assert(s[4] == hex_char(hi) && s[5] == hex_char(lo));
            assert(hex_val(hex_char(hi)) == hi);
            assert(hex_val(hex_char(lo)) == lo);
            assert(s.skip(6) =~= tail);
            let code = hi * 16 + lo;
            assert(0 <= code < 32);
            assert((code as u8) as u32 == code);
            assert(char_of(code) as u32 == code);
            assert(char_of(code) as u32 == c as u32);
            lemma_char_inj(char_of(code), c);
            assert(seq![char_of(hex_val(s[4]) * 16 + hex_val(s[5]))] + v1 =~= v);
        } else {
            assert(s[0] == c);
            assert(s.drop_first() =~= tail);
            assert(seq![s[0]] + v1 =~= v);
        }
    }
}

/// Parsing inverts encoding for complete string literals.
pub proof fn lemma_dec_enc_str(v: Seq<char>, rest: Seq<char>)
    ensures
        dec_str(enc_str(v) + rest) == Some((v, rest)),
{
    let s = enc_str(v) + rest;
    assert(s[0] == '"');
    assert(s.drop_first() =~= esc_str(v) + seq!['"'] + rest);
    lemma_dec_esc_str(v, rest);
}

/// Parses a JSON string literal starting at index `i`.
pub fn parse_str(s: &Vec<char>, i: usize) -> (r: Option<(Vec<char>, usize)>)
    requires
        i <= s@.len(),
    ensures
        match r {
            Some((v, j)) => {
                &&& i <= j <= s@.len()
                &&& dec_str(s@.skip(i as int)) == Some((v@, s@.skip(j as int)))
            },
            None => dec_str(s@.skip(i as int)) is None,
        },
{
    if i >= s.len() || s[i] != '"' {
        if i < s.len() {
            proof {
                assert(s@.skip(i as int)[0] == s@[i as int]);
            }
        } else {
            proof {
                assert(s@.skip(i as int).len() == 0);
            }
        }
        return None;
    }
    let ghost body0 = s@.skip(i + 1 as int);
    proof {
        assert(s@.skip(i as int)[0] == '"');
        assert(s@.skip(i as int).drop_first() =~= body0);
    }
    let mut res: Vec<char> = Vec::new();
    let mut j: usize = i + 1;
    loop
        invariant
            i + 1 <= j <= s@.len(),
            dec_str(s@.skip(i as int)) == dec_str_body(body0),
            dec_str_body(body0) == (match dec_str_body(s@.skip(j as int)) {
                Some((v, r)) => Some((res@ + v, r)),
                None => None::<(Seq<char>, Seq<char>)>,
            }),
        decreases s@.len() - j,
    {
        if j >= s.len() {
            proof {
                assert(s@.skip(j as int).len() == 0);
            }
            return None;
        }
        let c = s[j];
        proof {
            assert(s@.skip(j as int)[0] == c);
        }
        if c == '"' {
            proof {
                assert(s@.skip(j as int).drop_first() =~= s@.skip(j + 1 as int));
                assert(res@ + Seq::<char>::empty() =~= res@);
            }
            return Some((res, j + 1));
        } else if c == '\\' {
            if j + 1 >= s.len() {
                proof {
                    assert(s@.skip(j as int).len() == 1);
                }
                return None;
            }
            let c2 = s[j + 1];
            proof {
                assert(s@.skip(j as int)[1] == c2);
            }
            if c2 == '"' || c2 == '\\' {
                let ghost prev = res@;
                res.push(c2);
                proof {
                    assert(s@.skip(j as int).skip(2) =~= s@.skip(j + 2 as int));
                    assert forall|v: Seq<char>| prev + (seq![c2] + v) =~= res@ + v by {}
                    assert(dec_str_body(body0) == (match dec_str_body(s@.skip(j + 2 as int)) {
                        Some((v, r)) => Some((res@ + v, r)),
                        None => None::<(Seq<char>, Seq<char>)>,
                    }));
                }
                j = j + 2;
            } else if c2 == 'u' && s.len() - j > 5 && s[j + 2] == '0' && s[j + 3] == '0' {
                let h1 = hex_val_of(s[j + 4]);
                let h2 = hex_val_of(s[j + 5]);
                proof {
                    assert(s@.skip(j as int)[2] == s@[j + 2 as int]);
                    assert(s@.skip(j as int)[3] == s@[j + 3 as int]);
                    assert(s@.skip(j as int)[4] == s@[j + 4 as int]);
                    assert(s@.skip(j as int)[5] == s@[j + 5 as int]);
                    assert(s@.skip(j as int).len() >= 6);
                }
                if h1 < 0 || h1 >= 2 || h2 < 0 {
                    return None;
                }
                let code: u8 = (h1 as u8) * 16 + (h2 as u8);
                let nc: char = code as char;
                let ghost prev = res@;
                res.push(nc);
                proof {
                    let sj = s@.skip(j as int);
                    assert(nc == char_of(hex_val(sj[4]) * 16 + hex_val(sj[5])));
                    assert(s@.skip(j as int).skip(6) =~= s@.skip(j + 6 as int));
                    assert forall|v: Seq<char>| prev + (seq![nc] + v) =~= res@ + v by {}
                    assert(dec_str_body(body0) == (match dec_str_body(s@.skip(j + 6 as int)) {
                        Some((v, r)) => Some((res@ + v, r)),
                        None => None::<(Seq<char>, Seq<char>)>,
                    }));
                }
                j = j + 6;
            } else {
                proof {
                    let sj = s@.skip(j as int);
                    if sj.len() >= 6 && sj[1] == 'u' && sj[2] == '0' && sj[3] == '0' {
                        assert(sj[4] == s@[j + 4 as int]);
                        assert(sj[5] == s@[j + 5 as int]);
                    }
                }
                return None;
            }
        } else if (c as u32) >= 32 {
            let ghost prev = res@;
            res.push(c);
            proof {
                assert(s@.skip(j as int).drop_first() =~= s@.skip(j + 1 as int));
                assert forall|v: Seq<char>| prev + (seq![c] + v) =~= res@ + v by {}
                assert(dec_str_body(body0) == (match dec_str_body(s@.skip(j + 1 as int)) {
                    Some((v, r)) => Some((res@ + v, r)),
                    None => None::<(Seq<char>, Seq<char>)>,
                }));
            }
            j = j + 1;
        } else {
            return None;
        }
    }
}


// ---------------------------------------------------------------------
// Unsigned integer parsing
// ---------------------------------------------------------------------

/// Length of the leading run of decimal digits.
pub open spec fn digit_run(s: Seq<char>) -> int
    decreases s.len(),
{
    if s.len() == 0 || !is_dec_digit(s[0]) {
        0
    } else {
        1 + digit_run(s.drop_first())
    }
}

/// Parses a canonical decimal `u64`: a maximal digit run without a
/// leading zero whose value fits in 64 bits.
pub open spec fn dec_u64(s: Seq<char>) -> Option<(u64, Seq<char>)> {
    let k = digit_run(s);
    let ds = s.take(k);
    if k == 0 {
        None
    } else if ds[0] == '0' && k > 1 {
        None
    } else if digits_val(ds) > u64::MAX {
        None
    } else {
        Some((digits_val(ds) as u64, s.skip(k)))
    }
}

pub proof fn lemma_digit_run_exact(s: Seq<char>, k: int)
    requires
        0 <= k <= s.len(),
        forall|m: int| 0 <= m < k ==> is_dec_digit(s[m]),
        k == s.len() || !is_dec_digit(s[k]),
    ensures
        digit_run(s) == k,
    decreases k,
{
    if k == 0 {
    } else {
        assert(is_dec_digit(s[0]));
        lemma_digit_run_exact(s.drop_first(), k - 1);
    }
}

pub proof fn lemma_digits_val_take_succ(s: Seq<char>, m: int)
    requires
        0 <= m < s.len(),
    ensures
        digits_val(s.take(m + 1)) == digits_val(s.take(m)) * 10 + dec_val(s[m]),
{
    assert(s.take(m + 1).drop_last() =~= s.take(m));
    assert(s.take(m + 1).last() == s[m]);
}

pub proof fn lemma_digits_val_nonneg(s: Seq<char>)
    requires
        forall|m: int| 0 <= m < s.len() ==> is_dec_digit(s[m]),
    ensures
        digits_val(s) >= 0,
    decreases s.len(),
{
    if s.len() > 0 {
        assert(forall|m: int| 0 <= m < s.drop_last().len() ==> s.drop_last()[m] == s[m]);
        lemma_digits_val_nonneg(s.drop_last());
        assert(is_dec_digit(s.last()));
    }
}

pub proof fn lemma_digits_val_mono(s: Seq<char>, m: int)
    requires
        forall|k: int| 0 <= k < s.len() ==> is_dec_digit(s[k]),
        0 <= m <= s.len(),
    ensures
        digits_val(s.take(m)) <= digits_val(s),
    decreases s.len() - m,
{
    if m == s.len() {
        assert(s.take(m) =~= s);
    } else {
        lemma_digits_val_take_succ(s, m);
        assert(forall|k: int| 0 <= k < s.take(m).len() ==> is_dec_digit(s.take(m)[k]));
        lemma_digits_val_nonneg(s.take(m));
        assert(digits_val(s.take(m)) * 10 + dec_val(s[m]) >= digits_val(s.take(m))) by (nonlinear_arith)
            requires
                digits_val(s.take(m)) >= 0,
                dec_val(s[m]) >= 0,
        {}
        lemma_digits_val_mono(s, m + 1);
    }
}

/// The canonical digits of a number evaluate back to it, are all
/// digits, and carry no leading zero.
pub proof fn lemma_dec_digits_facts(n: int)
    requires
        n >= 0,
    ensures
        dec_digits(n).len() >= 1,
        forall|m: int| 0 <= m < dec_digits(n).len() ==> is_dec_digit(dec_digits(n)[m]),
        digits_val(dec_digits(n)) == n,
        n >= 1 ==> dec_val(dec_digits(n)[0]) >= 1,
        n < 10 ==> dec_digits(n).len() == 1,
    decreases n,
{
    if n < 10 {
        let ds = dec_digits(n);
        assert(ds =~= seq![dec_char(n)]);
        assert(ds.drop_last() =~= Seq::<char>::empty());
        assert(digits_val(ds) == digits_val(Seq::<char>::empty()) * 10 + dec_val(dec_char(n)));
    } else {
        lemma_dec_digits_facts(n / 10);
        let p = dec_digits(n / 10);
        let ds = dec_digits(n);
        assert(ds == p.push(dec_char(n % 10)));
        assert(ds.drop_last() =~= p);
        assert(ds.last() == dec_char(n % 10));
        assert(digits_val(ds) == digits_val(p) * 10 + dec_val(dec_char(n % 10)));
        assert(0 <= n % 10 < 10 && n == 10 * (n / 10) + n % 10) by (nonlinear_arith)
            requires
                n >= 10,
        {}
        assert(forall|m: int| 0 <= m < p.len() ==> ds[m] == p[m]);
        assert(ds[0] == p[0]);
    }
}

/// Parsing inverts encoding for decimal numbers, as long as no digit
/// follows directly.
pub proof fn lemma_dec_enc_u64(n: u64, rest: Seq<char>)
    requires
        rest.len() == 0 || !is_dec_digit(rest[0]),
    ensures
        dec_u64(dec_digits(n as int) + rest) == Some((n, rest)),
{
    lemma_dec_digits_facts(n as int);
    let ds = dec_digits(n as int);
    let s = ds + rest;
    assert(forall|m: int| 0 <= m < ds.len() ==> s[m] == ds[m]);
    if rest.len() > 0 {
        assert(s[ds.len() as int] == rest[0]);
    }
    lemma_digit_run_exact(s, ds.len() as int);
    assert(s.take(ds.len() as int) =~= ds);
    assert(s.skip(ds.len() as int) =~= rest);
    if n >= 1 {
        assert(dec_val(ds[0]) >= 1);
        assert(ds[0] != '0');
    }
}

/// Whether a character is a decimal digit.
pub fn is_digit(c: char) -> (r: bool)
    ensures
        r == is_dec_digit(c),
{
    dec_val_of(c) >= 0
}

/// Parses a canonical decimal `u64` starting at index `i`.
pub fn parse_u64(s: &Vec<char>, i: usize) -> (r: Option<(u64, usize)>)
    requires
        i <= s@.len(),
    ensures
        match r {
            Some((v, j)) => {
                &&& i <= j <= s@.len()
                &&& dec_u64(s@.skip(i as int)) == Some((v, s@.skip(j as int)))
            },
            None => dec_u64(s@.skip(i as int)) is None,
        },
{
    let ghost s0 = s@.skip(i as int);
    let mut k: usize = i;
    while k < s.len() && is_digit(s[k])
        invariant
            i <= k <= s@.len(),
            s0 == s@.skip(i as int),
            forall|m: int| i <= m < k ==> is_dec_digit(s@[m]),
        decreases s@.len() - k,
    {
        k = k + 1;
    }
    proof {
        assert(forall|m: int| 0 <= m < s0.len() ==> s0[m] == s@[i + m]);
        assert(k < s@.len() ==> !is_dec_digit(s0[k - i]));
        lemma_digit_run_exact(s0, k - i);
    }
    let ghost run = (k - i) as int;
    let ghost ds = s0.take(run);
    if k == i {
        return None;
    }
    proof {
        assert(ds[0] == s@[i as int]);
        assert(forall|m: int| 0 <= m < ds.len() ==> is_dec_digit(ds[m]));
    }
    if s[i] == '0' && k - i > 1 {
        return None;
    }
    let mut val: u64 = 0;
    let mut m: usize = i;
    proof {
        assert(s0.take(0) =~= Seq::<char>::empty());
    }
    while m < k
        invariant
            i <= m <= k <= s@.len(),
            s0 == s@.skip(i as int),
            ds == s0.take(run),
            run == k - i,
            digit_run(s0) == run,
            run > 0,
            !(ds[0] == '0' && run > 1),
            forall|mm: int| 0 <= mm < ds.len() ==> is_dec_digit(ds[mm]),
            forall|mm: int| i <= mm < k ==> is_dec_digit(s@[mm]),
            forall|mm: int| 0 <= mm < s0.len() ==> s0[mm] == s@[i + mm],
            val == digits_val(s0.take(m - i)),
        decreases k - m,
    {
        let d8 = dec_val_of(s[m]);
        proof {
            assert(is_dec_digit(s@[m as int]));
        }
        let d: u64 = d8 as u64;
        proof {
            assert(s0.take(m - i) =~= ds.take(m - i));
            lemma_digits_val_nonneg(ds.take(m - i));
        }
        if val > (u64::MAX - d) / 10 {
            proof {
                lemma_digits_val_take_succ(s0, m - i);
                assert(s0[m - i] == s@[m as int]);
                vstd::arithmetic::div_mod::lemma_fundamental_div_mod((u64::MAX - d) as int, 10);
                assert(val * 10 + d > u64::MAX) by (nonlinear_arith)
                    requires
                        val > (u64::MAX - d) as int / 10,
                        (u64::MAX - d) as int == 10 * ((u64::MAX - d) as int / 10) + (u64::MAX - d) as int % 10,
                        0 <= (u64::MAX - d) as int % 10 < 10,
                {}
                assert(digits_val(s0.take(m - i + 1)) > u64::MAX);
                assert(s0.take(m - i + 1) =~= ds.take(m - i + 1));
                lemma_digits_val_mono(ds, m - i + 1);
                assert(digits_val(ds) > u64::MAX);
            }
            return None;
        }
        proof {
            vstd::arithmetic::div_mod::lemma_fundamental_div_mod((u64::MAX - d) as int, 10);
            assert(val * 10 + d <= u64::MAX) by (nonlinear_arith)
                requires
                    0 <= val <= (u64::MAX - d) as int / 10,
                    (u64::MAX - d) as int == 10 * ((u64::MAX - d) as int / 10) + (u64::MAX - d) as int % 10,
                    0 <= (u64::MAX - d) as int % 10 < 10,
                    0 <= d,
            {}
            lemma_digits_val_take_succ(s0, m - i);
            assert(s0[m - i] == s@[m as int]);
        }
        val = val * 10 + d;
        m = m + 1;
    }
    proof {
        assert(digits_val(ds) == val);
        assert(s0.skip(run) =~= s@.skip(k as int));
    }
    Some((val, k))
}

// ---------------------------------------------------------------------
// Fixed literals
// ---------------------------------------------------------------------

/// Parses an expected literal prefix.
pub open spec fn dec_lit(s: Seq<char>, lit: Seq<char>) -> Option<Seq<char>> {
    if lit.is_prefix_of(s) {
        Some(s.skip(lit.len() as int))
    } else {
        None
    }
}

/// A literal cannot be consumed where the text differs from it.
pub proof fn lemma_lit_no_match(s: Seq<char>, lit: Seq<char>, i: int)
    requires
        0 <= i < lit.len(),
        i < s.len(),
        s[i] != lit[i],
    ensures
        dec_lit(s, lit) is None,
{
    if lit.is_prefix_of(s) {
        assert(s.take(lit.len() as int)[i] == s[i]);
    }
}

/// A literal consumed from its own encoding leaves exactly the rest.
pub proof fn lemma_dec_lit(lit: Seq<char>, rest: Seq<char>)
    ensures
        dec_lit(lit + rest, lit) == Some(rest),
{
    assert(lit.is_prefix_of(lit + rest)) by {
        assert((lit + rest).take(lit.len() as int) =~= lit);
    }
    assert((lit + rest).skip(lit.len() as int) =~= rest);
}

/// Appends a fixed character sequence.
pub fn push_chars(out: &mut Vec<char>, lit: &Vec<char>)
    ensures
        final(out)@ == old(out)@ + lit@,
{
    let ghost base = out@;
    let mut m: usize = 0;
    while m < lit.len()
        invariant
            m <= lit@.len(),
            out@ == base + lit@.take(m as int),
        decreases lit@.len() - m,
    {
        out.push(lit[m]);
        proof {
            assert(lit@.take(m + 1 as int) =~= lit@.take(m as int).push(lit@[m as int]));
        }
        m = m + 1;
    }
    proof {
        assert(lit@.take(lit@.len() as int) =~= lit@);
    }
}

/// Matches a fixed literal at index `i`.
pub fn parse_lit(s: &Vec<char>, i: usize, lit: &Vec<char>) -> (r: Option<usize>)
    requires
        i <= s@.len(),
    ensures
        match r {
            Some(j) => {
                &&& i <= j <= s@.len()
                &&& dec_lit(s@.skip(i as int), lit@) == Some(s@.skip(j as int))
            },
            None => dec_lit(s@.skip(i as int), lit@) is None,
        },
{
    let ghost s0 = s@.skip(i as int);
    let slen = s.len();
    if slen - i < lit.len() {
        proof {
            assert(s0.len() < lit@.len());
        }
        return None;
    }
    let mut m: usize = 0;
    while m < lit.len()
        invariant
            m <= lit@.len(),
            i + lit@.len() <= s@.len(),
            slen == s@.len(),
            s0 == s@.skip(i as int),
            forall|mm: int| 0 <= mm < m ==> s@[i + mm] == lit@[mm],
        decreases lit@.len() - m,
    {
        proof {
            assert(i + m < s@.len());
        }
        if s[i + m] != lit[m] {
            proof {
                assert(s0[m as int] == s@[i + m]);
                assert(!lit@.is_prefix_of(s0)) by {
                    assert(s0.take(lit@.len() as int)[m as int] == s0[m as int]);
                }
            }
            return None;
        }
        m = m + 1;
    }
    proof {
        assert(forall|mm: int| 0 <= mm < s0.len() ==> s0[mm] == s@[i + mm]);
        assert(lit@.is_prefix_of(s0)) by {
            assert(s0.take(lit@.len() as int) =~= lit@);
        }
        assert(s0.skip(lit@.len() as int) =~= s@.skip(i + lit@.len()));
    }
    Some(i + lit.len())
}

/// The characters of a string slice, in order.
pub fn str_to_chars(s: &str) -> (r: Vec<char>)
    ensures
        r@ == s@,
{
    let n = s.unicode_len();
    let mut r: Vec<char> = Vec::new();
    let mut m: usize = 0;
    while m < n
        invariant
            m <= n,
            n == s@.len(),
            r@ == s@.take(m as int),
        decreases n - m,
    {
        r.push(s.get_char(m));
        proof {
            assert(s@.take(m + 1 as int) =~= s@.take(m as int).push(s@[m as int]));
        }
        m = m + 1;
    }
    proof {
        assert(s@.take(n as int) =~= s@);
    }
    r
}

// ---------------------------------------------------------------------
// Booleans
// ---------------------------------------------------------------------

/// The canonical JSON encoding of a boolean.
pub open spec fn enc_bool(b: bool) -> Seq<char> {
    if b {
        seq!['t', 'r', 'u', 'e']
    } else {
        seq!['f', 'a', 'l', 's', 'e']
    }
}

/// Parses a JSON boolean.
pub open spec fn dec_bool(s: Seq<char>) -> Option<(bool, Seq<char>)> {
    if enc_bool(true).is_prefix_of(s) {
        Some((true, s.skip(4)))
    } else if enc_bool(false).is_prefix_of(s) {
        Some((false, s.skip(5)))
    } else {
        None
    }
}

/// Parsing inverts encoding for booleans.
pub proof fn lemma_dec_enc_bool(b: bool, rest: Seq<char>)
    ensures
        dec_bool(enc_bool(b) + rest) == Some((b, rest)),
{
    let s = enc_bool(b) + rest;
    if b {
        assert(enc_bool(true).is_prefix_of(s)) by {
            assert(s.take(4) =~= enc_bool(true));
        }
        assert(s.skip(4) =~= rest);
    } else {
        assert(!enc_bool(true).is_prefix_of(s)) by {
            if s.len() >= 4 {
                assert(s.take(4)[0] == 'f');
            }
        }
        assert(enc_bool(false).is_prefix_of(s)) by {
            assert(s.take(5) =~= enc_bool(false));
        }
        assert(s.skip(5) =~= rest);
    }
}

/// Appends the canonical JSON encoding of a boolean.
pub fn push_bool(out: &mut Vec<char>, b: bool)
    ensures
        final(out)@ == old(out)@ + enc_bool(b),
{
    if b {
        out.push('t');
        out.push('r');
        out.push('u');
        out.push('e');
        proof {
            assert(out@ =~= old(out)@ + enc_bool(b));
        }
    } else {
        out.push('f');
        out.push('a');
        out.push('l');
        out.push('s');
        out.push('e');
        proof {
            assert(out@ =~= old(out)@ + enc_bool(b));
        }
    }
}

/// Parses a JSON boolean at index `i`.
pub fn parse_bool(s: &Vec<char>, i: usize) -> (r: Option<(bool, usize)>)
    requires
        i <= s@.len(),
    ensures
        match r {
            Some((v, j)) => {
                &&& i <= j <= s@.len()
                &&& dec_bool(s@.skip(i as int)) == Some((v, s@.skip(j as int)))
            },
            None => dec_bool(s@.skip(i as int)) is None,
        },
{
    let ghost s0 = s@.skip(i as int);
    proof {
        assert(forall|mm: int| 0 <= mm < s0.len() ==> s0[mm] == s@[i + mm]);
    }
    if s.len() - i >= 4 && s[i] == 't' && s[i + 1] == 'r' && s[i + 2] == 'u' && s[i + 3] == 'e' {
        proof {
            assert(enc_bool(true).is_prefix_of(s0)) by {
                assert(s0.take(4) =~= enc_bool(true));
            }
            assert(s0.skip(4) =~= s@.skip(i + 4));
        }
        Some((true, i + 4))
    } else if s.len() - i >= 5 && s[i] == 'f' && s[i + 1] == 'a' && s[i + 2] == 'l' && s[i + 3] == 's'
        && s[i + 4] == 'e' {
        proof {
            assert(!enc_bool(true).is_prefix_of(s0)) by {
                if s0.len() >= 4 {
                    assert(s0.take(4)[0] == s0[0]);
                }
            }
            assert(enc_bool(false).is_prefix_of(s0)) by {
                assert(s0.take(5) =~= enc_bool(false));
            }
            assert(s0.skip(5) =~= s@.skip(i + 5));
        }
        Some((false, i + 5))
    } else {
        proof {
            if enc_bool(true).is_prefix_of(s0) {
                assert(s0.take(4)[0] == s0[0]);
                assert(s0.take(4)[1] == s0[1]);
                assert(s0.take(4)[2] == s0[2]);
                assert(s0.take(4)[3] == s0[3]);
            }
            if enc_bool(false).is_prefix_of(s0) {
                assert(s0.take(5)[0] == s0[0]);
                assert(s0.take(5)[1] == s0[1]);
                assert(s0.take(5)[2] == s0[2]);
                assert(s0.take(5)[3] == s0[3]);
                assert(s0.take(5)[4] == s0[4]);
            }
        }
        None
    }
}


// ---------------------------------------------------------------------
// Parsers consume input
// ---------------------------------------------------------------------

pub proof fn lemma_dec_str_body_shrinks(s: Seq<char>)
    ensures
        dec_str_body(s) matches Some((v, r)) ==> r.len() < s.len(),
    decreases s.len(),
{
    if s.len() == 0 {
    } else if s[0] == '"' {
    } else if s[0] == '\\' {
        if s.len() >= 2 && (s[1] == '"' || s[1] == '\\') {
            lemma_dec_str_body_shrinks(s.skip(2));
        } else if s.len() >= 6 && s[1] == 'u' && s[2] == '0' && s[3] == '0'
            && 0 <= hex_val(s[4]) < 2 && 0 <= hex_val(s[5]) {
            lemma_dec_str_body_shrinks(s.skip(6));
        }
    } else if (s[0] as u32) >= 32 {
        lemma_dec_str_body_shrinks(s.drop_first());
    }
}

/// A successful string parse consumes at least the quotes.
pub proof fn lemma_dec_str_shrinks(s: Seq<char>)
    ensures
        dec_str(s) matches Some((v, r)) ==> r.len() < s.len(),
{
    if s.len() >= 1 && s[0] == '"' {
        lemma_dec_str_body_shrinks(s.drop_first());
    }
}

// ---------------------------------------------------------------------
// Arrays of strings
// ---------------------------------------------------------------------

pub open spec fn enc_str_arr_items(l: Seq<Seq<char>>) -> Seq<char>
    decreases l.len(),
{
    if l.len() == 0 {
        Seq::empty()
    } else {
        seq![','] + enc_str(l[0]) + enc_str_arr_items(l.drop_first())
    }
}

/// The canonical JSON array of strings.
pub open spec fn enc_str_arr(l: Seq<Seq<char>>) -> Seq<char> {
    if l.len() == 0 {
        seq!['[', ']']
    } else {
        seq!['['] + enc_str(l[0]) + enc_str_arr_items(l.drop_first()) + seq![']']
    }
}

pub proof fn lemma_enc_str_arr_items_push(l: Seq<Seq<char>>, x: Seq<char>)
    ensures
        enc_str_arr_items(l.push(x)) == enc_str_arr_items(l) + seq![','] + enc_str(x),
    decreases l.len(),
{
    if l.len() == 0 {
        let lp = l.push(x);
        assert(lp[0] == x);
        assert(lp.drop_first() =~= Seq::<Seq<char>>::empty());
        assert(enc_str_arr_items(lp)
            == seq![','] + enc_str(lp[0]) + enc_str_arr_items(lp.drop_first()));
        assert(enc_str_arr_items(Seq::<Seq<char>>::empty()) == Seq::<char>::empty());
        assert(enc_str_arr_items(lp) =~= enc_str_arr_items(l) + seq![','] + enc_str(x));
    } else {
        assert(l.push(x).drop_first() =~= l.drop_first().push(x));
        assert(l.push(x)[0] == l[0]);
        lemma_enc_str_arr_items_push(l.drop_first(), x);
        assert(enc_str_arr_items(l.push(x))
            =~= enc_str_arr_items(l) + seq![','] + enc_str(x));
    }
}

pub open spec fn dec_str_arr_tail(s: Seq<char>, acc: Seq<Seq<char>>) -> Option<(Seq<Seq<char>>, Seq<char>)>
    decreases s.len(),
{
    if s.len() == 0 {
        None
    } else if s[0] == ']' {
        Some((acc, s.drop_first()))
    } else if s[0] == ',' {
        match dec_str(s.drop_first()) {
            Some((v, r)) => if r.len() < s.len() {
                dec_str_arr_tail(r, acc.push(v))
            } else {
                None
            },
            None => None,
        }
    } else {
        None
    }
}

/// Parses a JSON array of strings.
pub open spec fn dec_str_arr(s: Seq<char>) -> Option<(Seq<Seq<char>>, Seq<char>)> {
    if s.len() >= 2 && s[0] == '[' && s[1] == ']' {
        Some((Seq::empty(), s.skip(2)))
    } else if s.len() >= 1 && s[0] == '[' {
        match dec_str(s.drop_first()) {
            Some((v, r)) => if r.len() < s.len() {
                dec_str_arr_tail(r, seq![v])
            } else {
                None
            },
            None => None,
        }
    } else {
        None
    }
}

proof fn lemma_dec_enc_str_arr_tail(l: Seq<Seq<char>>, acc: Seq<Seq<char>>, rest: Seq<char>)
    ensures
        dec_str_arr_tail(enc_str_arr_items(l) + seq![']'] + rest, acc) == Some((acc + l, rest)),
    decreases l.len(),
{
    let s = enc_str_arr_items(l) + seq![']'] + rest;
    if l.len() == 0 {
        assert(s =~= seq![']'] + rest);
        assert(s[0] == ']');
        assert(s.drop_first() =~= rest);
        assert(acc + l =~= acc);
    } else {
        let tail = enc_str_arr_items(l.drop_first()) + seq![']'] + rest;
        assert(s =~= seq![','] + enc_str(l[0]) + tail);
        assert(s[0] == ',');
        assert((enc_str(l[0]))[0] == '"');
        assert(s.drop_first() =~= enc_str(l[0]) + tail);
        lemma_dec_enc_str(l[0], tail);
        lemma_dec_str_shrinks(s.drop_first());
        lemma_dec_enc_str_arr_tail(l.drop_first(), acc.push(l[0]), rest);
        assert(acc.push(l[0]) + l.drop_first() =~= acc + l);
    }
}

/// Parsing inverts encoding for string arrays.
pub proof fn lemma_dec_enc_str_arr(l: Seq<Seq<char>>, rest: Seq<char>)
    ensures
        dec_str_arr(enc_str_arr(l) + rest) == Some((l, rest)),
{
    let s = enc_str_arr(l) + rest;
    if l.len() == 0 {
        assert(s[0] == '[' && s[1] == ']');
        assert(s.skip(2) =~= rest);
        assert(Seq::<Seq<char>>::empty() =~= l);
    } else {
        let tail = enc_str_arr_items(l.drop_first()) + seq![']'] + rest;
        assert(s =~= seq!['['] + enc_str(l[0]) + tail);
        assert(s[0] == '[');
        assert(s[1] == (enc_str(l[0]) + tail)[0]);
        assert((enc_str(l[0]))[0] == '"');
        assert(s[1] == '"');
        assert(s.drop_first() =~= enc_str(l[0]) + tail);
        lemma_dec_enc_str(l[0], tail);
        lemma_dec_str_shrinks(s.drop_first());
        lemma_dec_enc_str_arr_tail(l.drop_first(), seq![l[0]], rest);
        assert(seq![l[0]] + l.drop_first() =~= l);
    }
}

/// Appends the canonical JSON array of the given strings.
pub fn push_str_arr(out: &mut Vec<char>, l: &Vec<Vec<char>>)
    ensures
        final(out)@ == old(out)@ + enc_str_arr(l.deep_view()),
{
    let ghost base = out@;
    let ghost dv = l.deep_view();
    if l.len() == 0 {
        out.push('[');
        out.push(']');
        proof {
            assert(out@ =~= base + enc_str_arr(dv));
        }
        return;
    }
    out.push('[');
    push_str_lit(out, &l[0]);
    proof {
        assert(dv[0] == l@[0].deep_view());
        assert(l@[0].deep_view() == l@[0]@);
        assert(dv.take(1).drop_first() =~= Seq::<Seq<char>>::empty());
        assert(out@ =~= base + seq!['['] + enc_str(dv[0]) + enc_str_arr_items(dv.take(1).drop_first()));
    }
    let mut m: usize = 1;
    while m < l.len()
        invariant
            1 <= m <= l@.len(),
            dv == l.deep_view(),
            dv.len() == l@.len(),
            out@ == base + seq!['['] + enc_str(dv[0]) + enc_str_arr_items(dv.take(m as int).drop_first()),
        decreases l@.len() - m,
    {
        out.push(',');
        push_str_lit(out, &l[m]);
        proof {
            assert(dv[m as int] == l@[m as int]@);
            assert(dv.take(m + 1 as int).drop_first() =~= dv.take(m as int).drop_first().push(dv[m as int]));
            lemma_enc_str_arr_items_push(dv.take(m as int).drop_first(), dv[m as int]);
            assert(out@ =~= base + seq!['['] + enc_str(dv[0])
                + enc_str_arr_items(dv.take(m + 1 as int).drop_first()));
        }
        m = m + 1;
    }
    out.push(']');
    proof {
        assert(dv.take(dv.len() as int) =~= dv);
        assert(out@ =~= base + enc_str_arr(dv));
    }
}

/// Parses a JSON array of strings at index `i`.
pub fn parse_str_arr(s: &Vec<char>, i: usize) -> (r: Option<(Vec<Vec<char>>, usize)>)
    requires
        i <= s@.len(),
    ensures
        match r {
            Some((v, j)) => {
                &&& i <= j <= s@.len()
                &&& dec_str_arr(s@.skip(i as int)) == Some((v.deep_view(), s@.skip(j as int)))
            },
            None => dec_str_arr(s@.skip(i as int)) is None,
        },
{
    let ghost s0 = s@.skip(i as int);
    proof {
        assert(forall|mm: int| 0 <= mm < s0.len() ==> s0[mm] == s@[i + mm]);
    }
    if i >= s.len() || s[i] != '[' {
        return None;
    }
    if i + 1 < s.len() && s[i + 1] == ']' {
        proof {
            assert(s0.skip(2) =~= s@.skip(i + 2));
        }
        let empty: Vec<Vec<char>> = Vec::new();
        proof {
            assert(empty.deep_view() =~~= Seq::<Seq<char>>::empty());
        }
        return Some((empty, i + 2));
    }
    proof {
        assert(s0.len() >= 1 && s0[0] == '[');
        assert(!(s0.len() >= 2 && s0[1] == ']'));
        assert(s0.drop_first() =~= s@.skip(i + 1));
    }
    let first = parse_str(s, i + 1);
    let (v0, mut j) = match first {
        Some(x) => x,
        None => {
            return None;
        },
    };
    let mut res: Vec<Vec<char>> = Vec::new();
    res.push(v0);
    proof {
        lemma_dec_str_shrinks(s0.drop_first());
        assert(res.deep_view() =~~= seq![v0@]);
        assert(dec_str_arr(s0) == dec_str_arr_tail(s@.skip(j as int), res.deep_view()));
    }
    loop
        invariant
            i < j <= s@.len(),
            s0 == s@.skip(i as int),
            dec_str_arr(s0) == dec_str_arr_tail(s@.skip(j as int), res.deep_view()),
        decreases s@.len() - j,
    {
        let ghost sj = s@.skip(j as int);
        proof {
            assert(forall|mm: int| 0 <= mm < sj.len() ==> sj[mm] == s@[j + mm]);
        }
        if j >= s.len() {
            return None;
        }
        let c = s[j];
        if c == ']' {
            proof {
                assert(sj.drop_first() =~= s@.skip(j + 1));
            }
            return Some((res, j + 1));
        } else if c == ',' {
            proof {
                assert(sj.drop_first() =~= s@.skip(j + 1));
            }
            let ghost prev = res.deep_view();
            match parse_str(s, j + 1) {
                Some((v, j2)) => {
                    res.push(v);
                    proof {
                        lemma_dec_str_shrinks(sj.drop_first());
                        assert(res.deep_view() =~~= prev.push(v@));
                        assert(s@.skip(j2 as int).len() < sj.len());
                        assert(dec_str_arr_tail(sj, prev)
                            == dec_str_arr_tail(s@.skip(j2 as int), res.deep_view()));
                    }
                    j = j2;
                },
                None => {
                    return None;
                },
            }
        } else {
            return None;
        }
    }
}

// ---------------------------------------------------------------------
// Arrays of bytes
// ---------------------------------------------------------------------

pub open spec fn enc_byte_arr_items(l: Seq<u8>) -> Seq<char>
    decreases l.len(),
{
    if l.len() == 0 {
        Seq::empty()
    } else {
        seq![','] + dec_digits(l[0] as int) + enc_byte_arr_items(l.drop_first())
    }
}

/// The canonical JSON array of byte values.
pub open spec fn enc_byte_arr(l: Seq<u8>) -> Seq<char> {
    if l.len() == 0 {
        seq!['[', ']']
    } else {
        seq!['['] + dec_digits(l[0] as int) + enc_byte_arr_items(l.drop_first()) + seq![']']
    }
}

pub proof fn lemma_enc_byte_arr_items_push(l: Seq<u8>, x: u8)
    ensures
        enc_byte_arr_items(l.push(x)) == enc_byte_arr_items(l) + seq![','] + dec_digits(x as int),
    decreases l.len(),
{
    if l.len() == 0 {
        let lp = l.push(x);
        assert(lp[0] == x);
        assert(lp.drop_first() =~= Seq::<u8>::empty());
        assert(enc_byte_arr_items(lp)
            == seq![','] + dec_digits(lp[0] as int) + enc_byte_arr_items(lp.drop_first()));
        assert(enc_byte_arr_items(Seq::<u8>::empty()) == Seq::<char>::empty());
        assert(enc_byte_arr_items(lp)
            =~= enc_byte_arr_items(l) + seq![','] + dec_digits(x as int));
    } else {
        assert(l.push(x).drop_first() =~= l.drop_first().push(x));
        assert(l.push(x)[0] == l[0]);
        lemma_enc_byte_arr_items_push(l.drop_first(), x);
        assert(enc_byte_arr_items(l.push(x))
            =~= enc_byte_arr_items(l) + seq![','] + dec_digits(x as int));
    }
}

pub open spec fn dec_byte_arr_tail(s: Seq<char>, acc: Seq<u8>) -> Option<(Seq<u8>, Seq<char>)>
    decreases s.len(),
{
    if s.len() == 0 {
        None
    } else if s[0] == ']' {
        Some((acc, s.drop_first()))
    } else if s[0] == ',' {
        match dec_u64(s.drop_first()) {
            Some((v, r)) => if r.len() < s.len() && v <= 255 {
                dec_byte_arr_tail(r, acc.push(v as u8))
            } else {
                None
            },
            None => None,
        }
    } else {
        None
    }
}

/// Parses a JSON array of byte values.
pub open spec fn dec_byte_arr(s: Seq<char>) -> Option<(Seq<u8>, Seq<char>)> {
    if s.len() >= 2 && s[0] == '[' && s[1] == ']' {
        Some((Seq::empty(), s.skip(2)))
    } else if s.len() >= 1 && s[0] == '[' {
        match dec_u64(s.drop_first()) {
            Some((v, r)) => if r.len() < s.len() && v <= 255 {
                dec_byte_arr_tail(r, seq![v as u8])
            } else {
                None
            },
            None => None,
        }
    } else {
        None
    }
}

pub proof fn lemma_digit_run_le(s: Seq<char>)
    ensures
        0 <= digit_run(s) <= s.len(),
    decreases s.len(),
{
    if s.len() > 0 && is_dec_digit(s[0]) {
        lemma_digit_run_le(s.drop_first());
    }
}

/// A successful number parse consumes at least one character.
pub proof fn lemma_dec_u64_shrinks(s: Seq<char>)
    ensures
        dec_u64(s) matches Some((v, r)) ==> r.len() < s.len(),
{
    lemma_digit_run_le(s);
    let k = digit_run(s);
    if k == 0 {
        assert(dec_u64(s) is None);
    }
}

proof fn lemma_dec_enc_byte_arr_tail(l: Seq<u8>, acc: Seq<u8>, rest: Seq<char>)
    ensures
        dec_byte_arr_tail(enc_byte_arr_items(l) + seq![']'] + rest, acc) == Some((acc + l, rest)),
    decreases l.len(),
{
    let s = enc_byte_arr_items(l) + seq![']'] + rest;
    if l.len() == 0 {
        assert(s =~= seq![']'] + rest);
        assert(s[0] == ']');
        assert(s.drop_first() =~= rest);
        assert(acc + l =~= acc);
    } else {
        let tail = enc_byte_arr_items(l.drop_first()) + seq![']'] + rest;
        assert(s =~= seq![','] + dec_digits(l[0] as int) + tail);
        lemma_dec_digits_facts(l[0] as int);
        assert(s[0] == ',');
        assert(s.drop_first() =~= dec_digits(l[0] as int) + tail);
        assert(tail[0] == ',' || tail[0] == ']') by {
            if l.drop_first().len() == 0 {
                assert(tail =~= seq![']'] + rest);
            }
        }
        assert(!is_dec_digit(tail[0]));
        lemma_dec_enc_u64(l[0] as u64, tail);
        lemma_dec_u64_shrinks(s.drop_first());
        lemma_dec_enc_byte_arr_tail(l.drop_first(), acc.push(l[0]), rest);
        assert(acc.push(l[0]) + l.drop_first() =~= acc + l);
    }
}

/// Parsing inverts encoding for byte arrays.
pub proof fn lemma_dec_enc_byte_arr(l: Seq<u8>, rest: Seq<char>)
    ensures
        dec_byte_arr(enc_byte_arr(l) + rest) == Some((l, rest)),
{
    let s = enc_byte_arr(l) + rest;
    if l.len() == 0 {
        assert(s[0] == '[' && s[1] == ']');
        assert(s.skip(2) =~= rest);
        assert(Seq::<u8>::empty() =~= l);
    } else {
        let tail = enc_byte_arr_items(l.drop_first()) + seq![']'] + rest;
        assert(s =~= seq!['['] + dec_digits(l[0] as int) + tail);
        lemma_dec_digits_facts(l[0] as int);
        assert(s[0] == '[');
        assert(s[1] == (dec_digits(l[0] as int) + tail)[0]);
        assert(is_dec_digit(s[1]));
        assert(s[1] != ']');
        assert(s.drop_first() =~= dec_digits(l[0] as int) + tail);
        assert(tail[0] == ',' || tail[0] == ']') by {
            if l.drop_first().len() == 0 {
                assert(tail =~= seq![']'] + rest);
            }
        }
        assert(!is_dec_digit(tail[0]));
        lemma_dec_enc_u64(l[0] as u64, tail);
        lemma_dec_u64_shrinks(s.drop_first());
        lemma_dec_enc_byte_arr_tail(l.drop_first(), seq![l[0]], rest);
        assert(seq![l[0]] + l.drop_first() =~= l);
    }
}

/// Appends the canonical JSON array of the given bytes.
pub fn push_byte_arr(out: &mut Vec<char>, l: &Vec<u8>)
    ensures
        final(out)@ == old(out)@ + enc_byte_arr(l@),
{
    let ghost base = out@;
    if l.len() == 0 {
        out.push('[');
        out.push(']');
        proof {
            assert(out@ =~= base + enc_byte_arr(l@));
        }
        return;
    }
    out.push('[');
    push_u64(out, l[0] as u64);
    proof {
        assert(l@.take(1).drop_first() =~= Seq::<u8>::empty());
        assert(out@ =~= base + seq!['['] + dec_digits(l@[0] as int)
            + enc_byte_arr_items(l@.take(1).drop_first()));
    }
    let mut m: usize = 1;
    while m < l.len()
        invariant
            1 <= m <= l@.len(),
            out@ == base + seq!['['] + dec_digits(l@[0] as int)
                + enc_byte_arr_items(l@.take(m as int).drop_first()),
        decreases l@.len() - m,
    {
        out.push(',');
        push_u64(out, l[m] as u64);
        proof {
            assert(l@.take(m + 1 as int).drop_first() =~= l@.take(m as int).drop_first().push(l@[m as int]));
            lemma_enc_byte_arr_items_push(l@.take(m as int).drop_first(), l@[m as int]);
            assert(out@ =~= base + seq!['['] + dec_digits(l@[0] as int)
                + enc_byte_arr_items(l@.take(m + 1 as int).drop_first()));
        }
        m = m + 1;
    }
    out.push(']');
    proof {
        assert(l@.take(l@.len() as int) =~= l@);
        assert(out@ =~= base + enc_byte_arr(l@));
    }
}

/// Parses a JSON array of byte values at index `i`.
pub fn parse_byte_arr(s: &Vec<char>, i: usize) -> (r: Option<(Vec<u8>, usize)>)
    requires
        i <= s@.len(),
    ensures
        match r {
            Some((v, j)) => {
                &&& i <= j <= s@.len()
                &&& dec_byte_arr(s@.skip(i as int)) == Some((v@, s@.skip(j as int)))
            },
            None => dec_byte_arr(s@.skip(i as int)) is None,
        },
{
    let ghost s0 = s@.skip(i as int);
    proof {
        assert(forall|mm: int| 0 <= mm < s0.len() ==> s0[mm] == s@[i + mm]);
    }
    if i >= s.len() || s[i] != '[' {
        return None;
    }
    if i + 1 < s.len() && s[i + 1] == ']' {
        proof {
            assert(s0.skip(2) =~= s@.skip(i + 2));
        }
        let empty: Vec<u8> = Vec::new();
        proof {
            assert(empty@ =~= Seq::<u8>::empty());
        }
        return Some((empty, i + 2));
    }
    proof {
        assert(s0.len() >= 1 && s0[0] == '[');
        assert(!(s0.len() >= 2 && s0[1] == ']'));
        assert(s0.drop_first() =~= s@.skip(i + 1));
    }
    let first = parse_u64(s, i + 1);
    let (v0, mut j) = match first {
        Some(x) => x,
        None => {
            return None;
        },
    };
    if v0 > 255 {
        proof {
            lemma_dec_u64_shrinks(s0.drop_first());
        }
        return None;
    }
    let mut res: Vec<u8> = Vec::new();
    res.push(v0 as u8);
    proof {
        lemma_dec_u64_shrinks(s0.drop_first());
        assert(res@ =~= seq![v0 as u8]);
        assert(dec_byte_arr(s0) == dec_byte_arr_tail(s@.skip(j as int), res@));
    }
    loop
        invariant
            i < j <= s@.len(),
            s0 == s@.skip(i as int),
            dec_byte_arr(s0) == dec_byte_arr_tail(s@.skip(j as int), res@),
        decreases s@.len() - j,
    {
        let ghost sj = s@.skip(j as int);
        proof {
            assert(forall|mm: int| 0 <= mm < sj.len() ==> sj[mm] == s@[j + mm]);
        }
        if j >= s.len() {
            return None;
        }
        let c = s[j];
        if c == ']' {
            proof {
                assert(sj.drop_first() =~= s@.skip(j + 1));
            }
            return Some((res, j + 1));
        } else if c == ',' {
            proof {
                assert(sj.drop_first() =~= s@.skip(j + 1));
            }
            let ghost prev = res@;
            match parse_u64(s, j + 1) {
                Some((v, j2)) => {
                    proof {
                        lemma_dec_u64_shrinks(sj.drop_first());
                    }
                    if v > 255 {
                        return None;
                    }
                    res.push(v as u8);
                    proof {
                        assert(res@ =~= prev.push(v as u8));
                        assert(s@.skip(j2 as int).len() < sj.len());
                        assert(dec_byte_arr_tail(sj, prev)
                            == dec_byte_arr_tail(s@.skip(j2 as int), res@));
                    }
                    j = j2;
                },
                None => {
                    return None;
                },
            }
        } else {
            return None;
        }
    }
}


// ---------------------------------------------------------------------
// Objects with string values
// ---------------------------------------------------------------------

/// One `"key":"value"` member.
pub open spec fn enc_str_pair(p: (Seq<char>, Seq<char>)) -> Seq<char> {
    enc_str(p.0) + seq![':'] + enc_str(p.1)
}

pub open spec fn enc_str_map_items(l: Seq<(Seq<char>, Seq<char>)>) -> Seq<char>
    decreases l.len(),
{
    if l.len() == 0 {
        Seq::empty()
    } else {
        seq![','] + enc_str_pair(l[0]) + enc_str_map_items(l.drop_first())
    }
}

/// The canonical JSON object with string keys and string values, in
/// the order given.
pub open spec fn enc_str_map(l: Seq<(Seq<char>, Seq<char>)>) -> Seq<char> {
    if l.len() == 0 {
        seq!['{', '}']
    } else {
        seq!['{'] + enc_str_pair(l[0]) + enc_str_map_items(l.drop_first()) + seq!['}']
    }
}

pub proof fn lemma_enc_str_map_items_push(l: Seq<(Seq<char>, Seq<char>)>, x: (Seq<char>, Seq<char>))
    ensures
        enc_str_map_items(l.push(x)) == enc_str_map_items(l) + seq![','] + enc_str_pair(x),
    decreases l.len(),
{
    if l.len() == 0 {
        let lp = l.push(x);
        assert(lp[0] == x);
        assert(lp.drop_first() =~= Seq::<(Seq<char>, Seq<char>)>::empty());
        assert(enc_str_map_items(lp)
            == seq![','] + enc_str_pair(lp[0]) + enc_str_map_items(lp.drop_first()));
        assert(enc_str_map_items(Seq::<(Seq<char>, Seq<char>)>::empty()) == Seq::<char>::empty());
        assert(enc_str_map_items(lp) =~= enc_str_map_items(l) + seq![','] + enc_str_pair(x));
    } else {
        assert(l.push(x).drop_first() =~= l.drop_first().push(x));
        assert(l.push(x)[0] == l[0]);
        lemma_enc_str_map_items_push(l.drop_first(), x);
        assert(enc_str_map_items(l.push(x))
            =~= enc_str_map_items(l) + seq![','] + enc_str_pair(x));
    }
}

/// Parses one `"key":"value"` member.
pub open spec fn dec_str_pair(s: Seq<char>) -> Option<((Seq<char>, Seq<char>), Seq<char>)> {
    match dec_str(s) {
        Some((k, r1)) => if r1.len() >= 1 && r1[0] == ':' {
            match dec_str(r1.drop_first()) {
                Some((v, r2)) => Some(((k, v), r2)),
                None => None,
            }
        } else {
            None
        },
        None => None,
    }
}

pub proof fn lemma_dec_str_pair_shrinks(s: Seq<char>)
    ensures
        dec_str_pair(s) matches Some((p, r)) ==> r.len() < s.len(),
{
    lemma_dec_str_shrinks(s);
    match dec_str(s) {
        Some((k, r1)) => {
            if r1.len() >= 1 && r1[0] == ':' {
                lemma_dec_str_shrinks(r1.drop_first());
            }
        },
        None => {},
    }
}

/// Parsing inverts encoding for one member.
pub proof fn lemma_dec_enc_str_pair(p: (Seq<char>, Seq<char>), rest: Seq<char>)
    ensures
        dec_str_pair(enc_str_pair(p) + rest) == Some((p, rest)),
{
    let s = enc_str_pair(p) + rest;
    let t1 = seq![':'] + enc_str(p.1) + rest;
    assert(s =~= enc_str(p.0) + t1);
    lemma_dec_enc_str(p.0, t1);
    assert(t1[0] == ':');
    assert(t1.drop_first() =~= enc_str(p.1) + rest);
    lemma_dec_enc_str(p.1, rest);
}

pub open spec fn dec_str_map_tail(s: Seq<char>, acc: Seq<(Seq<char>, Seq<char>)>) -> Option<(Seq<(Seq<char>, Seq<char>)>, Seq<char>)>
    decreases s.len(),
{
    if s.len() == 0 {
        None
    } else if s[0] == '}' {
        Some((acc, s.drop_first()))
    } else if s[0] == ',' {
        match dec_str_pair(s.drop_first()) {
            Some((p, r)) => if r.len() < s.len() {
                dec_str_map_tail(r, acc.push(p))
            } else {
                None
            },
            None => None,
        }
    } else {
        None
    }
}

/// Parses a JSON object with string keys and values.
pub open spec fn dec_str_map(s: Seq<char>) -> Option<(Seq<(Seq<char>, Seq<char>)>, Seq<char>)> {
    if s.len() >= 2 && s[0] == '{' && s[1] == '}' {
        Some((Seq::empty(), s.skip(2)))
    } else if s.len() >= 1 && s[0] == '{' {
        match dec_str_pair(s.drop_first()) {
            Some((p, r)) => if r.len() < s.len() {
                dec_str_map_tail(r, seq![p])
            } else {
                None
            },
            None => None,
        }
    } else {
        None
    }
}

proof fn lemma_dec_enc_str_map_tail(l: Seq<(Seq<char>, Seq<char>)>, acc: Seq<(Seq<char>, Seq<char>)>, rest: Seq<char>)
    ensures
        dec_str_map_tail(enc_str_map_items(l) + seq!['}'] + rest, acc) == Some((acc + l, rest)),
    decreases l.len(),
{
    let s = enc_str_map_items(l) + seq!['}'] + rest;
    if l.len() == 0 {
        assert(s =~= seq!['}'] + rest);
        assert(s[0] == '}');
        assert(s.drop_first() =~= rest);
        assert(acc + l =~= acc);
    } else {
        let tail = enc_str_map_items(l.drop_first()) + seq!['}'] + rest;
        assert(s =~= seq![','] + enc_str_pair(l[0]) + tail);
        assert(s[0] == ',');
        assert((enc_str_pair(l[0]))[0] == (enc_str(l[0].0))[0]);
        assert(s.drop_first() =~= enc_str_pair(l[0]) + tail);
        lemma_dec_enc_str_pair(l[0], tail);
        lemma_dec_str_pair_shrinks(s.drop_first());
        lemma_dec_enc_str_map_tail(l.drop_first(), acc.push(l[0]), rest);
        assert(acc.push(l[0]) + l.drop_first() =~= acc + l);
    }
}

/// Parsing inverts encoding for string maps.
pub proof fn lemma_dec_enc_str_map(l: Seq<(Seq<char>, Seq<char>)>, rest: Seq<char>)
    ensures
        dec_str_map(enc_str_map(l) + rest) == Some((l, rest)),
{
    let s = enc_str_map(l) + rest;
    if l.len() == 0 {
        assert(s[0] == '{' && s[1] == '}');
        assert(s.skip(2) =~= rest);
        assert(Seq::<(Seq<char>, Seq<char>)>::empty() =~= l);
    } else {
        let tail = enc_str_map_items(l.drop_first()) + seq!['}'] + rest;
        assert(s =~= seq!['{'] + enc_str_pair(l[0]) + tail);
        assert(s[0] == '{');
        assert(s[1] == (enc_str_pair(l[0]) + tail)[0]);
        assert((enc_str_pair(l[0]))[0] == (enc_str(l[0].0))[0]);
        assert(s[1] == '"');
        assert(s.drop_first() =~= enc_str_pair(l[0]) + tail);
        lemma_dec_enc_str_pair(l[0], tail);
        lemma_dec_str_pair_shrinks(s.drop_first());
        lemma_dec_enc_str_map_tail(l.drop_first(), seq![l[0]], rest);
        assert(seq![l[0]] + l.drop_first() =~= l);
    }
}

/// Appends one `"key":"value"` member.
fn push_str_pair(out: &mut Vec<char>, k: &Vec<char>, v: &Vec<char>)
    ensures
        final(out)@ == old(out)@ + enc_str_pair((k@, v@)),
{
    push_str_lit(out, k);
    out.push(':');
    push_str_lit(out, v);
    proof {
        assert(out@ =~= old(out)@ + enc_str_pair((k@, v@)));
    }
}

/// Appends the canonical JSON object of the given key/value pairs.
pub fn push_str_map(out: &mut Vec<char>, l: &Vec<(Vec<char>, Vec<char>)>)
    ensures
        final(out)@ == old(out)@ + enc_str_map(l.deep_view()),
{
    let ghost base = out@;
    let ghost dv = l.deep_view();
    if l.len() == 0 {
        out.push('{');
        out.push('}');
        proof {
            assert(out@ =~= base + enc_str_map(dv));
        }
        return;
    }
    out.push('{');
    push_str_pair(out, &l[0].0, &l[0].1);
    proof {
        assert(dv[0] == l@[0].deep_view());
        assert(dv[0] == (l@[0].0@, l@[0].1@));
        assert(dv.take(1).drop_first() =~= Seq::<(Seq<char>, Seq<char>)>::empty());
        assert(enc_str_map_items(Seq::<(Seq<char>, Seq<char>)>::empty()) == Seq::<char>::empty());
        assert(out@ =~= base + seq!['{'] + enc_str_pair(dv[0]) + enc_str_map_items(dv.take(1).drop_first()));
    }
    let mut m: usize = 1;
    while m < l.len()
        invariant
            1 <= m <= l@.len(),
            dv == l.deep_view(),
            dv.len() == l@.len(),
            out@ == base + seq!['{'] + enc_str_pair(dv[0]) + enc_str_map_items(dv.take(m as int).drop_first()),
        decreases l@.len() - m,
    {
        out.push(',');
        push_str_pair(out, &l[m].0, &l[m].1);
        proof {
            assert(dv[m as int] == l@[m as int].deep_view());
            assert(dv[m as int] == (l@[m as int].0@, l@[m as int].1@));
            assert(dv.take(m + 1 as int).drop_first() =~= dv.take(m as int).drop_first().push(dv[m as int]));
            lemma_enc_str_map_items_push(dv.take(m as int).drop_first(), dv[m as int]);
            assert(out@ =~= base + seq!['{'] + enc_str_pair(dv[0])
                + enc_str_map_items(dv.take(m + 1 as int).drop_first()));
        }
        m = m + 1;
    }
    out.push('}');
    proof {
        assert(dv.take(dv.len() as int) =~= dv);
        assert(out@ =~= base + enc_str_map(dv));
    }
}

/// Parses one member at index `i`.
fn parse_str_pair(s: &Vec<char>, i: usize) -> (r: Option<((Vec<char>, Vec<char>), usize)>)
    requires
        i <= s@.len(),
    ensures
        match r {
            Some((p, j)) => {
                &&& i <= j <= s@.len()
                &&& dec_str_pair(s@.skip(i as int)) == Some(((p.0@, p.1@), s@.skip(j as int)))
            },
            None => dec_str_pair(s@.skip(i as int)) is None,
        },
{
    let ghost s0 = s@.skip(i as int);
    let (k, j1) = match parse_str(s, i) {
        Some(x) => x,
        None => {
            return None;
        },
    };
    proof {
        assert(forall|mm: int| 0 <= mm < s@.skip(j1 as int).len() ==> s@.skip(j1 as int)[mm] == s@[j1 + mm]);
    }
    if j1 >= s.len() || s[j1] != ':' {
        return None;
    }
    proof {
        assert(s@.skip(j1 as int)[0] == ':');
        assert(s@.skip(j1 as int).drop_first() =~= s@.skip(j1 + 1));
    }
    let (v, j2) = match parse_str(s, j1 + 1) {
        Some(x) => x,
        None => {
            return None;
        },
    };
    Some(((k, v), j2))
}

/// Parses a JSON object of string pairs at index `i`.
pub fn parse_str_map(s: &Vec<char>, i: usize) -> (r: Option<(Vec<(Vec<char>, Vec<char>)>, usize)>)
    requires
        i <= s@.len(),
    ensures
        match r {
            Some((v, j)) => {
                &&& i <= j <= s@.len()
                &&& dec_str_map(s@.skip(i as int)) == Some((v.deep_view(), s@.skip(j as int)))
            },
            None => dec_str_map(s@.skip(i as int)) is None,
        },
{
    let ghost s0 = s@.skip(i as int);
    proof {
        assert(forall|mm: int| 0 <= mm < s0.len() ==> s0[mm] == s@[i + mm]);
    }
    if i >= s.len() || s[i] != '{' {
        return None;
    }
    if i + 1 < s.len() && s[i + 1] == '}' {
        proof {
            assert(s0.skip(2) =~= s@.skip(i + 2));
        }
        let empty: Vec<(Vec<char>, Vec<char>)> = Vec::new();
        proof {
            assert(empty.deep_view() =~~= Seq::<(Seq<char>, Seq<char>)>::empty());
        }
        return Some((empty, i + 2));
    }
    proof {
        assert(s0.len() >= 1 && s0[0] == '{');
        assert(!(s0.len() >= 2 && s0[1] == '}'));
        assert(s0.drop_first() =~= s@.skip(i + 1));
    }
    let first = parse_str_pair(s, i + 1);
    let (p0, mut j) = match first {
        Some(x) => x,
        None => {
            return None;
        },
    };
    let mut res: Vec<(Vec<char>, Vec<char>)> = Vec::new();
    res.push(p0);
    proof {
        lemma_dec_str_pair_shrinks(s0.drop_first());
        assert(res.deep_view() =~~= seq![(res@[0].0@, res@[0].1@)]);
        assert(dec_str_map(s0) == dec_str_map_tail(s@.skip(j as int), res.deep_view()));
    }
    loop
        invariant
            i < j <= s@.len(),
            s0 == s@.skip(i as int),
            dec_str_map(s0) == dec_str_map_tail(s@.skip(j as int), res.deep_view()),
        decreases s@.len() - j,
    {
        let ghost sj = s@.skip(j as int);
        proof {
            assert(forall|mm: int| 0 <= mm < sj.len() ==> sj[mm] == s@[j + mm]);
        }
        if j >= s.len() {
            return None;
        }
        let c = s[j];
        if c == '}' {
            proof {
                assert(sj.drop_first() =~= s@.skip(j + 1));
            }
            return Some((res, j + 1));
        } else if c == ',' {
            proof {
                assert(sj.drop_first() =~= s@.skip(j + 1));
            }
            let ghost prev = res.deep_view();
            match parse_str_pair(s, j + 1) {
                Some((p, j2)) => {
                    let ghost pv = (p.0@, p.1@);
                    res.push(p);
                    proof {
                        lemma_dec_str_pair_shrinks(sj.drop_first());
                        assert(res.deep_view() =~~= prev.push(pv));
                        assert(s@.skip(j2 as int).len() < sj.len());
                        assert(dec_str_map_tail(sj, prev)
                            == dec_str_map_tail(s@.skip(j2 as int), res.deep_view()));
                    }
                    j = j2;
                },
                None => {
                    return None;
                },
            }
        } else {
            return None;
        }
    }
}


// ---------------------------------------------------------------------
// Durations in seconds with a millisecond fraction
// ---------------------------------------------------------------------

/// The canonical fraction digits of a millisecond remainder
/// (1..=999), with trailing zeros trimmed.
pub open spec fn enc_frac(r: int) -> Seq<char> {
    let d1 = r / 100;
    let d2 = (r / 10) % 10;
    let d3 = r % 10;
    if d3 != 0 {
        seq![dec_char(d1), dec_char(d2), dec_char(d3)]
    } else if d2 != 0 {
        seq![dec_char(d1), dec_char(d2)]
    } else {
        seq![dec_char(d1)]
    }
}

/// The canonical decimal form, in seconds, of a duration of `ms`
/// milliseconds: whole seconds, and a trimmed fraction if any.
pub open spec fn enc_secs(ms: int) -> Seq<char> {
    if ms % 1000 == 0 {
        dec_digits(ms / 1000)
    } else {
        dec_digits(ms / 1000) + seq!['.'] + enc_frac(ms % 1000)
    }
}

/// Parses a duration in seconds back to milliseconds; the fraction
/// may carry up to three digits, trailing zeros included, so both
/// the trimmed form this codec emits and the common serializers'
/// `30.0` are read.
pub open spec fn dec_secs(s: Seq<char>) -> Option<(u64, Seq<char>)> {
    match dec_u64(s) {
        Some((sec, r)) => if r.len() >= 2 && r[0] == '.' && is_dec_digit(r[1]) {
            let k = digit_run(r.skip(1));
            let ds = r.skip(1).take(k);
            if 1 <= k <= 3 {
                let frac = if k == 1 {
                    digits_val(ds) * 100
                } else if k == 2 {
                    digits_val(ds) * 10
                } else {
                    digits_val(ds)
                };
                if sec <= (u64::MAX - frac) / 1000 {
                    Some(((sec * 1000 + frac) as u64, r.skip(1).skip(k)))
                } else {
                    None
                }
            } else {
                None
            }
        } else if sec <= u64::MAX / 1000 {
            Some(((sec * 1000) as u64, r))
        } else {
            None
        },
        None => None,
    }
}

/// Parsing inverts encoding for durations, as long as the rest does
/// not begin with a digit or a dot.
#[verifier::rlimit(60)]
pub proof fn lemma_dec_enc_secs(ms: u64, rest: Seq<char>)
    requires
        rest.len() == 0 || (!is_dec_digit(rest[0]) && rest[0] != '.'),
    ensures
        dec_secs(enc_secs(ms as int) + rest) == Some((ms, rest)),
{
    let sec = ms as int / 1000;
    let r = ms as int % 1000;
    vstd::arithmetic::div_mod::lemma_fundamental_div_mod(ms as int, 1000);
    assert(0 <= r < 1000);
    if r == 0 {
        let s = dec_digits(sec) + rest;
        assert(enc_secs(ms as int) + rest =~= s);
        lemma_dec_enc_u64((sec as u64), rest);
        assert(sec * 1000 == ms);
        assert(sec <= u64::MAX as int / 1000) by (nonlinear_arith)
            requires
                sec * 1000 <= u64::MAX as int,
                sec >= 0,
        {}
        if rest.len() >= 2 {
            assert(rest[0] != '.');
        }
    } else {
        let f = enc_frac(r);
        let tail = seq!['.'] + f + rest;
        let s = dec_digits(sec) + tail;
        assert(enc_secs(ms as int) + rest =~= s);
        assert(tail[0] == '.');
        assert(!is_dec_digit('.'));
        lemma_dec_enc_u64((sec as u64), tail);
        // after the whole seconds: ".", fraction digits, rest
        let after = tail;
        assert(after.len() >= 2);
        assert(after[0] == '.');
        let d1 = r / 100;
        let d2 = (r / 10) % 10;
        let d3 = r % 10;
        vstd::arithmetic::div_mod::lemma_fundamental_div_mod(r, 100);
        vstd::arithmetic::div_mod::lemma_fundamental_div_mod(r, 10);
        vstd::arithmetic::div_mod::lemma_fundamental_div_mod(r / 10, 10);
        vstd::arithmetic::div_mod::lemma_div_denominator(r, 10, 10);
        assert(0 <= d1 < 10 && 0 <= d2 < 10 && 0 <= d3 < 10);
        let fr = after.skip(1);
        assert(fr =~= f + rest);
        assert(forall|m: int| 0 <= m < f.len() ==> fr[m] == f[m]);
        assert(forall|m: int| 0 <= m < f.len() ==> is_dec_digit(f[m]));
        if rest.len() > 0 {
            assert(fr[f.len() as int] == rest[0]);
        }
        lemma_digit_run_exact(fr, f.len() as int);
        assert(after[1] == f[0]);
        assert(is_dec_digit(after[1]));
        let k = f.len() as int;
        let ds = fr.take(k);
        assert(ds =~= f);
        assert(fr.skip(k) =~= rest);
        // digits_val of the trimmed fraction scales back to r
        assert(r == d1 * 100 + d2 * 10 + d3);
        if d3 != 0 {
            assert(ds =~= seq![dec_char(d1), dec_char(d2), dec_char(d3)]);
            assert(ds.last() == dec_char(d3));
            assert(dec_val(ds.last()) == d3);
            assert(ds.drop_last() =~= seq![dec_char(d1), dec_char(d2)]);
            assert(digits_val(ds) == (digits_val(seq![dec_char(d1), dec_char(d2)]) * 10 + d3));
            assert(seq![dec_char(d1), dec_char(d2)].last() == dec_char(d2));
            assert(seq![dec_char(d1), dec_char(d2)].drop_last() =~= seq![dec_char(d1)]);
            assert(digits_val(seq![dec_char(d1), dec_char(d2)])
                == digits_val(seq![dec_char(d1)]) * 10 + d2);
            assert(seq![dec_char(d1)].drop_last() =~= Seq::<char>::empty());
            assert(digits_val(seq![dec_char(d1)])
                == digits_val(seq![dec_char(d1)].drop_last()) * 10 + dec_val(dec_char(d1)));
            assert(digits_val(seq![dec_char(d1)]) == d1);
            assert(digits_val(ds) == r);
        } else if d2 != 0 {
            assert(ds =~= seq![dec_char(d1), dec_char(d2)]);
            assert(ds.last() == dec_char(d2));
            assert(dec_val(ds.last()) == d2);
            assert(ds.drop_last() =~= seq![dec_char(d1)]);
            assert(ds.drop_last().drop_last() =~= Seq::<char>::empty());
            assert(digits_val(seq![dec_char(d1)])
                == digits_val(seq![dec_char(d1)].drop_last()) * 10 + dec_val(dec_char(d1)));
            assert(seq![dec_char(d1)].drop_last() =~= Seq::<char>::empty());
            assert(digits_val(ds) == d1 * 10 + d2);
            assert(digits_val(ds) * 10 == r);
        } else {
            assert(ds =~= seq![dec_char(d1)]);
            assert(ds.last() == dec_char(d1));
            assert(d1 != 0);
            assert(dec_val(ds.last()) == d1);
            assert(ds.drop_last() =~= Seq::<char>::empty());
            assert(digits_val(ds) == digits_val(ds.drop_last()) * 10 + dec_val(ds.last()));
            assert(digits_val(ds) == d1);
            assert(digits_val(ds) * 100 == r);
        }
        let frac = if k == 1 {
            digits_val(ds) * 100
        } else if k == 2 {
            digits_val(ds) * 10
        } else {
            digits_val(ds)
        };
        assert(frac == r);
        assert(sec * 1000 + r == ms);
        assert(sec <= (u64::MAX as int - r) / 1000) by (nonlinear_arith)
            requires
                sec * 1000 + r <= u64::MAX as int,
                sec >= 0,
                0 <= r < 1000,
        {}
    }
}

/// Appends the canonical decimal form, in seconds, of `ms`
/// milliseconds.
pub fn push_secs(out: &mut Vec<char>, ms: u64)
    ensures
        final(out)@ == old(out)@ + enc_secs(ms as int),
{
    let sec: u64 = ms / 1000;
    let r: u64 = ms % 1000;
    proof {
        vstd::arithmetic::div_mod::lemma_fundamental_div_mod(ms as int, 1000);
    }
    push_u64(out, sec);
    if r != 0 {
        out.push('.');
        let d1: u64 = r / 100;
        let d2: u64 = (r / 10) % 10;
        let d3: u64 = r % 10;
        proof {
            assert(d1 < 10 && d2 < 10 && d3 < 10) by (nonlinear_arith)
                requires
                    0 < r < 1000,
                    d1 == r / 100,
                    d2 == (r as int / 10) % 10,
                    d3 == r % 10,
            {}
            assert(d1 == ms as int % 1000 / 100);
            assert(d2 == (ms as int % 1000 / 10) % 10);
            assert(d3 == ms as int % 1000 % 10);
        }
        if d3 != 0 {
            out.push(dec_char_of(d1));
            out.push(dec_char_of(d2));
            out.push(dec_char_of(d3));
        } else if d2 != 0 {
            out.push(dec_char_of(d1));
            out.push(dec_char_of(d2));
        } else {
            out.push(dec_char_of(d1));
        }
        proof {
            assert(out@ =~= old(out)@ + enc_secs(ms as int));
        }
    } else {
        proof {
            assert(out@ =~= old(out)@ + enc_secs(ms as int));
        }
    }
}

/// Parses a duration in seconds at index `i`, returning milliseconds.
pub fn parse_secs(s: &Vec<char>, i: usize) -> (r: Option<(u64, usize)>)
    requires
        i <= s@.len(),
    ensures
        match r {
            Some((v, j)) => {
                &&& i <= j <= s@.len()
                &&& dec_secs(s@.skip(i as int)) == Some((v, s@.skip(j as int)))
            },
            None => dec_secs(s@.skip(i as int)) is None,
        },
{
    let ghost s0 = s@.skip(i as int);
    let (sec, j1) = match parse_u64(s, i) {
        Some(x) => x,
        None => {
            return None;
        },
    };
    let ghost r1 = s@.skip(j1 as int);
    proof {
        assert(forall|mm: int| 0 <= mm < r1.len() ==> r1[mm] == s@[j1 + mm]);
    }
    if j1 < s.len() && s[j1] == '.' && j1 + 1 < s.len() && is_digit(s[j1 + 1]) {
        proof {
            assert(r1[0] == '.');
            assert(r1[1] == s@[j1 + 1]);
            assert(r1.skip(1) =~= s@.skip(j1 + 1));
        }
        // scan the fraction's digit run
        let mut k: usize = j1 + 1;
        while k < s.len() && is_digit(s[k])
            invariant
                j1 + 1 <= k <= s@.len(),
                forall|m: int| j1 + 1 <= m < k ==> is_dec_digit(s@[m]),
            decreases s@.len() - k,
        {
            k = k + 1;
        }
        let ghost fr = s@.skip(j1 + 1);
        let ghost klen = (k - j1 - 1) as int;
        proof {
            assert(forall|mm: int| 0 <= mm < fr.len() ==> fr[mm] == s@[j1 + 1 + mm]);
            assert(k < s@.len() ==> !is_dec_digit(fr[klen]));
            lemma_digit_run_exact(fr, klen);
        }
        let ghost ds = fr.take(klen);
        if k - (j1 + 1) > 3 {
            return None;
        }
        proof {
            assert(1 <= klen <= 3);
        }
        // value of the fraction digits
        let mut fv: u64 = 0;
        let mut m: usize = j1 + 1;
        proof {
            assert(fr.take(0) =~= Seq::<char>::empty());
        }
        while m < k
            invariant
                j1 + 1 <= m <= k <= s@.len(),
                fr == s@.skip(j1 + 1),
                klen == k - j1 - 1,
                1 <= klen <= 3,
                forall|mm: int| j1 + 1 <= mm < k ==> is_dec_digit(s@[mm]),
                forall|mm: int| 0 <= mm < fr.len() ==> fr[mm] == s@[j1 + 1 + mm],
                fv == digits_val(fr.take(m - j1 - 1)),
                m - j1 - 1 < 1 ==> fv == 0,
                m - j1 - 1 < 2 ==> fv < 10,
                m - j1 - 1 < 3 ==> fv < 100,
                fv < 1000,
            decreases k - m,
        {
            let d8 = dec_val_of(s[m]);
            proof {
                assert(is_dec_digit(s@[m as int]));
                lemma_digits_val_take_succ(fr, m - j1 - 1);
                assert(fr[m - j1 - 1] == s@[m as int]);
                assert(forall|mm: int| 0 <= mm < fr.take(m - j1 - 1).len()
                    ==> is_dec_digit(#[trigger] fr.take(m - j1 - 1)[mm]));
                lemma_digits_val_nonneg(fr.take(m - j1 - 1));
            }
            fv = fv * 10 + (d8 as u64);
            m = m + 1;
        }
        proof {
            assert(fr.take(klen) == ds);
        }
        let frac: u64 = if k - (j1 + 1) == 1 {
            fv * 100
        } else if k - (j1 + 1) == 2 {
            fv * 10
        } else {
            fv
        };
        if sec > (u64::MAX - frac) / 1000 {
            return None;
        }
        proof {
            vstd::arithmetic::div_mod::lemma_fundamental_div_mod((u64::MAX - frac) as int, 1000);
            assert(sec * 1000 + frac <= u64::MAX) by (nonlinear_arith)
                requires
                    0 <= sec <= (u64::MAX - frac) as int / 1000,
                    (u64::MAX - frac) as int == 1000 * ((u64::MAX - frac) as int / 1000) + (u64::MAX - frac) as int % 1000,
                    0 <= (u64::MAX - frac) as int % 1000 < 1000,
                    0 <= frac,
            {}
            assert(fr.skip(klen) =~= s@.skip(k as int));
        }
        Some((sec * 1000 + frac, k))
    } else {
        proof {
            if r1.len() >= 2 && r1[0] == '.' {
                assert(r1[1] == s@[j1 + 1]);
            }
        }
        if sec > u64::MAX / 1000 {
            return None;
        }
        proof {
            vstd::arithmetic::div_mod::lemma_fundamental_div_mod(u64::MAX as int, 1000);
            assert(sec * 1000 <= u64::MAX) by (nonlinear_arith)
                requires
                    0 <= sec <= u64::MAX as int / 1000,
                    u64::MAX as int == 1000 * (u64::MAX as int / 1000) + u64::MAX as int % 1000,
                    0 <= u64::MAX as int % 1000 < 1000,
            {}
        }
        Some((sec * 1000, j1))
    }
}


// ---------------------------------------------------------------------
// Optional values (null or a value)
// ---------------------------------------------------------------------

/// An optional string: `null` or a string literal.
pub open spec fn enc_opt_str(o: Option<Seq<char>>) -> Seq<char> {
    match o {
        None => "null"@,
        Some(s) => enc_str(s),
    }
}

pub open spec fn dec_opt_str(s: Seq<char>) -> Option<(Option<Seq<char>>, Seq<char>)> {
    match dec_lit(s, "null"@) {
        Some(r) => Some((None, r)),
        None => match dec_str(s) {
            Some((v, r)) => Some((Some(v), r)),
            None => None,
        },
    }
}

pub proof fn lemma_dec_enc_opt_str(o: Option<Seq<char>>, rest: Seq<char>)
    ensures
        dec_opt_str(enc_opt_str(o) + rest) == Some((o, rest)),
{
    reveal_strlit("null");
    match o {
        None => {
            lemma_dec_lit("null"@, rest);
        },
        Some(v) => {
            let s = enc_str(v) + rest;
            assert(s[0] == '"');
            assert("null"@[0] == 'n');
            assert(dec_lit(s, "null"@) is None) by {
                if "null"@.is_prefix_of(s) {
                    assert(s.take(4)[0] == s[0]);
                }
            }
            lemma_dec_enc_str(v, rest);
        },
    }
}

pub fn push_opt_str(out: &mut Vec<char>, o: &Option<Vec<char>>)
    ensures
        final(out)@ == old(out)@ + enc_opt_str(match o {
            Some(v) => Some(v@),
            None => None,
        }),
{
    match o {
        None => {
            let lit = str_to_chars("null");
            push_chars(out, &lit);
        },
        Some(v) => {
            push_str_lit(out, v);
        },
    }
}

pub fn parse_opt_str(s: &Vec<char>, i: usize) -> (r: Option<(Option<Vec<char>>, usize)>)
    requires
        i <= s@.len(),
    ensures
        match r {
            Some((v, j)) => {
                &&& i <= j <= s@.len()
                &&& dec_opt_str(s@.skip(i as int)) == Some((match v {
                    Some(vv) => Some(vv@),
                    None => None,
                }, s@.skip(j as int)))
            },
            None => dec_opt_str(s@.skip(i as int)) is None,
        },
{
    let lit = str_to_chars("null");
    match parse_lit(s, i, &lit) {
        Some(j) => Some((None, j)),
        None => match parse_str(s, i) {
            Some((v, j)) => Some((Some(v), j)),
            None => None,
        },
    }
}

/// An optional number: `null` or decimal digits.
pub open spec fn enc_opt_u64(o: Option<u64>) -> Seq<char> {
    match o {
        None => "null"@,
        Some(n) => dec_digits(n as int),
    }
}

pub open spec fn dec_opt_u64(s: Seq<char>) -> Option<(Option<u64>, Seq<char>)> {
    match dec_lit(s, "null"@) {
        Some(r) => Some((None, r)),
        None => match dec_u64(s) {
            Some((v, r)) => Some((Some(v), r)),
            None => None,
        },
    }
}

pub proof fn lemma_dec_enc_opt_u64(o: Option<u64>, rest: Seq<char>)
    requires
        rest.len() == 0 || !is_dec_digit(rest[0]),
    ensures
        dec_opt_u64(enc_opt_u64(o) + rest) == Some((o, rest)),
{
    reveal_strlit("null");
    match o {
        None => {
            lemma_dec_lit("null"@, rest);
        },
        Some(n) => {
            let s = dec_digits(n as int) + rest;
            lemma_dec_digits_facts(n as int);
            assert(s[0] == dec_digits(n as int)[0]);
            assert(is_dec_digit(s[0]));
            assert("null"@[0] == 'n');
            assert(dec_lit(s, "null"@) is None) by {
                if "null"@.is_prefix_of(s) {
                    assert(s.take(4)[0] == s[0]);
                }
            }
            lemma_dec_enc_u64(n, rest);
        },
    }
}

pub fn push_opt_u64(out: &mut Vec<char>, o: &Option<u64>)
    ensures
        final(out)@ == old(out)@ + enc_opt_u64(*o),
{
    match o {
        None => {
            let lit = str_to_chars("null");
            push_chars(out, &lit);
        },
        Some(n) => {
            push_u64(out, *n);
        },
    }
}

pub fn parse_opt_u64(s: &Vec<char>, i: usize) -> (r: Option<(Option<u64>, usize)>)
    requires
        i <= s@.len(),
    ensures
        match r {
            Some((v, j)) => {
                &&& i <= j <= s@.len()
                &&& dec_opt_u64(s@.skip(i as int)) == Some((v, s@.skip(j as int)))
            },
            None => dec_opt_u64(s@.skip(i as int)) is None,
        },
{
    let lit = str_to_chars("null");
    match parse_lit(s, i, &lit) {
        Some(j) => Some((None, j)),
        None => match parse_u64(s, i) {
            Some((v, j)) => Some((Some(v), j)),
            None => None,
        },
    }
}

/// An optional duration: `null` or seconds.
pub open spec fn enc_opt_secs(o: Option<u64>) -> Seq<char> {
    match o {
        None => "null"@,
        Some(ms) => enc_secs(ms as int),
    }
}

pub open spec fn dec_opt_secs(s: Seq<char>) -> Option<(Option<u64>, Seq<char>)> {
    match dec_lit(s, "null"@) {
        Some(r) => Some((None, r)),
        None => match dec_secs(s) {
            Some((v, r)) => Some((Some(v), r)),
            None => None,
        },
    }
}

pub proof fn lemma_dec_enc_opt_secs(o: Option<u64>, rest: Seq<char>)
    requires
        rest.len() == 0 || (!is_dec_digit(rest[0]) && rest[0] != '.'),
    ensures
        dec_opt_secs(enc_opt_secs(o) + rest) == Some((o, rest)),
{
    reveal_strlit("null");
    match o {
        None => {
            lemma_dec_lit("null"@, rest);
        },
        Some(ms) => {
            let s = enc_secs(ms as int) + rest;
            lemma_dec_digits_facts(ms as int / 1000);
            assert(s[0] == enc_secs(ms as int)[0]);
            assert(enc_secs(ms as int)[0] == dec_digits(ms as int / 1000)[0]);
            assert(is_dec_digit(s[0]));
            assert("null"@[0] == 'n');
            assert(dec_lit(s, "null"@) is None) by {
                if "null"@.is_prefix_of(s) {
                    assert(s.take(4)[0] == s[0]);
                }
            }
            lemma_dec_enc_secs(ms, rest);
        },
    }
}

pub fn push_opt_secs(out: &mut Vec<char>, o: &Option<u64>)
    ensures
        final(out)@ == old(out)@ + enc_opt_secs(*o),
{
    match o {
        None => {
            let lit = str_to_chars("null");
            push_chars(out, &lit);
        },
        Some(ms) => {
            push_secs(out, *ms);
        },
    }
}

pub fn parse_opt_secs(s: &Vec<char>, i: usize) -> (r: Option<(Option<u64>, usize)>)
    requires
        i <= s@.len(),
    ensures
        match r {
            Some((v, j)) => {
                &&& i <= j <= s@.len()
                &&& dec_opt_secs(s@.skip(i as int)) == Some((v, s@.skip(j as int)))
            },
            None => dec_opt_secs(s@.skip(i as int)) is None,
        },
{
    let lit = str_to_chars("null");
    match parse_lit(s, i, &lit) {
        Some(j) => Some((None, j)),
        None => match parse_secs(s, i) {
            Some((v, j)) => Some((Some(v), j)),
            None => None,
        },
    }
}

/// Compares two character vectors.
pub fn chars_eq(a: &Vec<char>, b: &Vec<char>) -> (r: bool)
    ensures
        r == (a@ == b@),
{
    if a.len() != b.len() {
        proof {
            assert(a@.len() != b@.len());
        }
        return false;
    }
    let mut m: usize = 0;
    while m < a.len()
        invariant
            m <= a@.len(),
            a@.len() == b@.len(),
            forall|mm: int| 0 <= mm < m ==> a@[mm] == b@[mm],
        decreases a@.len() - m,
    {
        if a[m] != b[m] {
            return false;
        }
        m = m + 1;
    }
    proof {
        assert(a@ =~= b@);
    }
    true
}

} // verus!


