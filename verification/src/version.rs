//! Model version tags: `"<major>.<minor>.<unix_timestamp>"`.
//!
//! A retrain stamps the new model with the retraining timestamp, so
//! versions grow with time. The tag is built here from verified decimal
//! formatting, and the ordering law is proved: for two retrains whose
//! timestamps have the same number of digits (true for all timestamps
//! from 2001 through 2286), the later retrain's tag is strictly larger
//! in lexicographic string order, and distinct timestamps always give
//! distinct tags.

use vstd::prelude::*;
use vstd::string::StringExecFns;
use crate::fixed::log10_floor;

verus! {

/// The decimal digit character for `d` in `0 ..= 9`.
pub open spec fn digit_char(d: int) -> char {
    if d == 0 {
        '0'
    } else if d == 1 {
        '1'
    } else if d == 2 {
        '2'
    } else if d == 3 {
        '3'
    } else if d == 4 {
        '4'
    } else if d == 5 {
        '5'
    } else if d == 6 {
        '6'
    } else if d == 7 {
        '7'
    } else if d == 8 {
        '8'
    } else {
        '9'
    }
}

/// The decimal digits of `n`, most significant first.
pub open spec fn dec_digits(n: nat) -> Seq<char>
    decreases n,
{
    if n < 10 {
        seq![digit_char(n as int)]
    } else {
        dec_digits(n / 10).push(digit_char((n % 10) as int))
    }
}

/// The character sequence of the version tag `major.minor.timestamp`.
pub open spec fn spec_version(major: u64, minor: u64, timestamp: u64) -> Seq<char> {
    dec_digits(major as nat) + seq!['.'] + dec_digits(minor as nat) + seq!['.'] + dec_digits(
        timestamp as nat,
    )
}

/// Strict lexicographic order on character sequences, by scalar value.
pub open spec fn lex_lt(a: Seq<char>, b: Seq<char>) -> bool
    decreases a.len(),
{
    if b.len() == 0 {
        false
    } else if a.len() == 0 {
        true
    } else if a.first() != b.first() {
        (a.first() as int) < (b.first() as int)
    } else {
        lex_lt(a.drop_first(), b.drop_first())
    }
}

/// One decimal digit, as a string slice.
fn digit_str(d: u64) -> (s: &'static str)
    requires
        d < 10,
    ensures
        s@ == seq![digit_char(d as int)],
{
    let s = if d == 0 {
        "0"
    } else if d == 1 {
        "1"
    } else if d == 2 {
        "2"
    } else if d == 3 {
        "3"
    } else if d == 4 {
        "4"
    } else if d == 5 {
        "5"
    } else if d == 6 {
        "6"
    } else if d == 7 {
        "7"
    } else if d == 8 {
        "8"
    } else {
        "9"
    };
    proof {
        reveal_strlit("0");
        reveal_strlit("1");
        reveal_strlit("2");
        reveal_strlit("3");
        reveal_strlit("4");
        reveal_strlit("5");
        reveal_strlit("6");
        reveal_strlit("7");
        reveal_strlit("8");
        reveal_strlit("9");
        assert(s@ =~= seq![digit_char(d as int)]);
    }
    s
}

/// Format `n` in decimal.
pub fn u64_to_string(n: u64) -> (s: String)
    ensures
        s@ == dec_digits(n as nat),
    decreases n,
{
    if n < 10 {
        String::from_str(digit_str(n))
    } else {
        let mut s = u64_to_string(n / 10);
        s.append(digit_str(n % 10));
        proof {
            assert(dec_digits((n / 10) as nat) + seq![digit_char((n % 10) as int)] =~= dec_digits(
                n as nat,
            ));
        }
        s
    }
}

/// Build the version tag `"<major>.<minor>.<timestamp>"`.
pub fn version_string(major: u64, minor: u64, timestamp: u64) -> (s: String)
    ensures
        s@ == spec_version(major, minor, timestamp),
{
    proof {
        reveal_strlit(".");
    }
    let mut s = u64_to_string(major);
    s.append(".");
    let minor_s = u64_to_string(minor);
    s.append(minor_s.as_str());
    s.append(".");
    let ts_s = u64_to_string(timestamp);
    s.append(ts_s.as_str());
    proof {
        assert(s@ =~= spec_version(major, minor, timestamp));
    }
    s
}

/// A number's digit string is one longer than its floored log.
pub proof fn lemma_dec_digits_len(n: nat)
    ensures
        dec_digits(n).len() == log10_floor(n) + 1,
    decreases n,
{
    if n >= 10 {
        lemma_dec_digits_len(n / 10);
    }
}

/// Nothing precedes itself lexicographically.
pub proof fn lemma_lex_lt_irrefl(a: Seq<char>)
    ensures
        !lex_lt(a, a),
    decreases a.len(),
{
    if a.len() > 0 {
        lemma_lex_lt_irrefl(a.drop_first());
    }
}

/// A shared prefix does not affect the lexicographic comparison.
pub proof fn lemma_lex_common_prefix(p: Seq<char>, a: Seq<char>, b: Seq<char>)
    ensures
        lex_lt(p + a, p + b) == lex_lt(a, b),
    decreases p.len(),
{
    if p.len() == 0 {
        assert(p + a =~= a);
        assert(p + b =~= b);
    } else {
        assert((p + a).len() > 0);
        assert((p + b).len() > 0);
        assert((p + a).first() == p.first());
        assert((p + b).first() == p.first());
        assert((p + a).drop_first() =~= p.drop_first() + a);
        assert((p + b).drop_first() =~= p.drop_first() + b);
        lemma_lex_common_prefix(p.drop_first(), a, b);
    }
}

/// Comparing equal-length sequences extended by one character on the
/// right: the prefixes decide, and the new characters break the tie.
proof fn lemma_lex_push(p1: Seq<char>, p2: Seq<char>, c1: char, c2: char)
    requires
        p1.len() == p2.len(),
    ensures
        lex_lt(p1.push(c1), p2.push(c2)) == (lex_lt(p1, p2) || (p1 == p2 && (c1 as int) < (
        c2 as int))),
    decreases p1.len(),
{
    reveal_with_fuel(lex_lt, 3);
    if p1.len() == 0 {
        assert(p1.push(c1) =~= seq![c1]);
        assert(p2.push(c2) =~= seq![c2]);
        assert(p1 =~= p2);
        assert(p1.push(c1).first() == c1);
        assert(p2.push(c2).first() == c2);
        assert(p1.push(c1).drop_first() =~= Seq::<char>::empty());
        assert(p2.push(c2).drop_first() =~= Seq::<char>::empty());
    } else {
        assert(p1.push(c1).first() == p1.first());
        assert(p2.push(c2).first() == p2.first());
        assert(p1.push(c1).drop_first() =~= p1.drop_first().push(c1));
        assert(p2.push(c2).drop_first() =~= p2.drop_first().push(c2));
        lemma_lex_push(p1.drop_first(), p2.drop_first(), c1, c2);
        if p1.first() == p2.first() && p1.drop_first() == p2.drop_first() {
            assert(p1 =~= p2) by {
                assert forall|i: int| 0 <= i < p1.len() implies p1[i] == p2[i] by {
                    if i > 0 {
                        assert(p1[i] == p1.drop_first()[i - 1]);
                        assert(p2[i] == p2.drop_first()[i - 1]);
                    }
                }
            }
        }
        if p1 == p2 {
            assert(p1.drop_first() == p2.drop_first());
        }
    }
}

/// Digit characters order as their digits do.
proof fn lemma_digit_char_monotone(d1: int, d2: int)
    requires
        0 <= d1 < d2 < 10,
    ensures
        (digit_char(d1) as int) < (digit_char(d2) as int),
        digit_char(d1) != digit_char(d2),
{
}

/// Equal-digit-count numbers compare lexicographically as numbers.
pub proof fn lemma_dec_digits_lex(n1: nat, n2: nat)
    requires
        n1 < n2,
        dec_digits(n1).len() == dec_digits(n2).len(),
    ensures
        lex_lt(dec_digits(n1), dec_digits(n2)),
    decreases n2,
{
    if n2 < 10 {
        assert(dec_digits(n1) =~= seq![digit_char(n1 as int)]);
        assert(dec_digits(n2) =~= seq![digit_char(n2 as int)]);
        lemma_digit_char_monotone(n1 as int, n2 as int);
    } else {
        lemma_dec_digits_len(n1);
        lemma_dec_digits_len(n2);
        if n1 < 10 {
            assert(log10_floor(n1) == 0);
            assert(log10_floor(n2) >= 1);
            assert(false);
        }
        let p1 = dec_digits(n1 / 10);
        let p2 = dec_digits(n2 / 10);
        lemma_dec_digits_len(n1 / 10);
        lemma_dec_digits_len(n2 / 10);
        assert(p1.len() == p2.len());
        lemma_lex_push(p1, p2, digit_char((n1 % 10) as int), digit_char((n2 % 10) as int));
        if n1 / 10 == n2 / 10 {
            assert(n1 % 10 < n2 % 10);
            lemma_digit_char_monotone((n1 % 10) as int, (n2 % 10) as int);
        } else {
            assert(n1 / 10 < n2 / 10);
            lemma_dec_digits_lex(n1 / 10, n2 / 10);
        }
    }
}

/// Version monotonicity: two retrains whose timestamps have the same
/// number of decimal digits produce strictly increasing version tags
/// (lexicographically), under the same major and minor version.
pub proof fn lemma_version_monotone(major: u64, minor: u64, ts1: u64, ts2: u64)
    requires
        ts1 < ts2,
        log10_floor(ts1 as nat) == log10_floor(ts2 as nat),
    ensures
        lex_lt(spec_version(major, minor, ts1), spec_version(major, minor, ts2)),
        spec_version(major, minor, ts1) != spec_version(major, minor, ts2),
{
    let p = dec_digits(major as nat) + seq!['.'] + dec_digits(minor as nat) + seq!['.'];
    lemma_dec_digits_len(ts1 as nat);
    lemma_dec_digits_len(ts2 as nat);
    lemma_dec_digits_lex(ts1 as nat, ts2 as nat);
    lemma_lex_common_prefix(p, dec_digits(ts1 as nat), dec_digits(ts2 as nat));
    assert(spec_version(major, minor, ts1) =~= p + dec_digits(ts1 as nat));
    assert(spec_version(major, minor, ts2) =~= p + dec_digits(ts2 as nat));
    lemma_lex_lt_irrefl(spec_version(major, minor, ts1));
}

/// Distinct timestamps always give distinct version tags, digit counts
/// aside.
pub proof fn lemma_version_injective(major: u64, minor: u64, ts1: u64, ts2: u64)
    requires
        ts1 != ts2,
    ensures
        spec_version(major, minor, ts1) != spec_version(major, minor, ts2),
{
    lemma_dec_digits_len(ts1 as nat);
    lemma_dec_digits_len(ts2 as nat);
    if log10_floor(ts1 as nat) == log10_floor(ts2 as nat) {
        if ts1 < ts2 {
            lemma_version_monotone(major, minor, ts1, ts2);
        } else {
            lemma_version_monotone(major, minor, ts2, ts1);
        }
    } else {
        assert(spec_version(major, minor, ts1).len() != spec_version(major, minor, ts2).len());
    }
}

} // verus!
