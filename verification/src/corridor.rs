//! Corridor identity: parsing and stable hashing.
//!
//! A corridor is named by a string of the form `"ASSET_CODE-ASSET_ISSUER"`.
//! The code is everything before the first `-`, the issuer everything
//! between the first and the second `-`; a missing part is the empty
//! string. The pair is hashed with 64-bit FNV-1a over the characters'
//! scalar values, with a separator outside the range of any character
//! between the two parts. FNV-1a is defined here in full, so the hash is
//! a fixed, exactly specified function of the string: the same corridor
//! yields the same value in every process and on every run. The hash is
//! reduced modulo 1000 and scaled into `[0, MICRO)`.

use vstd::prelude::*;
use vstd::string::StrSliceExecFns;
use crate::MICRO;

verus! {

/// FNV-1a 64-bit offset basis.
pub const FNV_OFFSET: u64 = 0xcbf2_9ce4_8422_2325;

/// FNV-1a 64-bit prime.
pub const FNV_PRIME: u64 = 0x100_0000_01b3;

/// Separator folded between asset code and issuer; one past the largest
/// Unicode scalar value, so no character collides with it.
pub const PAIR_SEPARATOR: u64 = 0x11_0000;

/// One FNV-1a round: xor in the value, multiply by the prime modulo 2^64.
pub open spec fn fnv_step(h: u64, v: u64) -> u64 {
    ((((h ^ v) as int) * (FNV_PRIME as int)) % 0x1_0000_0000_0000_0000) as u64
}

/// Fold FNV-1a over a sequence of characters, left to right.
pub open spec fn fnv_fold(s: Seq<char>, h: u64) -> u64
    decreases s.len(),
{
    if s.len() == 0 {
        h
    } else {
        fnv_fold(s.drop_first(), fnv_step(h, s.first() as u64))
    }
}

/// The stable hash of a (code, issuer) pair.
pub open spec fn spec_pair_hash(code: Seq<char>, issuer: Seq<char>) -> u64 {
    fnv_fold(issuer, fnv_step(fnv_fold(code, FNV_OFFSET), PAIR_SEPARATOR))
}

/// Index of the first `-` at or after `from`, or `s.len()` if none.
pub open spec fn find_dash(s: Seq<char>, from: int) -> int
    recommends
        0 <= from <= s.len(),
    decreases s.len() - from,
{
    if from < 0 || from >= s.len() {
        s.len() as int
    } else if s[from] == '-' {
        from
    } else {
        find_dash(s, from + 1)
    }
}

/// The asset code part of a corridor string.
pub open spec fn corridor_code(s: Seq<char>) -> Seq<char> {
    s.subrange(0, find_dash(s, 0))
}

/// The asset issuer part of a corridor string (empty if there is no `-`).
pub open spec fn corridor_issuer(s: Seq<char>) -> Seq<char> {
    let d1 = find_dash(s, 0);
    if d1 == s.len() {
        Seq::empty()
    } else {
        s.subrange(d1 + 1, find_dash(s, d1 + 1))
    }
}

/// The corridor-identity feature in micros: the pair hash reduced modulo
/// 1000 and scaled by 1000, so it lies in `[0, MICRO)`.
pub open spec fn spec_corridor_hash(s: Seq<char>) -> u64 {
    ((spec_pair_hash(corridor_code(s), corridor_issuer(s)) % 1000) * 1000) as u64
}

/// The corridor hash is stable: it is a pure function of the corridor
/// string's characters, so the same string yields the same value on
/// every call, in every process and on every run, and the value always
/// lies in `[0, MICRO)`.
pub proof fn lemma_corridor_hash_stable(s1: Seq<char>, s2: Seq<char>)
    requires
        s1 == s2,
    ensures
        spec_corridor_hash(s1) == spec_corridor_hash(s2),
        spec_corridor_hash(s1) < MICRO,
{
}

proof fn lemma_find_dash_range(s: Seq<char>, from: int)
    requires
        0 <= from <= s.len(),
    ensures
        from <= find_dash(s, from) <= s.len(),
    decreases s.len() - from,
{
    if from < s.len() && s[from] != '-' {
        lemma_find_dash_range(s, from + 1);
    }
}

/// Folding one more character on the right is one more FNV round.
proof fn lemma_fnv_fold_push(s: Seq<char>, c: char, h: u64)
    ensures
        fnv_fold(s.push(c), h) == fnv_step(fnv_fold(s, h), c as u64),
    decreases s.len(),
{
    reveal_with_fuel(fnv_fold, 3);
    if s.len() == 0 {
        assert(s.push(c).drop_first() =~= Seq::<char>::empty());
        assert(s.push(c).first() == c);
    } else {
        assert(s.push(c).drop_first() =~= s.drop_first().push(c));
        assert(s.push(c).first() == s.first());
        lemma_fnv_fold_push(s.drop_first(), c, fnv_step(h, s.first() as u64));
    }
}

/// One FNV-1a round, executable.
fn fnv_step_u64(h: u64, v: u64) -> (r: u64)
    ensures
        r == fnv_step(h, v),
{
    proof {
        vstd::arithmetic::mul::lemma_mul_upper_bound(
            (h ^ v) as int,
            0xffff_ffff_ffff_ffff,
            FNV_PRIME as int,
            0x100_0000_01b3,
        );
    }
    let prod: u128 = ((h ^ v) as u128) * (FNV_PRIME as u128);
    (prod % 0x1_0000_0000_0000_0000u128) as u64
}

/// Index of the first `-` at or after `from` in `s`, or the character
/// length of `s` if there is none.
fn find_dash_str(s: &str, from: usize, n: usize) -> (r: usize)
    requires
        n == s@.len(),
        from <= n,
    ensures
        r == find_dash(s@, from as int),
        from <= r <= n,
{
    proof {
        lemma_find_dash_range(s@, from as int);
    }
    let mut i: usize = from;
    while i < n
        invariant
            from <= i <= n,
            n == s@.len(),
            find_dash(s@, from as int) == find_dash(s@, i as int),
            from <= find_dash(s@, from as int) <= n,
        decreases n - i,
    {
        let c = s.get_char(i);
        if c == '-' {
            return i;
        }
        i = i + 1;
    }
    i
}

/// Fold FNV-1a over the characters of `s` with indices in `[from, to)`.
fn fnv_fold_str(s: &str, from: usize, to: usize, h0: u64) -> (r: u64)
    requires
        from <= to <= s@.len(),
    ensures
        r == fnv_fold(s@.subrange(from as int, to as int), h0),
{
    let mut h: u64 = h0;
    let mut i: usize = from;
    while i < to
        invariant
            from <= i <= to <= s@.len(),
            h == fnv_fold(s@.subrange(from as int, i as int), h0),
        decreases to - i,
    {
        let c = s.get_char(i);
        proof {
            assert(s@.subrange(from as int, i + 1) =~= s@.subrange(
                from as int,
                i as int,
            ).push(s@[i as int]));
            lemma_fnv_fold_push(s@.subrange(from as int, i as int), s@[i as int], h0);
        }
        h = fnv_step_u64(h, c as u64);
        i = i + 1;
    }
    proof {
        if from == to {
            assert(s@.subrange(from as int, to as int) =~= Seq::<char>::empty());
        }
    }
    h
}

/// The pair hash reduced modulo 1000 and scaled into `[0, MICRO)`.
pub open spec fn spec_pair_hash_micros(code: Seq<char>, issuer: Seq<char>) -> u64 {
    ((spec_pair_hash(code, issuer) % 1000) * 1000) as u64
}

/// The corridor-identity feature of an already split (code, issuer)
/// pair, in micros; used for bulk encoding of historical records.
pub fn pair_hash_micros(code: &str, issuer: &str) -> (r: u64)
    ensures
        r == spec_pair_hash_micros(code@, issuer@),
        r < MICRO,
{
    let nc = code.unicode_len();
    let ni = issuer.unicode_len();
    let code_hash = fnv_fold_str(code, 0, nc, FNV_OFFSET);
    let h_sep = fnv_step_u64(code_hash, PAIR_SEPARATOR);
    let h = fnv_fold_str(issuer, 0, ni, h_sep);
    proof {
        assert(code@.subrange(0, nc as int) =~= code@);
        assert(issuer@.subrange(0, ni as int) =~= issuer@);
    }
    (h % 1000) * 1000
}

/// The corridor-identity feature of a corridor string, in micros.
///
/// Deterministic and stable: the result is `spec_corridor_hash` of the
/// string's characters, so equal strings always hash alike, within a run
/// and across runs.
pub fn corridor_hash_micros(corridor: &str) -> (r: u64)
    ensures
        r == spec_corridor_hash(corridor@),
        r < MICRO,
{
    let n = corridor.unicode_len();
    let d1 = find_dash_str(corridor, 0, n);
    let code_hash = fnv_fold_str(corridor, 0, d1, FNV_OFFSET);
    proof {
        assert(corridor@.subrange(0, d1 as int) =~= corridor_code(corridor@));
    }
    let h_sep = fnv_step_u64(code_hash, PAIR_SEPARATOR);
    let h = if d1 == n {
        proof {
            assert(corridor_issuer(corridor@) =~= Seq::<char>::empty());
        }
        h_sep
    } else {
        let d2 = find_dash_str(corridor, d1 + 1, n);
        proof {
            assert(corridor@.subrange(d1 + 1, d2 as int) =~= corridor_issuer(corridor@));
        }
        fnv_fold_str(corridor, d1 + 1, d2, h_sep)
    };
    (h % 1000) * 1000
}

} // verus!
