//! Byte-level lexing for the geometry interchange format: separator-delimited
//! tokens, line scanning, and decimal integer fields, each with an exact
//! specification.
use vstd::prelude::*;

verus! {

/// Space, horizontal tab, carriage return or line feed: the separators between
/// fields of a header line or of a text payload record.
pub open spec fn is_sep(b: u8) -> bool {
    b == 32 || b == 9 || b == 13 || b == 10
}

fn sep(b: u8) -> (r: bool)
    ensures
        r == is_sep(b),
{
    b == 32 || b == 9 || b == 13 || b == 10
}

/// How many bytes the token starting at the head of `s` spans: the count of
/// leading non-separator bytes.
pub open spec fn token_len(s: Seq<u8>) -> nat
    decreases s.len(),
{
    if s.len() == 0 || is_sep(s[0]) {
        0
    } else {
        (1 + token_len(s.drop_first())) as nat
    }
}

/// The separator-delimited tokens of `s`, in order, each one a maximal run of
/// non-separator bytes.
pub open spec fn spec_tokens(s: Seq<u8>) -> Seq<Seq<u8>>
    decreases s.len(),
    via spec_tokens_decreases
{
    if s.len() == 0 {
        seq![]
    } else if is_sep(s[0]) {
        spec_tokens(s.drop_first())
    } else {
        seq![s.take(token_len(s) as int)] + spec_tokens(s.skip(token_len(s) as int))
    }
}

/// The head token never runs past the end of the sequence.
proof fn lemma_token_len_le(s: Seq<u8>)
    ensures
        token_len(s) <= s.len(),
    decreases s.len(),
{
    if s.len() != 0 && !is_sep(s[0]) {
        lemma_token_len_le(s.drop_first());
    }
}

#[via_fn]
proof fn spec_tokens_decreases(s: Seq<u8>) {
    if s.len() != 0 && !is_sep(s[0]) {
        assert(token_len(s) == 1 + token_len(s.drop_first()));
        lemma_token_len_le(s);
    }
}

/// `token_len` finds exactly the first separator: if the first `m` bytes are
/// not separators and byte `m` is one (or the sequence ends), the head token
/// spans `m` bytes.
proof fn lemma_token_len_at(s: Seq<u8>, m: int)
    requires
        0 <= m <= s.len(),
        forall|k: int| 0 <= k < m ==> !is_sep(s[k]),
        m == s.len() || is_sep(s[m]),
    ensures
        token_len(s) == m,
    decreases m,
{
    if m == 0 {
    } else {
        assert(!is_sep(s[0]));
        let t = s.drop_first();
        assert forall|k: int| 0 <= k < m - 1 implies !is_sep(t[k]) by {
            assert(t[k] == s[k + 1]);
        }
        if m < s.len() {
            assert(t[m - 1] == s[m]);
        }
        lemma_token_len_at(t, m - 1);
    }
}

/// Copies `s[start..end]` into a fresh vector.
pub fn copy_range(s: &[u8], start: usize, end: usize) -> (r: Vec<u8>)
    requires
        start <= end <= s@.len(),
    ensures
        r@ == s@.subrange(start as int, end as int),
{
    let mut r: Vec<u8> = Vec::new();
    let mut k = start;
    while k < end
        invariant
            start <= k <= end <= s@.len(),
            r@ == s@.subrange(start as int, k as int),
        decreases end - k,
    {
        r.push(s[k]);
        proof {
            assert(r@ =~= s@.subrange(start as int, k as int + 1));
        }
        k += 1;
    }
    r
}

/// Splits `s` into its separator-delimited tokens.
pub fn split_tokens(s: &[u8]) -> (r: Vec<Vec<u8>>)
    ensures
        r@.map_values(|t: Vec<u8>| t@) == spec_tokens(s@),
{
    let mut out: Vec<Vec<u8>> = Vec::new();
    let mut i: usize = 0;
    proof {
        assert(s@.skip(0) =~= s@);
        assert(out@.map_values(|t: Vec<u8>| t@) + spec_tokens(s@) =~= spec_tokens(s@));
    }
    while i < s.len()
        invariant
            i <= s@.len(),
            spec_tokens(s@) == out@.map_values(|t: Vec<u8>| t@) + spec_tokens(s@.skip(i as int)),
        decreases s@.len() - i,
    {
        if sep(s[i]) {
            proof {
                assert(s@.skip(i as int).drop_first() =~= s@.skip(i as int + 1));
            }
            i += 1;
        } else {
            let start = i;
            let mut j = i + 1;
            while j < s.len() && !sep(s[j])
                invariant
                    start < j <= s@.len(),
                    forall|k: int| start <= k < j ==> !is_sep(s@[k]),
                decreases s@.len() - j,
            {
                j += 1;
            }
            let ghost rest = s@.skip(start as int);
            proof {
                assert forall|k: int| 0 <= k < j - start implies !is_sep(rest[k]) by {
                    assert(rest[k] == s@[start + k]);
                }
                if (j as int) < s@.len() {
                    assert(rest[j - start] == s@[j as int]);
                }
                lemma_token_len_at(rest, j - start);
                assert(rest.take((j - start) as int) =~= s@.subrange(start as int, j as int));
                assert(rest.skip((j - start) as int) =~= s@.skip(j as int));
            }
            let tok = copy_range(s, start, j);
            let ghost before = out@.map_values(|t: Vec<u8>| t@);
            out.push(tok);
            proof {
                assert(out@.map_values(|t: Vec<u8>| t@) =~= before.push(tok@));
                assert(seq![tok@] + spec_tokens(s@.skip(j as int)) =~= spec_tokens(
                    s@.skip(start as int),
                ));
                assert(before.push(tok@) + spec_tokens(s@.skip(j as int)) =~= before + (seq![tok@]
                    + spec_tokens(s@.skip(j as int))));
            }
            i = j;
        }
    }
    proof {
        assert(s@.skip(i as int) =~= Seq::<u8>::empty());
        assert(spec_tokens(Seq::<u8>::empty()) =~= Seq::<Seq<u8>>::empty());
        assert(out@.map_values(|t: Vec<u8>| t@) + Seq::<Seq<u8>>::empty() =~= out@.map_values(
            |t: Vec<u8>| t@,
        ));
    }
    out
}

/// An ASCII decimal digit.
pub open spec fn is_digit(b: u8) -> bool {
    48 <= b && b <= 57
}

/// Every byte of `s` is an ASCII decimal digit.
pub open spec fn all_digits(s: Seq<u8>) -> bool {
    forall|i: int| 0 <= i < s.len() ==> is_digit(s[i])
}

/// The value of `s` read as a big-endian string of decimal digits.
pub open spec fn digits_value(s: Seq<u8>) -> int
    decreases s.len(),
{
    if s.len() == 0 {
        0
    } else {
        10 * digits_value(s.drop_last()) + (s.last() - 48)
    }
}

proof fn lemma_digits_value_nonneg(s: Seq<u8>)
    requires
        all_digits(s),
    ensures
        digits_value(s) >= 0,
    decreases s.len(),
{
    if s.len() > 0 {
        let t = s.drop_last();
        assert forall|i: int| 0 <= i < t.len() implies is_digit(t[i]) by {
            assert(t[i] == s[i]);
        }
        lemma_digits_value_nonneg(t);
    }
}

/// Extending a digit string on the right can only grow its value.
proof fn lemma_digits_value_prefix(s: Seq<u8>, i: int)
    requires
        all_digits(s),
        0 <= i <= s.len(),
    ensures
        digits_value(s.take(i)) <= digits_value(s),
    decreases s.len() - i,
{
    if i < s.len() {
        let p = s.take(i);
        let q = s.take(i + 1);
        assert(q.drop_last() =~= p);
        assert forall|k: int| 0 <= k < p.len() implies is_digit(p[k]) by {
            assert(p[k] == s[k]);
        }
        lemma_digits_value_nonneg(p);
        assert(digits_value(q) == 10 * digits_value(p) + (s[i] - 48));
        lemma_digits_value_prefix(s, i + 1);
    } else {
        assert(s.take(i) =~= s);
    }
}

/// The unsigned decimal value of `s`, when `s` is a nonempty digit string
/// whose value fits in 32 bits; `None` otherwise.
pub open spec fn spec_parse_u32(s: Seq<u8>) -> Option<u32> {
    if s.len() > 0 && all_digits(s) && digits_value(s) <= u32::MAX {
        Some(digits_value(s) as u32)
    } else {
        None
    }
}

/// Reads an unsigned decimal field, rejecting empty or non-digit text and
/// values that do not fit in 32 bits.
pub fn parse_u32(s: &[u8]) -> (r: Option<u32>)
    ensures
        r == spec_parse_u32(s@),
{
    if s.len() == 0 {
        return None;
    }
    let mut acc: u64 = 0;
    let mut i: usize = 0;
    while i < s.len()
        invariant
            i <= s@.len(),
            s@.len() > 0,
            forall|k: int| 0 <= k < i ==> is_digit(s@[k]),
            acc == digits_value(s@.take(i as int)),
            acc <= u32::MAX,
        decreases s@.len() - i,
    {
        let b = s[i];
        if b < 48 || b > 57 {
            return None;
        }
        let d = (b - 48) as u64;
        let next = acc * 10 + d;
        proof {
            assert(s@.take(i as int + 1).drop_last() =~= s@.take(i as int));
            assert(digits_value(s@.take(i as int + 1)) == 10 * digits_value(s@.take(i as int)) + (
            s@[i as int] - 48));
        }
        if next > 0xFFFF_FFFF {
            proof {
                if all_digits(s@) && digits_value(s@) <= u32::MAX {
                    lemma_digits_value_prefix(s@, i as int + 1);
                }
            }
            return None;
        }
        acc = next;
        i += 1;
    }
    proof {
        assert(s@.take(s@.len() as int) =~= s@);
    }
    Some(acc as u32)
}

} // verus!
