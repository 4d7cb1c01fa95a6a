//! Character-sequence models: splitting on a separator, decimal digit
//! strings, and lexicographic ordering. These spec functions are the
//! vocabulary in which the parsing and comparison contracts are stated.

use vstd::prelude::*;

use crate::outcome::VersionComparison;
use crate::outcome::flip;

verus! {

/// The segments of `s` delimited by `sep`, in order. A sequence with no
/// separator is a single segment; each separator ends a segment, so `n`
/// separators yield `n + 1` segments (possibly empty ones).
pub open spec fn split_on(s: Seq<char>, sep: char) -> Seq<Seq<char>>
    decreases s.len(),
{
    if s.len() == 0 {
        seq![Seq::<char>::empty()]
    } else if s[0] == sep {
        seq![Seq::<char>::empty()] + split_on(s.skip(1), sep)
    } else {
        let rest = split_on(s.skip(1), sep);
        seq![seq![s[0]] + rest[0]] + rest.skip(1)
    }
}

/// Splitting always yields at least one segment.
pub proof fn lemma_split_on_len(s: Seq<char>, sep: char)
    ensures
        split_on(s, sep).len() >= 1,
    decreases s.len(),
{
    if s.len() == 0 {
    } else {
        lemma_split_on_len(s.skip(1), sep);
    }
}

/// A sequence without the separator is its own single segment.
pub proof fn lemma_split_on_no_sep(s: Seq<char>, sep: char)
    requires
        !s.contains(sep),
    ensures
        split_on(s, sep) == seq![s],
    decreases s.len(),
{
    if s.len() == 0 {
        assert(s =~= Seq::<char>::empty());
        assert(split_on(s, sep) =~~= seq![s]);
    } else {
        assert(s[0] != sep) by {
            assert(s.contains(sep) <==> exists|i: int| 0 <= i < s.len() && s[i] == sep);
        }
        assert(!s.skip(1).contains(sep)) by {
            if s.skip(1).contains(sep) {
                let i = choose|i: int| 0 <= i < s.skip(1).len() && s.skip(1)[i] == sep;
                assert(s[i + 1] == sep);
            }
        }
        lemma_split_on_no_sep(s.skip(1), sep);
        lemma_split_on_len(s.skip(1), sep);
        assert(seq![s[0]] + s.skip(1) =~= s);
        assert(split_on(s, sep) =~~= seq![s]);
    }
}

/// Splitting a sequence that begins with a separator-free prefix `a`,
/// followed by one separator, followed by `b`, yields `a` and then the
/// segments of `b`.
pub proof fn lemma_split_on_concat(a: Seq<char>, b: Seq<char>, sep: char)
    requires
        !a.contains(sep),
    ensures
        split_on(a + seq![sep] + b, sep) == seq![a] + split_on(b, sep),
    decreases a.len(),
{
    let s = a + seq![sep] + b;
    if a.len() == 0 {
        assert(s[0] == sep);
        assert(s.skip(1) =~= b);
        assert(a =~= Seq::<char>::empty());
        assert(split_on(s, sep) =~~= seq![a] + split_on(b, sep));
    } else {
        assert(a[0] != sep) by {
            assert(a.contains(sep) <==> exists|i: int| 0 <= i < a.len() && a[i] == sep);
        }
        assert(s[0] == a[0]);
        assert(!a.skip(1).contains(sep)) by {
            if a.skip(1).contains(sep) {
                let i = choose|i: int| 0 <= i < a.skip(1).len() && a.skip(1)[i] == sep;
                assert(a[i + 1] == sep);
            }
        }
        assert(s.skip(1) =~= a.skip(1) + seq![sep] + b);
        lemma_split_on_concat(a.skip(1), b, sep);
        lemma_split_on_len(b, sep);
        let rest = split_on(s.skip(1), sep);
        assert(rest == seq![a.skip(1)] + split_on(b, sep));
        assert(rest[0] == a.skip(1));
        assert(rest.skip(1) =~= split_on(b, sep));
        assert(seq![s[0]] + a.skip(1) =~= a);
        assert(split_on(s, sep) =~~= seq![a] + split_on(b, sep));
    }
}

/// The part of `s` before the first occurrence of `sep`; all of `s` when the
/// separator does not occur.
pub open spec fn before_first(s: Seq<char>, sep: char) -> Seq<char>
    decreases s.len(),
{
    if s.len() == 0 {
        s
    } else if s[0] == sep {
        Seq::<char>::empty()
    } else {
        seq![s[0]] + before_first(s.skip(1), sep)
    }
}

/// The part of `s` after the first occurrence of `sep`, or `None` when the
/// separator does not occur.
pub open spec fn after_first(s: Seq<char>, sep: char) -> Option<Seq<char>>
    decreases s.len(),
{
    if s.len() == 0 {
        None
    } else if s[0] == sep {
        Some(s.skip(1))
    } else {
        after_first(s.skip(1), sep)
    }
}

/// Without the separator, the "before" part is all of `s` and there is no
/// "after" part.
pub proof fn lemma_first_split_no_sep(s: Seq<char>, sep: char)
    requires
        !s.contains(sep),
    ensures
        before_first(s, sep) == s,
        after_first(s, sep) is None,
    decreases s.len(),
{
    if s.len() == 0 {
        assert(before_first(s, sep) =~= s);
    } else {
        assert(s[0] != sep) by {
            assert(s.contains(sep) <==> exists|i: int| 0 <= i < s.len() && s[i] == sep);
        }
        assert(!s.skip(1).contains(sep)) by {
            if s.skip(1).contains(sep) {
                let i = choose|i: int| 0 <= i < s.skip(1).len() && s.skip(1)[i] == sep;
                assert(s[i + 1] == sep);
            }
        }
        lemma_first_split_no_sep(s.skip(1), sep);
        assert(before_first(s, sep) =~= s);
    }
}

/// When the first occurrence of `sep` is at index `j`, the "before" part is
/// the prefix up to `j` and the "after" part is the suffix past `j`.
pub proof fn lemma_first_split_at(s: Seq<char>, sep: char, j: int)
    requires
        0 <= j < s.len(),
        s[j] == sep,
        forall|i: int| 0 <= i < j ==> s[i] != sep,
    ensures
        before_first(s, sep) == s.take(j),
        after_first(s, sep) == Some(s.skip(j + 1)),
    decreases j,
{
    if j == 0 {
        assert(before_first(s, sep) =~= s.take(0));
    } else {
        assert(s[0] != sep);
        let t = s.skip(1);
        assert(t[j - 1] == sep);
        assert(forall|i: int| 0 <= i < j - 1 ==> t[i] == s[i + 1] && t[i] != sep);
        lemma_first_split_at(t, sep, j - 1);
        assert(t.take(j - 1) =~= s.take(j).skip(1));
        assert(seq![s[0]] + s.take(j).skip(1) =~= s.take(j));
        assert(t.skip(j) =~= s.skip(j + 1));
    }
}

/// Whether `c` is a decimal digit.
pub open spec fn is_digit(c: char) -> bool {
    '0' as u32 <= c as u32 && c as u32 <= '9' as u32
}

/// The numeric value of a decimal digit.
pub open spec fn digit_value(c: char) -> int {
    c as u32 - '0' as u32
}

/// Whether every character of `s` is a decimal digit.
pub open spec fn all_digits(s: Seq<char>) -> bool {
    forall|i: int| 0 <= i < s.len() ==> is_digit(#[trigger] s[i])
}

/// The value of `s` read as a decimal numeral.
pub open spec fn digits_value(s: Seq<char>) -> int
    decreases s.len(),
{
    if s.len() == 0 {
        0
    } else {
        digits_value(s.drop_last()) * 10 + digit_value(s.last())
    }
}

/// `s` stripped of one optional leading `+` sign, which the unsigned decimal
/// notation admits.
pub open spec fn numeric_part(s: Seq<char>) -> Seq<char> {
    if s.len() > 0 && s[0] == '+' {
        s.skip(1)
    } else {
        s
    }
}

/// Whether `s` denotes an unsigned 32-bit integer: after an optional leading
/// `+`, at least one character, all of them decimal digits, with a value
/// that fits in 32 bits.
pub open spec fn is_u32_string(s: Seq<char>) -> bool {
    let d = numeric_part(s);
    d.len() > 0 && all_digits(d) && digits_value(d) <= u32::MAX
}

/// The value denoted by a sequence for which `is_u32_string` holds.
pub open spec fn u32_string_value(s: Seq<char>) -> int {
    digits_value(numeric_part(s))
}

/// A digit string's value is never negative.
pub proof fn lemma_digits_value_nonneg(s: Seq<char>)
    requires
        all_digits(s),
    ensures
        digits_value(s) >= 0,
    decreases s.len(),
{
    if s.len() > 0 {
        assert(all_digits(s.drop_last())) by {
            assert(forall|i: int| 0 <= i < s.len() - 1 ==> s.drop_last()[i] == s[i]);
        }
        lemma_digits_value_nonneg(s.drop_last());
        assert(is_digit(s.last()));
    }
}

/// Reading more digits never decreases the value: the value of a prefix is a
/// lower bound for the value of the whole digit string.
pub proof fn lemma_digits_value_take(s: Seq<char>, k: int)
    requires
        all_digits(s),
        0 <= k <= s.len(),
    ensures
        digits_value(s.take(k)) <= digits_value(s),
    decreases s.len() - k,
{
    if k == s.len() {
        assert(s.take(k) =~= s);
    } else {
        let p = s.take(k);
        let q = s.take(k + 1);
        assert(all_digits(p) && all_digits(q)) by {
            assert(forall|i: int| 0 <= i < k ==> p[i] == s[i]);
            assert(forall|i: int| 0 <= i < k + 1 ==> q[i] == s[i]);
        }
        assert(q.drop_last() =~= p);
        assert(q.last() == s[k]);
        lemma_digits_value_nonneg(p);
        assert(is_digit(s[k]));
        assert(digits_value(q) == digits_value(p) * 10 + digit_value(s[k]));
        assert(digits_value(p) * 10 >= digits_value(p));
        lemma_digits_value_take(s, k + 1);
    }
}

/// Lexicographic three-way comparison of character sequences, by code point,
/// with a proper prefix ordered before its extensions.
pub open spec fn lex_cmp(a: Seq<char>, b: Seq<char>) -> VersionComparison
    decreases a.len(),
{
    if a.len() == 0 && b.len() == 0 {
        VersionComparison::Equal
    } else if a.len() == 0 {
        VersionComparison::Less
    } else if b.len() == 0 {
        VersionComparison::Greater
    } else if (a[0] as u32) < (b[0] as u32) {
        VersionComparison::Less
    } else if (a[0] as u32) > (b[0] as u32) {
        VersionComparison::Greater
    } else {
        lex_cmp(a.skip(1), b.skip(1))
    }
}

/// Every sequence compares equal to itself.
pub proof fn lemma_lex_cmp_refl(a: Seq<char>)
    ensures
        lex_cmp(a, a) == VersionComparison::Equal,
    decreases a.len(),
{
    if a.len() > 0 {
        lemma_lex_cmp_refl(a.skip(1));
    }
}

/// Exchanging the operands exchanges `Less` and `Greater`.
pub proof fn lemma_lex_cmp_flip(a: Seq<char>, b: Seq<char>)
    ensures
        lex_cmp(b, a) == flip(lex_cmp(a, b)),
    decreases a.len(),
{
    if a.len() > 0 && b.len() > 0 && a[0] as u32 == b[0] as u32 {
        lemma_lex_cmp_flip(a.skip(1), b.skip(1));
    }
}

/// The lexicographic order is transitive.
pub proof fn lemma_lex_cmp_trans(a: Seq<char>, b: Seq<char>, c: Seq<char>)
    requires
        lex_cmp(a, b) == VersionComparison::Less,
        lex_cmp(b, c) == VersionComparison::Less,
    ensures
        lex_cmp(a, c) == VersionComparison::Less,
    decreases a.len(),
{
    if a.len() == 0 {
    } else {
        if a[0] as u32 == b[0] as u32 && b[0] as u32 == c[0] as u32 {
            lemma_lex_cmp_trans(a.skip(1), b.skip(1), c.skip(1));
        }
    }
}

} // verus!
