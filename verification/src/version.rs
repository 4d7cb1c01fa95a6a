//! The parsed version value and its parser.

use vstd::prelude::*;
use vstd::string::StrSliceExecFns;
use vstd::string::StringExecFns;

use crate::error::VersionError;
use crate::model::SpecVersion;
use crate::model::SpecVersionError;
use crate::model::parse_spec;
use crate::text::after_first;
use crate::text::all_digits;
use crate::text::before_first;
use crate::text::digit_value;
use crate::text::digits_value;
use crate::text::is_digit;
use crate::text::is_u32_string;
use crate::text::lemma_digits_value_take;
use crate::text::lemma_first_split_at;
use crate::text::lemma_first_split_no_sep;
use crate::text::lemma_split_on_concat;
use crate::text::lemma_split_on_len;
use crate::text::lemma_split_on_no_sep;
use crate::text::numeric_part;
use crate::text::split_on;
use crate::text::u32_string_value;

verus! {

/// A semantic version: major, minor and patch numbers, and an optional
/// pre-release tag (the raw text after the first `-` of the patch segment).
///
/// A `Version` is only ever constructed by [`Version::parse`], so every
/// instance reflects a string that parsed successfully.
#[derive(Debug, PartialEq, Eq, Clone)]
pub struct Version {
    /// Major version number.
    pub major: u32,
    /// Minor version number.
    pub minor: u32,
    /// Patch version number.
    pub patch: u32,
    /// Optional pre-release identifier.
    pub pre_release: Option<String>,
}

impl View for Version {
    type V = SpecVersion;

    open spec fn view(&self) -> SpecVersion {
        SpecVersion {
            major: self.major as int,
            minor: self.minor as int,
            patch: self.patch as int,
            pre_release: match self.pre_release {
                Option::None => Option::None,
                Option::Some(tag) => Option::Some(tag@),
            },
        }
    }
}

/// Reads `s` as an unsigned 32-bit decimal numeral (an optional leading `+`,
/// then digits), or reports that it is not one.
fn parse_u32(s: &str) -> (r: Option<u32>)
    ensures
        r is Some <==> is_u32_string(s@),
        r is Some ==> r->0 as int == u32_string_value(s@),
{
    let n = s.unicode_len();
    let mut start: usize = 0;
    if n > 0 && s.get_char(0) == '+' {
        start = 1;
    }
    let ghost d: Seq<char> = numeric_part(s@);
    proof {
        assert(d =~= s@.skip(start as int));
    }
    if start == n {
        return None;
    }
    let mut val: u64 = 0;
    let mut i: usize = start;
    while i < n
        invariant
            start <= i <= n,
            n == s@.len(),
            d == s@.skip(start as int),
            d == numeric_part(s@),
            d.len() > 0,
            all_digits(s@.subrange(start as int, i as int)),
            val as int == digits_value(s@.subrange(start as int, i as int)),
            val <= u32::MAX,
        decreases n - i,
    {
        let c = s.get_char(i);
        let cv = c as u32;
        if cv < 48 || cv > 57 {
            proof {
                assert(d[i - start] == s@[i as int]);
                assert(!is_digit(s@[i as int]));
                assert(!all_digits(d));
            }
            return None;
        }
        let dv: u64 = (cv - 48) as u64;
        let next: u64 = val * 10 + dv;
        proof {
            let p = s@.subrange(start as int, i + 1);
            assert(p.drop_last() =~= s@.subrange(start as int, i as int));
            assert(p.last() == s@[i as int]);
            assert(is_digit(s@[i as int]) && digit_value(s@[i as int]) == dv);
            assert(digits_value(p) == next as int);
            assert(all_digits(p));
        }
        if next > 0xffff_ffffu64 {
            proof {
                let k = i + 1 - start;
                assert(s@.subrange(start as int, i + 1) =~= d.take(k));
                if all_digits(d) {
                    lemma_digits_value_take(d, k);
                    assert(digits_value(d) > u32::MAX);
                }
                assert(!is_u32_string(s@));
            }
            return None;
        }
        val = next;
        i = i + 1;
    }
    proof {
        assert(s@.subrange(start as int, n as int) =~= d);
        assert(is_u32_string(s@));
    }
    Some(val as u32)
}

/// The views of a sequence of owned strings.
pub open spec fn seg_views(parts: Seq<String>) -> Seq<Seq<char>> {
    parts.map_values(|p: String| p@)
}

/// Splits `s` on every occurrence of `sep`, in order.
fn split_char(s: &str, sep: char) -> (parts: Vec<String>)
    ensures
        seg_views(parts@) == split_on(s@, sep),
{
    let n = s.unicode_len();
    let mut parts: Vec<String> = Vec::new();
    let mut seg_start: usize = 0;
    let mut i: usize = 0;
    proof {
        assert(s@.skip(0) =~= s@);
        assert(seg_views(parts@) + split_on(s@, sep) =~= split_on(s@, sep));
    }
    while i < n
        invariant
            seg_start <= i <= n,
            n == s@.len(),
            forall|k: int| seg_start <= k < i ==> s@[k] != sep,
            split_on(s@, sep) == seg_views(parts@) + split_on(s@.skip(seg_start as int), sep),
        decreases n - i,
    {
        if s.get_char(i) == sep {
            let seg = s.substring_char(seg_start, i).to_owned();
            proof {
                let a = s@.subrange(seg_start as int, i as int);
                let b = s@.skip(i + 1);
                assert(!a.contains(sep)) by {
                    if a.contains(sep) {
                        let k = choose|k: int| 0 <= k < a.len() && a[k] == sep;
                        assert(s@[seg_start + k] == sep);
                    }
                }
                assert(s@.skip(seg_start as int) =~= a + seq![sep] + b);
                lemma_split_on_concat(a, b, sep);
                assert(seg_views(parts@.push(seg)) =~= seg_views(parts@).push(a));
                assert(seg_views(parts@.push(seg)) + split_on(b, sep) =~= seg_views(parts@)
                    + (seq![a] + split_on(b, sep)));
            }
            parts.push(seg);
            seg_start = i + 1;
        }
        i = i + 1;
    }
    let last = s.substring_char(seg_start, n).to_owned();
    proof {
        let a = s@.subrange(seg_start as int, n as int);
        assert(a =~= s@.skip(seg_start as int));
        assert(!a.contains(sep)) by {
            if a.contains(sep) {
                let k = choose|k: int| 0 <= k < a.len() && a[k] == sep;
                assert(s@[seg_start + k] == sep);
            }
        }
        lemma_split_on_no_sep(a, sep);
        assert(seg_views(parts@.push(last)) =~= seg_views(parts@).push(a));
        assert(seg_views(parts@).push(a) =~= seg_views(parts@) + seq![a]);
    }
    parts.push(last);
    parts
}

/// Splits a patch segment at its first `-` into the patch numeral and the
/// optional pre-release tag (everything after that `-`, possibly empty).
fn split_pre_release(seg: &str) -> (r: (String, Option<String>))
    ensures
        r.0@ == before_first(seg@, '-'),
        match r.1 {
            Option::Some(tag) => after_first(seg@, '-') == Option::Some(tag@),
            Option::None => after_first(seg@, '-') is None,
        },
{
    let n = seg.unicode_len();
    let mut i: usize = 0;
    while i < n
        invariant
            i <= n,
            n == seg@.len(),
            forall|k: int| 0 <= k < i ==> seg@[k] != '-',
        decreases n - i,
    {
        if seg.get_char(i) == '-' {
            proof {
                lemma_first_split_at(seg@, '-', i as int);
            }
            let numeral = seg.substring_char(0, i).to_owned();
            let tag = seg.substring_char(i + 1, n).to_owned();
            proof {
                assert(seg@.subrange(0, i as int) =~= seg@.take(i as int));
                assert(seg@.subrange(i + 1, n as int) =~= seg@.skip(i + 1));
            }
            return (numeral, Some(tag));
        }
        i = i + 1;
    }
    proof {
        assert(!seg@.contains('-')) by {
            if seg@.contains('-') {
                let k = choose|k: int| 0 <= k < seg@.len() && seg@[k] == '-';
            }
        }
        lemma_first_split_no_sep(seg@, '-');
    }
    (seg.to_owned(), None)
}

impl Version {
    /// Parses a version from a string.
    ///
    /// The string is split on `.`; the last segment provides the patch
    /// numeral and the optional pre-release tag, the first two of the
    /// remaining segments provide the major and minor numerals (defaulting
    /// to `0` when absent), and any further segments are ignored.
    ///
    /// Returns exactly what the parsing model [`parse_spec`] yields: a
    /// structural error on empty input, the error for the first numeral that
    /// is not an unsigned 32-bit integer, or the parsed version.
    pub(crate) fn parse(version: &str) -> (r: Result<Self, VersionError>)
        ensures
            (match r {
                Ok(v) => parse_spec(version@) == Ok::<SpecVersion, SpecVersionError>(v@),
                Err(e) => parse_spec(version@) == Err::<SpecVersion, SpecVersionError>(e@),
            }),
    {
        let n = version.unicode_len();
        if n == 0 {
            return Err(
                VersionError::ParseError(
                    String::from_str("Version format error, should be in the form 'x.y.z'."),
                ),
            );
        }
        let mut parts = split_char(version, '.');
        proof {
            lemma_split_on_len(version@, '.');
            assert(parts@.len() == split_on(version@, '.').len());
        }
        let ghost all_segs = split_on(version@, '.');
        let ghost head = all_segs.drop_last();
        let tail = parts.pop().unwrap();
        proof {
            assert(tail@ == all_segs.last());
            assert(seg_views(parts@) =~= head);
            assert(forall|k: int|
                0 <= k < parts@.len() ==> #[trigger] parts@[k]@ == seg_views(parts@)[k]);
        }
        let (patch_str, pre_release) = split_pre_release(tail.as_str());
        let major: u32;
        if parts.len() >= 1 {
            match parse_u32(parts[0].as_str()) {
                Some(m) => {
                    major = m;
                },
                None => {
                    return Err(VersionError::MajorVersionError);
                },
            }
        } else {
            major = 0;
            proof {
                lemma_zero_numeral();
            }
        }
        let minor: u32;
        if parts.len() >= 2 {
            match parse_u32(parts[1].as_str()) {
                Some(m) => {
                    minor = m;
                },
                None => {
                    return Err(VersionError::MinorVersionError);
                },
            }
        } else {
            minor = 0;
            proof {
                lemma_zero_numeral();
            }
        }
        let patch: u32;
        match parse_u32(patch_str.as_str()) {
            Some(p) => {
                patch = p;
            },
            None => {
                return Err(VersionError::PatchVersionError);
            },
        }
        Ok(Version { major, minor, patch, pre_release })
    }
}

/// The default numeral `0`, read as the missing major or minor component,
/// denotes an unsigned 32-bit integer with value zero.
proof fn lemma_zero_numeral()
    ensures
        is_u32_string(seq!['0']),
        u32_string_value(seq!['0']) == 0,
{
    let s = seq!['0'];
    assert(numeric_part(s) == s);
    assert(is_digit(s[0]));
    assert(all_digits(s));
    assert(s.drop_last() =~= Seq::<char>::empty());
    assert(s.last() == '0');
    assert(digits_value(Seq::<char>::empty()) == 0);
    assert(digits_value(s) == digits_value(s.drop_last()) * 10 + digit_value(s.last()));
    assert(digits_value(s) == digit_value('0'));
}

} // verus!
