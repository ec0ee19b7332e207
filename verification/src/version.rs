//! Module versions: four unsigned components parsed from a dot-delimited
//! string, ordered lexicographically, and rendered back as text.

use vstd::prelude::*;
use crate::text::{
    dec_of, lenient_u32, lenient_u32_exec, lemma_dec_of_value, lemma_split_no_sep,
    lemma_split_concat, push_char, push_dec, split_on, split_on_exec,
};

verus! {

/// A four-component module version.
#[derive(Clone, Copy, PartialEq, Eq, Structural, Debug)]
pub struct Version {
    pub major: u32,
    pub minor: u32,
    pub patch: u32,
    pub tweak: u32,
}

/// The dot-separated piece at index `i`, or the empty piece when the string
/// had fewer segments.
pub open spec fn segment_at(parts: Seq<Seq<char>>, i: int) -> Seq<char> {
    if i < parts.len() {
        parts[i]
    } else {
        Seq::<char>::empty()
    }
}

/// What parsing a version string yields: up to four dot-separated segments,
/// each read leniently as a decimal (absent, malformed or overflowing
/// segments give zero); more than four segments is a parse error.
pub open spec fn parse_spec(s: Seq<char>) -> Option<Version> {
    let parts = split_on(s, '.');
    if parts.len() > 4 {
        None
    } else {
        Some(
            Version {
                major: lenient_u32(segment_at(parts, 0)),
                minor: lenient_u32(segment_at(parts, 1)),
                patch: lenient_u32(segment_at(parts, 2)),
                tweak: lenient_u32(segment_at(parts, 3)),
            },
        )
    }
}

/// The canonical dotted rendering of `v`, without the leading `v` marker.
pub open spec fn dotted_of(v: Version) -> Seq<char> {
    dec_of(v.major as nat) + seq!['.'] + dec_of(v.minor as nat) + seq!['.'] + dec_of(
        v.patch as nat,
    ) + seq!['.'] + dec_of(v.tweak as nat)
}

/// The display rendering of `v`: the dotted form behind a `v` marker.
pub open spec fn text_of(v: Version) -> Seq<char> {
    seq!['v'] + dotted_of(v)
}

/// Strict lexicographic order over (major, minor, patch, tweak).
pub open spec fn version_lt(a: Version, b: Version) -> bool {
    ||| a.major < b.major
    ||| (a.major == b.major && a.minor < b.minor)
    ||| (a.major == b.major && a.minor == b.minor && a.patch < b.patch)
    ||| (a.major == b.major && a.minor == b.minor && a.patch == b.patch && a.tweak < b.tweak)
}

impl Version {
    /// Parses a dot-delimited version string of at most four segments.
    pub fn parse(s: &str) -> (r: Option<Version>)
        ensures
            r == parse_spec(s@),
    {
        let parts = split_on_exec(s, '.');
        if parts.len() > 4 {
            return None;
        }
        let major = if parts.len() > 0 {
            lenient_u32_exec(parts[0].as_str())
        } else {
            0
        };
        let minor = if parts.len() > 1 {
            lenient_u32_exec(parts[1].as_str())
        } else {
            0
        };
        let patch = if parts.len() > 2 {
            lenient_u32_exec(parts[2].as_str())
        } else {
            0
        };
        let tweak = if parts.len() > 3 {
            lenient_u32_exec(parts[3].as_str())
        } else {
            0
        };
        proof {
            let sp = split_on(s@, '.');
            assert forall|i: int| 0 <= i < parts@.len() implies parts@[i]@ == sp[i] by {
                assert(parts@.map_values(|p: String| p@)[i] == parts@[i]@);
            }
            if parts@.len() <= 3 {
                assert(lenient_u32(Seq::<char>::empty()) == 0);
            }
        }
        Some(Version { major, minor, patch, tweak })
    }

    /// Renders `self` as `v<major>.<minor>.<patch>.<tweak>`.
    pub fn to_text(&self) -> (r: String)
        ensures
            r@ == text_of(*self),
    {
        let mut out = String::new();
        push_char(&mut out, 'v');
        push_dec(&mut out, self.major);
        push_char(&mut out, '.');
        push_dec(&mut out, self.minor);
        push_char(&mut out, '.');
        push_dec(&mut out, self.patch);
        push_char(&mut out, '.');
        push_dec(&mut out, self.tweak);
        proof {
            assert(out@ =~= text_of(*self));
        }
        out
    }

    /// Compares two versions lexicographically by component.
    pub fn compare(&self, other: &Version) -> (r: core::cmp::Ordering)
        ensures
            r == core::cmp::Ordering::Less <==> version_lt(*self, *other),
            r == core::cmp::Ordering::Greater <==> version_lt(*other, *self),
            r == core::cmp::Ordering::Equal <==> *self == *other,
    {
        if self.major != other.major {
            if self.major < other.major {
                core::cmp::Ordering::Less
            } else {
                core::cmp::Ordering::Greater
            }
        } else if self.minor != other.minor {
            if self.minor < other.minor {
                core::cmp::Ordering::Less
            } else {
                core::cmp::Ordering::Greater
            }
        } else if self.patch != other.patch {
            if self.patch < other.patch {
                core::cmp::Ordering::Less
            } else {
                core::cmp::Ordering::Greater
            }
        } else if self.tweak != other.tweak {
            if self.tweak < other.tweak {
                core::cmp::Ordering::Less
            } else {
                core::cmp::Ordering::Greater
            }
        } else {
            core::cmp::Ordering::Equal
        }
    }
}

impl Default for Version {
    /// The all-zero version.
    fn default() -> (r: Version)
        ensures
            r == (Version { major: 0, minor: 0, patch: 0, tweak: 0 }),
    {
        Version { major: 0, minor: 0, patch: 0, tweak: 0 }
    }
}

/// Parsing the canonical dotted rendering of any version recovers it
/// exactly: the version-text round trip loses nothing.
pub proof fn lemma_version_round_trip(v: Version)
    ensures
        parse_spec(dotted_of(v)) == Some(v),
{
    let ma = dec_of(v.major as nat);
    let mi = dec_of(v.minor as nat);
    let pa = dec_of(v.patch as nat);
    let tw = dec_of(v.tweak as nat);
    lemma_dec_of_value(v.major as nat);
    lemma_dec_of_value(v.minor as nat);
    lemma_dec_of_value(v.patch as nat);
    lemma_dec_of_value(v.tweak as nat);
    lemma_split_no_sep(mi, '.');
    lemma_split_no_sep(pa, '.');
    lemma_split_no_sep(tw, '.');
    lemma_split_concat(ma + seq!['.'] + mi + seq!['.'] + pa, tw, '.');
    lemma_split_concat(ma + seq!['.'] + mi, pa, '.');
    lemma_split_concat(ma, mi, '.');
    lemma_split_no_sep(ma, '.');
    assert(dotted_of(v) =~= (ma + seq!['.'] + mi + seq!['.'] + pa) + seq!['.'] + tw);
    assert((ma + seq!['.'] + mi + seq!['.'] + pa) =~= (ma + seq!['.'] + mi) + seq!['.'] + pa);
    let parts = split_on(dotted_of(v), '.');
    assert(parts =~= seq![ma, mi, pa, tw]);
    assert(lenient_u32(ma) == v.major);
    assert(lenient_u32(mi) == v.minor);
    assert(lenient_u32(pa) == v.patch);
    assert(lenient_u32(tw) == v.tweak);
}

/// Parsing any valid dot version string — one to four dot-free segments —
/// yields exactly the present segments, read leniently, with the missing
/// components zero-filled.
pub proof fn lemma_version_parse_segments(parts: Seq<Seq<char>>)
    requires
        1 <= parts.len() <= 4,
        forall|k: int, j: int|
            0 <= k < parts.len() && 0 <= j < parts[k].len() ==> (#[trigger] parts[k][j]) != '.',
    ensures
        parse_spec(crate::text::join_on(parts, '.')) == Some(
            Version {
                major: lenient_u32(segment_at(parts, 0)),
                minor: lenient_u32(segment_at(parts, 1)),
                patch: lenient_u32(segment_at(parts, 2)),
                tweak: lenient_u32(segment_at(parts, 3)),
            },
        ),
{
    crate::text::lemma_split_join(parts, '.');
    let sp = split_on(crate::text::join_on(parts, '.'), '.');
    assert(segment_at(sp, 0) == segment_at(parts, 0));
    assert(segment_at(sp, 1) == segment_at(parts, 1));
    assert(segment_at(sp, 2) == segment_at(parts, 2));
    assert(segment_at(sp, 3) == segment_at(parts, 3));
}

/// The version order is a strict total order: irreflexive, transitive, and
/// any two distinct versions are ordered one way or the other.
pub proof fn lemma_version_order_strict_total(a: Version, b: Version, c: Version)
    ensures
        !version_lt(a, a),
        version_lt(a, b) && version_lt(b, c) ==> version_lt(a, c),
        a != b ==> version_lt(a, b) || version_lt(b, a),
        !(version_lt(a, b) && version_lt(b, a)),
{
}

} // verus!
