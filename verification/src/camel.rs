//! Derivation of external property names: camelCase over underscore-delimited
//! method identifiers, with one leading underscore stripped first.

use vstd::prelude::*;
use crate::text::{lemma_split_no_sep, lemma_split_parts_no_sep, push_char, split_on, split_on_exec};

verus! {

/// ASCII uppercasing of one character; everything else is unchanged.
pub open spec fn upper_char(c: char) -> char {
    if 97 <= c as u32 <= 122 {
        ((c as u32 - 32) as u8) as char
    } else {
        c
    }
}

/// A piece with its first character uppercased.
pub open spec fn cap_part(p: Seq<char>) -> Seq<char> {
    if p.len() == 0 {
        p
    } else {
        seq![upper_char(p[0])] + p.drop_first()
    }
}

/// The underscore-delimited pieces joined back together: the first piece
/// unchanged, every later piece capitalized.
pub open spec fn camel_join(parts: Seq<Seq<char>>) -> Seq<char>
    decreases parts.len(),
{
    if parts.len() == 0 {
        Seq::<char>::empty()
    } else if parts.len() == 1 {
        parts[0]
    } else {
        camel_join(parts.drop_last()) + cap_part(parts.last())
    }
}

/// The camelCase derivation: strip one leading underscore, split the rest on
/// underscores, keep the first piece and capitalize the others.
pub open spec fn camel_of(s: Seq<char>) -> Seq<char> {
    let st = if s.len() > 0 && s[0] == '_' {
        s.drop_first()
    } else {
        s
    };
    camel_join(split_on(st, '_'))
}

/// Derives the camelCase form of an identifier.
pub fn to_camel_case(s: &str) -> (r: String)
    ensures
        r@ == camel_of(s@),
{
    let n = s.unicode_len();
    let stripped: &str = if n > 0 && s.get_char(0) == '_' {
        let t = s.substring_char(1, n);
        proof {
            assert(t@ =~= s@.drop_first());
        }
        t
    } else {
        s
    };
    let parts = split_on_exec(stripped, '_');
    let ghost spp = split_on(stripped@, '_');
    proof {
        assert(forall|k: int|
            0 <= k < parts@.len() ==> #[trigger] parts@[k]@ == parts@.map_values(
                |p: String| p@,
            )[k]);
    }
    let mut out = String::new();
    out.append(parts[0].as_str());
    proof {
        assert(out@ =~= spp[0]);
        assert(spp.take(1).len() == 1);
        assert(spp.take(1)[0] == spp[0]);
        assert(out@ == camel_join(spp.take(1)));
    }
    let mut i: usize = 1;
    while i < parts.len()
        invariant
            1 <= i <= parts@.len(),
            parts@.map_values(|p: String| p@) == spp,
            out@ == camel_join(spp.take(i as int)),
        decreases parts@.len() - i,
    {
        proof {
            assert(parts@[i as int]@ == spp[i as int]);
            assert(spp.take(i + 1).drop_last() =~= spp.take(i as int));
            assert(spp.take(i + 1).last() == spp[i as int]);
        }
        let p = &parts[i];
        let plen = p.as_str().unicode_len();
        if plen > 0 {
            let c0 = p.as_str().get_char(0);
            let u: char = if (c0 as u32) >= 97 && (c0 as u32) <= 122 {
                ((c0 as u32 - 32) as u8) as char
            } else {
                c0
            };
            proof {
                assert(u == upper_char(c0));
            }
            push_char(&mut out, u);
            let rest = p.as_str().substring_char(1, plen);
            out.append(rest);
            proof {
                assert(rest@ =~= p@.drop_first());
                assert(out@ =~= camel_join(spp.take(i as int)) + cap_part(spp[i as int]));
            }
        } else {
            proof {
                assert(cap_part(spp[i as int]).len() == 0);
                assert(out@ =~= camel_join(spp.take(i as int)) + cap_part(spp[i as int]));
            }
        }
        i = i + 1;
    }
    proof {
        assert(spp.take(parts@.len() as int) =~= spp);
    }
    out
}

/// A capitalized piece contains an underscore only where the piece did.
proof fn lemma_cap_part_no_underscore(p: Seq<char>)
    requires
        forall|j: int| 0 <= j < p.len() ==> p[j] != '_',
    ensures
        forall|j: int| 0 <= j < cap_part(p).len() ==> cap_part(p)[j] != '_',
{
    if p.len() > 0 {
        assert(upper_char(p[0]) != '_');
        assert forall|j: int| 0 <= j < cap_part(p).len() implies cap_part(p)[j] != '_' by {
            if j > 0 {
                assert(cap_part(p)[j] == p[j]);
            }
        }
    }
}

/// Joining underscore-free pieces yields an underscore-free string.
proof fn lemma_camel_join_no_underscore(parts: Seq<Seq<char>>)
    requires
        forall|k: int, j: int|
            0 <= k < parts.len() && 0 <= j < parts[k].len() ==> #[trigger] parts[k][j] != '_',
    ensures
        forall|j: int| 0 <= j < camel_join(parts).len() ==> camel_join(parts)[j] != '_',
    decreases parts.len(),
{
    if parts.len() == 1 {
        assert forall|j: int| 0 <= j < camel_join(parts).len() implies camel_join(parts)[j]
            != '_' by {
            assert(parts[0][j] != '_');
        }
    } else if parts.len() > 1 {
        assert forall|k: int, j: int|
            0 <= k < parts.drop_last().len() && 0 <= j < parts.drop_last()[k].len() implies
            #[trigger] parts.drop_last()[k][j] != '_' by {
            assert(parts.drop_last()[k] == parts[k]);
            assert(parts[k][j] != '_');
        }
        lemma_camel_join_no_underscore(parts.drop_last());
        assert forall|j: int| 0 <= j < parts.last().len() implies parts.last()[j] != '_' by {
            assert(parts[parts.len() - 1][j] != '_');
        }
        lemma_cap_part_no_underscore(parts.last());
        let pre = camel_join(parts.drop_last());
        let cap = cap_part(parts.last());
        assert forall|j: int| 0 <= j < camel_join(parts).len() implies camel_join(parts)[j]
            != '_' by {
            if j < pre.len() {
                assert(camel_join(parts)[j] == pre[j]);
            } else {
                assert(camel_join(parts)[j] == cap[j - pre.len()]);
            }
        }
    }
}

/// The camelCase derivation never leaves an underscore in its result.
pub proof fn lemma_camel_no_underscore(s: Seq<char>)
    ensures
        forall|j: int| 0 <= j < camel_of(s).len() ==> camel_of(s)[j] != '_',
{
    let st = if s.len() > 0 && s[0] == '_' {
        s.drop_first()
    } else {
        s
    };
    let parts = split_on(st, '_');
    assert forall|k: int, j: int|
        0 <= k < parts.len() && 0 <= j < parts[k].len() implies #[trigger] parts[k][j]
        != '_' by {
        lemma_split_parts_no_sep(st, '_', k, j);
    }
    lemma_camel_join_no_underscore(parts);
}

/// The camelCase derivation is idempotent: applying it to its own output
/// changes nothing.
pub proof fn lemma_camel_idempotent(s: Seq<char>)
    ensures
        camel_of(camel_of(s)) == camel_of(s),
{
    let r = camel_of(s);
    lemma_camel_no_underscore(s);
    if r.len() == 0 {
        assert(r =~= Seq::<char>::empty());
        lemma_split_no_sep(r, '_');
        assert(camel_of(r) =~= r);
    } else {
        assert(r[0] != '_');
        lemma_split_no_sep(r, '_');
        assert(camel_join(seq![r]) == r);
        assert(camel_of(r) =~= r);
    }
}

/// A single leading underscore is removed before casing: deriving from the
/// identifier and from the identifier with that underscore dropped agree,
/// provided the underscore is not doubled.
pub proof fn lemma_camel_leading_underscore(s: Seq<char>)
    requires
        s.len() >= 1,
        s[0] == '_',
        s.len() >= 2 ==> s[1] != '_',
    ensures
        camel_of(s) == camel_of(s.drop_first()),
{
    let t = s.drop_first();
    if t.len() > 0 {
        assert(t[0] == s[1]);
        assert(t[0] != '_');
    }
}

} // verus!
