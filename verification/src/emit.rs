//! Rendering of JSON text: string quoting with the standard escapes, used by
//! the metadata and report emitters.

use vstd::prelude::*;
use crate::text::push_char;

verus! {

/// The lowercase hexadecimal digit for a value below sixteen.
pub open spec fn hex_char(n: nat) -> char {
    if n < 10 {
        ((n + 48) as u8) as char
    } else {
        ((n + 87) as u8) as char
    }
}

/// The escape sequence a character contributes inside a JSON string literal:
/// quote and backslash are backslash-escaped, control characters use their
/// short form or a `\u00XX` escape, and everything else stands for itself.
pub open spec fn esc_char(c: char) -> Seq<char> {
    if c == '"' {
        seq!['\\', '"']
    } else if c == '\\' {
        seq!['\\', '\\']
    } else if c as u32 == 8 {
        seq!['\\', 'b']
    } else if c as u32 == 9 {
        seq!['\\', 't']
    } else if c as u32 == 10 {
        seq!['\\', 'n']
    } else if c as u32 == 12 {
        seq!['\\', 'f']
    } else if c as u32 == 13 {
        seq!['\\', 'r']
    } else if (c as u32) < 32 {
        seq!['\\', 'u', '0', '0', hex_char((c as u32 / 16) as nat), hex_char((c as u32 % 16) as nat)]
    } else {
        seq![c]
    }
}

/// The body of a JSON string literal encoding `s`.
pub open spec fn escape_all(s: Seq<char>) -> Seq<char>
    decreases s.len(),
{
    if s.len() == 0 {
        Seq::<char>::empty()
    } else {
        escape_all(s.drop_last()) + esc_char(s.last())
    }
}

/// The JSON string literal encoding `s`, quotes included.
pub open spec fn json_quote_of(s: Seq<char>) -> Seq<char> {
    seq!['"'] + escape_all(s) + seq!['"']
}

/// Appends one escaped character to `out`.
fn push_escaped(out: &mut String, c: char)
    ensures
        final(out)@ == old(out)@ + esc_char(c),
{
    if c == '"' {
        push_char(out, '\\');
        push_char(out, '"');
    } else if c == '\\' {
        push_char(out, '\\');
        push_char(out, '\\');
    } else if (c as u32) == 8 {
        push_char(out, '\\');
        push_char(out, 'b');
    } else if (c as u32) == 9 {
        push_char(out, '\\');
        push_char(out, 't');
    } else if (c as u32) == 10 {
        push_char(out, '\\');
        push_char(out, 'n');
    } else if (c as u32) == 12 {
        push_char(out, '\\');
        push_char(out, 'f');
    } else if (c as u32) == 13 {
        push_char(out, '\\');
        push_char(out, 'r');
    } else if (c as u32) < 32 {
        push_char(out, '\\');
        push_char(out, 'u');
        push_char(out, '0');
        push_char(out, '0');
        let hi = c as u32 / 16;
        let lo = c as u32 % 16;
        let hic: char = if hi < 10 {
            ((hi + 48) as u8) as char
        } else {
            ((hi + 87) as u8) as char
        };
        let loc: char = if lo < 10 {
            ((lo + 48) as u8) as char
        } else {
            ((lo + 87) as u8) as char
        };
        push_char(out, hic);
        push_char(out, loc);
        proof {
            assert(hic == hex_char((c as u32 / 16) as nat));
            assert(loc == hex_char((c as u32 % 16) as nat));
        }
    } else {
        push_char(out, c);
    }
    proof {
        assert(out@ =~= old(out)@ + esc_char(c));
    }
}

/// Appends the JSON string literal encoding `s` to `out`.
pub fn push_json_quoted(out: &mut String, s: &str)
    ensures
        final(out)@ == old(out)@ + json_quote_of(s@),
{
    push_char(out, '"');
    let n = s.unicode_len();
    let mut i: usize = 0;
    while i < n
        invariant
            i <= n,
            n == s@.len(),
            out@ == old(out)@ + seq!['"'] + escape_all(s@.take(i as int)),
        decreases n - i,
    {
        let c = s.get_char(i);
        proof {
            assert(s@.take(i + 1).drop_last() =~= s@.take(i as int));
            assert(s@.take(i + 1).last() == s@[i as int]);
        }
        push_escaped(out, c);
        proof {
            assert(out@ =~= old(out)@ + seq!['"'] + escape_all(s@.take(i + 1)));
        }
        i = i + 1;
    }
    proof {
        assert(s@.take(n as int) =~= s@);
    }
    push_char(out, '"');
    proof {
        assert(out@ =~= old(out)@ + json_quote_of(s@));
    }
}

/// The JSON string literal encoding `s`, as a fresh string.
pub fn json_quote(s: &str) -> (r: String)
    ensures
        r@ == json_quote_of(s@),
{
    let mut out = String::new();
    push_json_quoted(&mut out, s);
    proof {
        assert(out@ =~= json_quote_of(s@));
    }
    out
}

} // verus!
