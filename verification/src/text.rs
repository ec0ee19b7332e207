//! Small string-building helpers shared by the parsers and the JSON payload
//! emitters: appending a character, rendering unsigned decimals, and
//! byte-length accounting for payload size limits.

use vstd::prelude::*;

verus! {

/// Relies on `String::push`: appends exactly the given character.
#[verifier::external_body]
pub fn push_char(s: &mut String, c: char)
    ensures
        final(s)@ == old(s)@.push(c),
{
    s.push(c)
}

/// Whether `c` is a decimal digit.
pub open spec fn is_digit(c: char) -> bool {
    48 <= c as u32 <= 57
}

/// The numeric value of a decimal digit.
pub open spec fn digit_val(c: char) -> nat {
    (c as u32 - 48) as nat
}

/// The decimal digit character for a value below ten.
pub open spec fn digit_char(n: nat) -> char {
    ((n + 48) as u8) as char
}

/// The decimal rendering of `n`, without sign or padding.
pub open spec fn dec_of(n: nat) -> Seq<char>
    decreases n,
{
    if n < 10 {
        seq![digit_char(n)]
    } else {
        dec_of(n / 10).push(digit_char(n % 10))
    }
}

/// Appends the decimal rendering of `n` to `out`.
pub fn push_dec(out: &mut String, n: u32)
    ensures
        final(out)@ == old(out)@ + dec_of(n as nat),
    decreases n,
{
    if n >= 10 {
        push_dec(out, n / 10);
    }
    let d: u8 = (n % 10) as u8 + 48;
    push_char(out, d as char);
    proof {
        if n < 10 {
            assert(old(out)@ + dec_of(n as nat) =~= old(out)@.push(digit_char(n as nat)));
        } else {
            assert(old(out)@ + dec_of(n as nat) =~= (old(out)@ + dec_of(n as nat / 10)).push(
                digit_char(n as nat % 10),
            ));
        }
    }
}

/// The decimal rendering of `n` as a fresh string.
pub fn u32_to_string(n: u32) -> (r: String)
    ensures
        r@ == dec_of(n as nat),
{
    let mut out = String::new();
    push_dec(&mut out, n);
    proof {
        assert(out@ =~= dec_of(n as nat));
    }
    out
}

/// The number of bytes the UTF-8 encoding of `c` occupies.
pub open spec fn char_utf8_len(c: char) -> nat {
    if (c as u32) < 0x80 {
        1
    } else if (c as u32) < 0x800 {
        2
    } else if (c as u32) < 0x10000 {
        3
    } else {
        4
    }
}

/// The number of bytes the UTF-8 encoding of `s` occupies.
pub open spec fn byte_len(s: Seq<char>) -> nat
    decreases s.len(),
{
    if s.len() == 0 {
        0
    } else {
        byte_len(s.drop_last()) + char_utf8_len(s.last())
    }
}

/// A longer character sequence never encodes to fewer bytes.
pub proof fn lemma_byte_len_monotone(s: Seq<char>, i: int)
    requires
        0 <= i <= s.len(),
    ensures
        byte_len(s.take(i)) <= byte_len(s),
    decreases s.len() - i,
{
    if i < s.len() {
        lemma_byte_len_monotone(s, i + 1);
        assert(s.take(i + 1).drop_last() =~= s.take(i));
        assert(s.take(i + 1).last() == s[i]);
    } else {
        assert(s.take(i) =~= s);
    }
}

/// Whether the UTF-8 encoding of `s` occupies more than `max` bytes.
pub fn exceeds_bytes(s: &str, max: u32) -> (r: bool)
    ensures
        r == (byte_len(s@) > max),
{
    let n = s.unicode_len();
    let mut i: usize = 0;
    let mut acc: u64 = 0;
    while i < n
        invariant
            i <= n,
            n == s@.len(),
            acc == byte_len(s@.take(i as int)),
            acc <= max,
        decreases n - i,
    {
        let c = s.get_char(i);
        let clen: u64 = if (c as u32) < 0x80 {
            1
        } else if (c as u32) < 0x800 {
            2
        } else if (c as u32) < 0x10000 {
            3
        } else {
            4
        };
        proof {
            assert(s@.take(i + 1).drop_last() =~= s@.take(i as int));
            assert(s@.take(i + 1).last() == s@[i as int]);
        }
        if acc + clen > max as u64 {
            proof {
                lemma_byte_len_monotone(s@, i + 1);
            }
            return true;
        }
        acc = acc + clen;
        i = i + 1;
    }
    proof {
        assert(s@.take(n as int) =~= s@);
    }
    false
}

/// The longest character prefix of `s` whose UTF-8 encoding fits in `max`
/// bytes, as a character count, paired with its exact byte length.
pub open spec fn fit_prefix(s: Seq<char>, max: nat) -> nat
    decreases s.len(),
{
    if s.len() == 0 {
        0
    } else if byte_len(s) <= max {
        s.len()
    } else {
        fit_prefix(s.drop_last(), max)
    }
}

/// Cutting `s` after `max` bytes lands on a character boundary exactly when
/// the longest fitting prefix uses all `max` bytes (or the whole string is
/// within the limit, which callers rule out).
pub open spec fn cut_on_boundary(s: Seq<char>, max: nat) -> bool {
    byte_len(s.take(fit_prefix(s, max) as int)) == max
}

/// Truncates `s` to at most `max` bytes of UTF-8, as the byte-oriented host
/// protocol does.  Fails when the cut would split one character's encoding,
/// matching a checked byte-slice-and-revalidate of the encoded form.
pub fn truncate_bytes(s: &str, max: u32) -> (r: Option<String>)
    requires
        byte_len(s@) > max,
    ensures
        match r {
            Some(t) => cut_on_boundary(s@, max as nat) && t@ == s@.take(
                fit_prefix(s@, max as nat) as int,
            ),
            None => !cut_on_boundary(s@, max as nat),
        },
{
    let n = s.unicode_len();
    let mut i: usize = 0;
    let mut acc: u64 = 0;
    let mut out = String::new();
    while i < n
        invariant
            i <= n,
            n == s@.len(),
            acc == byte_len(s@.take(i as int)),
            acc <= max,
            out@ == s@.take(i as int),
            byte_len(s@) > max,
        decreases n - i,
    {
        let c = s.get_char(i);
        let clen: u64 = if (c as u32) < 0x80 {
            1
        } else if (c as u32) < 0x800 {
            2
        } else if (c as u32) < 0x10000 {
            3
        } else {
            4
        };
        proof {
            assert(s@.take(i + 1).drop_last() =~= s@.take(i as int));
            assert(s@.take(i + 1).last() == s@[i as int]);
        }
        if acc + clen > max as u64 {
            proof {
                lemma_fit_prefix_found(s@, max as nat, i as int);
            }
            if acc == max as u64 {
                return Some(out);
            } else {
                return None;
            }
        }
        acc = acc + clen;
        i = i + 1;
        push_char(&mut out, c);
        proof {
            assert(out@ =~= s@.take(i as int));
        }
    }
    proof {
        assert(s@.take(n as int) =~= s@);
    }
    None
}

/// If the prefix of length `i` fits in `max` bytes but one more character
/// does not, then `i` is the longest fitting prefix of `s`.
proof fn lemma_fit_prefix_found(s: Seq<char>, max: nat, i: int)
    requires
        0 <= i < s.len(),
        byte_len(s.take(i)) <= max,
        byte_len(s.take(i + 1)) > max,
    ensures
        fit_prefix(s, max) == i,
    decreases s.len(),
{
    if i + 1 == s.len() {
        assert(s.take(i + 1) =~= s);
        assert(byte_len(s) > max);
        assert(s.drop_last() =~= s.take(i));
        lemma_fit_prefix_full(s.take(i), max);
    } else {
        lemma_byte_len_monotone(s, i + 1);
        assert(byte_len(s) > max);
        assert(s.drop_last() =~= s.take(s.len() - 1));
        lemma_take_of_take(s, s.len() - 1, i);
        lemma_take_of_take(s, s.len() - 1, i + 1);
        lemma_fit_prefix_found(s.take(s.len() - 1), max, i);
    }
}

/// A sequence that fits within `max` bytes is its own longest fitting prefix.
proof fn lemma_fit_prefix_full(s: Seq<char>, max: nat)
    requires
        byte_len(s) <= max,
    ensures
        fit_prefix(s, max) == s.len(),
{
}

/// Taking `j` elements of the first `i` elements is taking `j` elements.
proof fn lemma_take_of_take(s: Seq<char>, i: int, j: int)
    requires
        0 <= j <= i <= s.len(),
    ensures
        s.take(i).take(j) =~= s.take(j),
{
}

/// The pieces of `s` between occurrences of `sep`, in order.  Always at
/// least one piece; a separator at either end or two in a row contribute
/// empty pieces.
pub open spec fn split_on(s: Seq<char>, sep: char) -> Seq<Seq<char>>
    decreases s.len(),
{
    if s.len() == 0 {
        seq![Seq::<char>::empty()]
    } else {
        let parts = split_on(s.drop_last(), sep);
        if s.last() == sep {
            parts.push(Seq::<char>::empty())
        } else {
            parts.update(parts.len() - 1, parts.last().push(s.last()))
        }
    }
}

/// A split always yields at least one piece.
pub proof fn lemma_split_nonempty(s: Seq<char>, sep: char)
    ensures
        split_on(s, sep).len() >= 1,
    decreases s.len(),
{
    if s.len() > 0 {
        lemma_split_nonempty(s.drop_last(), sep);
    }
}

/// A sequence free of the separator splits into just itself.
pub proof fn lemma_split_no_sep(s: Seq<char>, sep: char)
    requires
        forall|i: int| 0 <= i < s.len() ==> s[i] != sep,
    ensures
        split_on(s, sep) =~= seq![s],
    decreases s.len(),
{
    if s.len() > 0 {
        lemma_split_no_sep(s.drop_last(), sep);
        assert(s.drop_last().push(s.last()) =~= s);
        assert(split_on(s, sep) =~= seq![s]);
    } else {
        assert(s =~= Seq::<char>::empty());
        assert(split_on(s, sep) =~= seq![s]);
    }
}

/// Splitting around one separator splits each side independently.
pub proof fn lemma_split_concat(x: Seq<char>, y: Seq<char>, sep: char)
    ensures
        split_on(x + seq![sep] + y, sep) =~= split_on(x, sep) + split_on(y, sep),
    decreases y.len(),
{
    lemma_split_nonempty(x, sep);
    if y.len() == 0 {
        let s = x + seq![sep] + y;
        assert(s.drop_last() =~= x);
        assert(s.last() == sep);
        assert(split_on(s, sep) =~= split_on(x, sep).push(Seq::<char>::empty()));
        assert(split_on(y, sep) =~= seq![Seq::<char>::empty()]);
    } else {
        let s = x + seq![sep] + y;
        assert(s.drop_last() =~= x + seq![sep] + y.drop_last());
        assert(s.last() == y.last());
        lemma_split_concat(x, y.drop_last(), sep);
        lemma_split_nonempty(y.drop_last(), sep);
        let px = split_on(x, sep);
        let pyd = split_on(y.drop_last(), sep);
        if y.last() == sep {
            assert(split_on(s, sep) =~= (px + pyd).push(Seq::<char>::empty()));
            assert((px + pyd).push(Seq::<char>::empty()) =~= px + pyd.push(
                Seq::<char>::empty(),
            ));
        } else {
            assert((px + pyd).last() == pyd.last());
            assert(split_on(s, sep) =~= (px + pyd).update(
                px.len() + pyd.len() - 1,
                pyd.last().push(y.last()),
            ));
            assert((px + pyd).update(px.len() + pyd.len() - 1, pyd.last().push(y.last()))
                =~= px + pyd.update(pyd.len() - 1, pyd.last().push(y.last())));
        }
    }
}

/// The pieces joined back together with the separator between them.
pub open spec fn join_on(parts: Seq<Seq<char>>, sep: char) -> Seq<char>
    decreases parts.len(),
{
    if parts.len() == 0 {
        Seq::<char>::empty()
    } else if parts.len() == 1 {
        parts[0]
    } else {
        join_on(parts.drop_last(), sep) + seq![sep] + parts.last()
    }
}

/// Splitting undoes joining: separator-free pieces joined with the
/// separator split back into exactly those pieces.
pub proof fn lemma_split_join(parts: Seq<Seq<char>>, sep: char)
    requires
        parts.len() >= 1,
        forall|k: int, j: int|
            0 <= k < parts.len() && 0 <= j < parts[k].len() ==> (#[trigger] parts[k][j]) != sep,
    ensures
        split_on(join_on(parts, sep), sep) =~= parts,
    decreases parts.len(),
{
    if parts.len() == 1 {
        lemma_split_no_sep(parts[0], sep);
        assert(split_on(join_on(parts, sep), sep) =~= seq![parts[0]]);
        assert(seq![parts[0]] =~= parts);
    } else {
        let front = parts.drop_last();
        assert(forall|k: int, j: int|
            0 <= k < front.len() && 0 <= j < front[k].len() ==> (#[trigger] front[k][j]) == parts[k][j]);
        lemma_split_join(front, sep);
        lemma_split_concat(join_on(front, sep), parts.last(), sep);
        assert forall|j: int| 0 <= j < parts.last().len() implies #[trigger] parts.last()[j]
            != sep by {
            assert(parts[parts.len() - 1][j] != sep);
        }
        lemma_split_no_sep(parts.last(), sep);
        assert(split_on(join_on(parts, sep), sep) =~= split_on(join_on(front, sep), sep) + seq![
            parts.last(),
        ]);
        assert(split_on(join_on(front, sep), sep) + seq![parts.last()] =~= parts);
    }
}

/// No piece of a split contains the separator.
pub proof fn lemma_split_parts_no_sep(s: Seq<char>, sep: char, k: int, j: int)
    requires
        0 <= k < split_on(s, sep).len(),
        0 <= j < split_on(s, sep)[k].len(),
    ensures
        split_on(s, sep)[k][j] != sep,
    decreases s.len(),
{
    if s.len() > 0 {
        let parts = split_on(s.drop_last(), sep);
        lemma_split_nonempty(s.drop_last(), sep);
        if s.last() == sep {
            if k < parts.len() {
                lemma_split_parts_no_sep(s.drop_last(), sep, k, j);
            }
        } else {
            if k < parts.len() - 1 {
                lemma_split_parts_no_sep(s.drop_last(), sep, k, j);
            } else {
                if j < parts.last().len() {
                    lemma_split_parts_no_sep(s.drop_last(), sep, k, j);
                }
            }
        }
    }
}

/// Splits `s` at every occurrence of `sep`.
pub fn split_on_exec(s: &str, sep: char) -> (parts: Vec<String>)
    ensures
        parts@.map_values(|p: String| p@) == split_on(s@, sep),
        parts@.len() >= 1,
{
    let mut parts: Vec<String> = Vec::new();
    let mut cur = String::new();
    let n = s.unicode_len();
    let mut i: usize = 0;
    while i < n
        invariant
            i <= n,
            n == s@.len(),
            parts@.map_values(|p: String| p@).push(cur@) =~= split_on(s@.take(i as int), sep),
        decreases n - i,
    {
        let c = s.get_char(i);
        proof {
            assert(s@.take(i + 1).drop_last() =~= s@.take(i as int));
            assert(s@.take(i + 1).last() == s@[i as int]);
            lemma_split_nonempty(s@.take(i as int), sep);
        }
        let ghost old_parts = parts@;
        let ghost old_cur = cur@;
        if c == sep {
            parts.push(cur);
            cur = String::new();
            proof {
                assert(parts@.map_values(|p: String| p@) =~= old_parts.map_values(
                    |p: String| p@,
                ).push(old_cur));
                assert(parts@.map_values(|p: String| p@).push(cur@) =~= split_on(
                    s@.take(i + 1),
                    sep,
                ));
            }
        } else {
            push_char(&mut cur, c);
            proof {
                let prev = old_parts.map_values(|p: String| p@).push(old_cur);
                assert(parts@.map_values(|p: String| p@).push(cur@) =~= prev.update(
                    prev.len() - 1,
                    prev.last().push(c),
                ));
                assert(parts@.map_values(|p: String| p@).push(cur@) =~= split_on(
                    s@.take(i + 1),
                    sep,
                ));
            }
        }
        i = i + 1;
    }
    proof {
        assert(s@.take(n as int) =~= s@);
    }
    let ghost old_parts = parts@;
    parts.push(cur);
    proof {
        assert(parts@.map_values(|p: String| p@) =~= old_parts.map_values(|p: String| p@).push(
            cur@,
        ));
    }
    parts
}

/// Compares two string slices character by character.
pub fn str_eq(a: &str, b: &str) -> (r: bool)
    ensures
        r == (a@ == b@),
{
    let na = a.unicode_len();
    let nb = b.unicode_len();
    if na != nb {
        return false;
    }
    let mut i: usize = 0;
    while i < na
        invariant
            i <= na,
            na == a@.len(),
            na == b@.len(),
            forall|j: int| 0 <= j < i ==> a@[j] == b@[j],
        decreases na - i,
    {
        if a.get_char(i) != b.get_char(i) {
            return false;
        }
        i = i + 1;
    }
    proof {
        assert(a@ =~= b@);
    }
    true
}

/// Whether every character of `s` is a decimal digit.
pub open spec fn all_digits(s: Seq<char>) -> bool {
    forall|i: int| 0 <= i < s.len() ==> is_digit(#[trigger] s[i])
}

/// The value of a digit sequence read as a decimal number.
pub open spec fn dec_digits_value(s: Seq<char>) -> nat
    decreases s.len(),
{
    if s.len() == 0 {
        0
    } else {
        dec_digits_value(s.drop_last()) * 10 + digit_val(s.last())
    }
}

/// Reads `s` as an unsigned decimal number — one leading plus sign allowed,
/// as the standard unsigned parse does — yielding zero when what remains is
/// empty, contains a non-digit, or overflows the 32-bit range: the lenient
/// segment reading used for version components.
pub open spec fn lenient_u32(s: Seq<char>) -> u32 {
    let digits = if s.len() > 0 && s[0] == '+' {
        s.drop_first()
    } else {
        s
    };
    if digits.len() > 0 && all_digits(digits) && dec_digits_value(digits) <= u32::MAX {
        dec_digits_value(digits) as u32
    } else {
        0
    }
}

/// Reads `s` as an unsigned decimal, with every failure giving zero.
pub fn lenient_u32_exec(s: &str) -> (v: u32)
    ensures
        v == lenient_u32(s@),
{
    let n = s.unicode_len();
    let start: usize = if n > 0 && s.get_char(0) == '+' {
        1
    } else {
        0
    };
    let ghost digits = if start == 1 {
        s@.drop_first()
    } else {
        s@
    };
    proof {
        assert(forall|k: int| 0 <= k < digits.len() ==> digits[k] == s@[k + start]);
    }
    if n == start {
        return 0;
    }
    let mut ok = true;
    let mut acc: u64 = 0;
    let mut i: usize = start;
    while i < n
        invariant
            start <= i <= n,
            n == s@.len(),
            start == 0 || start == 1,
            start == 1 <==> (s@.len() > 0 && s@[0] == '+'),
            digits == (if start == 1 {
                s@.drop_first()
            } else {
                s@
            }),
            digits.len() == n - start,
            ok == all_digits(digits.take(i - start)),
            acc <= 0x1_0000_0000u64,
            ok ==> (acc <= u32::MAX as u64 && acc == dec_digits_value(digits.take(i - start)) || (
            acc == 0x1_0000_0000u64 && dec_digits_value(digits.take(i - start)) > u32::MAX)),
        decreases n - i,
    {
        let c = s.get_char(i);
        proof {
            assert(digits[i - start] == s@[i as int]);
            assert(digits.take(i - start + 1).drop_last() =~= digits.take(i - start));
            assert(digits.take(i - start + 1).last() == digits[i - start]);
        }
        if (c as u32) >= 48 && (c as u32) <= 57 {
            let d = (c as u32 - 48) as u64;
            if acc > u32::MAX as u64 {
                proof {
                    if ok {
                        let prev = dec_digits_value(digits.take(i - start));
                        assert(prev * 10 >= prev);
                        assert(dec_digits_value(digits.take(i - start + 1)) > u32::MAX);
                    }
                }
            } else {
                acc = acc * 10 + d;
                if acc > u32::MAX as u64 {
                    acc = 0x1_0000_0000u64;
                }
            }
            proof {
                if ok {
                    assert(all_digits(digits.take(i - start + 1))) by {
                        assert(forall|j: int|
                            0 <= j < i - start ==> #[trigger] digits.take(i - start + 1)[j]
                                == digits.take(i - start)[j]);
                    }
                } else {
                    let j = choose|j: int|
                        0 <= j < i - start && !is_digit(#[trigger] digits.take(i - start)[j]);
                    assert(digits.take(i - start + 1)[j] == digits.take(i - start)[j]);
                    assert(!all_digits(digits.take(i - start + 1)));
                }
            }
        } else {
            ok = false;
            proof {
                assert(!is_digit(digits.take(i - start + 1)[i - start]));
                assert(!all_digits(digits.take(i - start + 1)));
            }
        }
        i = i + 1;
    }
    proof {
        assert(digits.take(n - start) =~= digits);
    }
    if !ok {
        0
    } else if acc > u32::MAX as u64 {
        0
    } else {
        acc as u32
    }
}

/// Every character of a decimal rendering is a digit, and reading it back
/// recovers the value.
pub proof fn lemma_dec_of_value(n: nat)
    ensures
        all_digits(dec_of(n)),
        dec_digits_value(dec_of(n)) == n,
        dec_of(n).len() >= 1,
    decreases n,
{
    if n < 10 {
        let d = dec_of(n);
        assert(d =~= seq![digit_char(n)]);
        assert(d.len() == 1);
        assert(d.last() == digit_char(n));
        assert(d.drop_last().len() == 0);
        assert(dec_digits_value(d.drop_last()) == 0);
        assert(dec_digits_value(d) == dec_digits_value(d.drop_last()) * 10 + digit_val(d.last()));
        assert(digit_val(digit_char(n)) == n);
    } else {
        lemma_dec_of_value(n / 10);
        let d = dec_of(n);
        assert(d.drop_last() =~= dec_of(n / 10));
        assert(d.last() == digit_char(n % 10));
        assert forall|i: int| 0 <= i < d.len() implies is_digit(d[i]) by {
            if i < d.len() - 1 {
                assert(d[i] == dec_of(n / 10)[i]);
            }
        }
    }
}

} // verus!
