//! Verified text utilities: building strings character by character,
//! decimal formatting and parsing, whitespace tests, JSON string
//! escaping, and greedy word wrapping.

use vstd::prelude::*;

verus! {

/// Relies on `str`'s `PartialEq`: two string slices are equal exactly
/// when they hold the same text (UTF-8 is one-to-one, so byte equality
/// and character equality agree).
pub assume_specification[ <str as PartialEq<str>>::eq ](a: &str, b: &str) -> (r: bool)
    ensures
        r == (a@ == b@),
;

/// Relies on `String::push`: appends exactly one character at the end.
#[verifier::external_body]
pub(crate) fn push_char(s: &mut String, c: char)
    ensures
        final(s)@ == old(s)@.push(c),
{
    s.push(c);
}

pub open spec fn dec_digit(d: int) -> char {
    "0123456789"@[d]
}

/// The decimal numeral of `n`, most significant digit first, no sign,
/// no leading zeros (a single `'0'` for zero).
pub open spec fn dec_of(n: nat) -> Seq<char>
    decreases n,
{
    if n < 10 {
        seq![dec_digit(n as int)]
    } else {
        dec_of(n / 10) + seq![dec_digit((n % 10) as int)]
    }
}

pub(crate) fn digit_char(d: u64) -> (c: char)
    requires
        d < 10,
    ensures
        c == dec_digit(d as int),
{
    proof {
        reveal_strlit("0123456789");
    }
    "0123456789".get_char(d as usize)
}

/// Formats `n` in decimal.
pub fn u64_to_string(n: u64) -> (r: String)
    ensures
        r@ == dec_of(n as nat),
    decreases n,
{
    if n < 10 {
        let mut s = String::new();
        push_char(&mut s, digit_char(n));
        s
    } else {
        let mut s = u64_to_string(n / 10);
        push_char(&mut s, digit_char(n % 10));
        s
    }
}

/// Whitespace as the pipeline reads it: the four ASCII whitespace
/// characters. This is a deliberate choice — exotic Unicode spacing
/// (a no-break space, say) counts as text, so a fragment made of it
/// merges rather than being discarded.
pub open spec fn is_ws_char(c: char) -> bool {
    c == ' ' || c == '\t' || c == '\n' || c == '\r'
}

/// Nothing but whitespace (in particular, the empty text is blank).
pub open spec fn spec_is_blank(s: Seq<char>) -> bool {
    forall|i: int| 0 <= i < s.len() ==> is_ws_char(#[trigger] s[i])
}

/// True exactly when `s` trims to the empty text.
pub fn is_blank(s: &str) -> (r: bool)
    ensures
        r == spec_is_blank(s@),
{
    let n = s.unicode_len();
    let mut i: usize = 0;
    while i < n
        invariant
            i <= n,
            n == s@.len(),
            forall|j: int| 0 <= j < i ==> is_ws_char(#[trigger] s@[j]),
        decreases n - i,
    {
        let c = s.get_char(i);
        if !(c == ' ' || c == '\t' || c == '\n' || c == '\r') {
            return false;
        }
        i = i + 1;
    }
    true
}

pub open spec fn hex_digit(d: int) -> char {
    "0123456789abcdef"@[d]
}

/// How one character reads inside a JSON string literal.
pub open spec fn esc_char(c: char) -> Seq<char> {
    if c == '"' {
        seq!['\\', '"']
    } else if c == '\\' {
        seq!['\\', '\\']
    } else if c == '\n' {
        seq!['\\', 'n']
    } else if c == '\r' {
        seq!['\\', 'r']
    } else if c == '\t' {
        seq!['\\', 't']
    } else if (c as int) < 0x20 {
        seq!['\\', 'u', '0', '0', hex_digit((c as int) / 16), hex_digit((c as int) % 16)]
    } else {
        seq![c]
    }
}

/// The body of a JSON string literal carrying exactly the text `s`.
pub open spec fn escaped(s: Seq<char>) -> Seq<char>
    decreases s.len(),
{
    if s.len() == 0 {
        Seq::empty()
    } else {
        escaped(s.drop_last()) + esc_char(s.last())
    }
}

/// Escapes `s` for inclusion inside a JSON string literal.
pub fn json_escape(s: &str) -> (r: String)
    ensures
        r@ == escaped(s@),
{
    let n = s.unicode_len();
    let mut out = String::new();
    let mut i: usize = 0;
    while i < n
        invariant
            i <= n,
            n == s@.len(),
            out@ == escaped(s@.take(i as int)),
        decreases n - i,
    {
        let c = s.get_char(i);
        if c == '"' {
            push_char(&mut out, '\\');
            push_char(&mut out, '"');
        } else if c == '\\' {
            push_char(&mut out, '\\');
            push_char(&mut out, '\\');
        } else if c == '\n' {
            push_char(&mut out, '\\');
            push_char(&mut out, 'n');
        } else if c == '\r' {
            push_char(&mut out, '\\');
            push_char(&mut out, 'r');
        } else if c == '\t' {
            push_char(&mut out, '\\');
            push_char(&mut out, 't');
        } else if (c as u32) < 0x20 {
            let code = c as u32;
            proof {
                reveal_strlit("0123456789abcdef");
            }
            push_char(&mut out, '\\');
            push_char(&mut out, 'u');
            push_char(&mut out, '0');
            push_char(&mut out, '0');
            push_char(&mut out, "0123456789abcdef".get_char((code / 16) as usize));
            push_char(&mut out, "0123456789abcdef".get_char((code % 16) as usize));
        } else {
            push_char(&mut out, c);
        }
        proof {
            assert(s@.take(i + 1).drop_last() =~= s@.take(i as int));
            assert(s@.take(i + 1).last() == s@[i as int]);
        }
        i = i + 1;
    }
    proof {
        assert(s@.take(n as int) =~= s@);
    }
    out
}

pub open spec fn is_digit_char(c: char) -> bool {
    48 <= (c as int) <= 57
}

pub open spec fn digit_val(c: char) -> int {
    (c as int) - 48
}

pub open spec fn all_digits(s: Seq<char>) -> bool {
    forall|i: int| 0 <= i < s.len() ==> is_digit_char(#[trigger] s[i])
}

/// Value of a digit string read in base ten.
pub open spec fn dec_val(s: Seq<char>) -> int
    decreases s.len(),
{
    if s.len() == 0 {
        0
    } else {
        dec_val(s.drop_last()) * 10 + digit_val(s.last())
    }
}

pub open spec fn pow10(k: nat) -> int
    decreases k,
{
    if k == 0 {
        1
    } else {
        10 * pow10((k - 1) as nat)
    }
}

pub proof fn lemma_dec_val_bound(s: Seq<char>)
    requires
        all_digits(s),
    ensures
        0 <= dec_val(s) < pow10(s.len()),
    decreases s.len(),
{
    if s.len() > 0 {
        assert(all_digits(s.drop_last())) by {
            assert(forall|i: int|
                0 <= i < s.len() - 1 ==> is_digit_char(#[trigger] s.drop_last()[i]) == is_digit_char(
                    s[i],
                ));
        }
        lemma_dec_val_bound(s.drop_last());
        assert(is_digit_char(s.last()));
    }
}

/// Index of the first `'.'` in `s`, or `s.len()` if there is none.
pub open spec fn find_dot(s: Seq<char>) -> int
    decreases s.len(),
{
    if s.len() == 0 {
        0
    } else if s[0] == '.' {
        0
    } else {
        1 + find_dot(s.skip(1))
    }
}

proof fn lemma_find_dot_le(u: Seq<char>)
    ensures
        0 <= find_dot(u) <= u.len(),
    decreases u.len(),
{
    if u.len() > 0 && u[0] != '.' {
        lemma_find_dot_le(u.skip(1));
    }
}

proof fn lemma_find_dot(u: Seq<char>, m: int)
    requires
        0 <= m <= u.len(),
        forall|k: int| 0 <= k < m ==> u[k] != '.',
        m < u.len() ==> u[m] == '.',
    ensures
        find_dot(u) == m,
    decreases m,
{
    if m == 0 {
    } else {
        assert(u[0] != '.');
        lemma_find_dot(u.skip(1), m - 1);
    }
}

/// The integer part of a decimal numeral: everything before the first dot.
pub open spec fn int_part(s: Seq<char>) -> Seq<char> {
    s.take(find_dot(s))
}

/// The fractional digits: everything after the first dot (empty if no dot).
pub open spec fn frac_part(s: Seq<char>) -> Seq<char> {
    if find_dot(s) < s.len() {
        s.skip(find_dot(s) + 1)
    } else {
        Seq::empty()
    }
}

/// A non-negative decimal numeral `digits [ '.' digits ]` whose integer
/// part has 1 to 15 digits (so its value in milliseconds fits `u64`).
pub open spec fn valid_unsigned_number(s: Seq<char>) -> bool {
    &&& 1 <= int_part(s).len() <= 15
    &&& all_digits(int_part(s))
    &&& all_digits(frac_part(s))
}

/// The fractional digits read as thousandths, truncated past the third.
pub open spec fn frac_ms(f: Seq<char>) -> int {
    if f.len() >= 3 {
        dec_val(f.take(3))
    } else {
        dec_val(f) * pow10((3 - f.len()) as nat)
    }
}

/// Reads a decimal numeral (as a JSON number is printed) as whole
/// milliseconds, truncating past the third fractional digit. A negative
/// numeral clamps to zero; anything else that is not a plain decimal
/// numeral, or whose integer part exceeds 15 digits, is rejected.
pub open spec fn spec_parse_number_ms(s: Seq<char>) -> Option<u64> {
    if s.len() >= 1 && s[0] == '-' && valid_unsigned_number(s.skip(1)) {
        Some(0u64)
    } else if valid_unsigned_number(s) {
        Some((dec_val(int_part(s)) * 1000 + frac_ms(frac_part(s))) as u64)
    } else {
        None
    }
}

/// Parses decimal-numeral text into whole milliseconds.
#[verifier::loop_isolation(false)]
#[verifier::rlimit(100)]
pub fn parse_number_ms(s: &str) -> (r: Option<u64>)
    ensures
        r == spec_parse_number_ms(s@),
{
    let n = s.unicode_len();
    let neg = n >= 1 && s.get_char(0) == '-';
    let start: usize = if neg {
        1
    } else {
        0
    };
    let ghost u = s@.skip(start as int);
    proof {
        if !neg {
            assert(u =~= s@);
        } else {
            // A leading minus sign keeps the whole text from being a
            // valid unsigned numeral.
            lemma_find_dot_le(s@);
            if find_dot(s@) >= 1 {
                assert(int_part(s@)[0] == '-');
            }
        }
    }

    // Find the first dot at or after `start`.
    let mut dot: usize = start;
    while dot < n && s.get_char(dot) != '.'
        invariant
            start <= dot <= n,
            n == s@.len(),
            start <= n,
            forall|k: int| start <= k < dot ==> s@[k] != '.',
        decreases n - dot,
    {
        dot = dot + 1;
    }
    proof {
        lemma_find_dot(u, dot - start);
        assert(int_part(u) =~= s@.subrange(start as int, dot as int));
    }

    // The integer part must be 1 to 15 digits.
    if dot - start < 1 || dot - start > 15 {
        return None;
    }
    let mut i: usize = start;
    let mut v: u64 = 0;
    while i < dot
        invariant
            start <= i <= dot <= n,
            n == s@.len(),
            all_digits(s@.subrange(start as int, i as int)),
            v == dec_val(s@.subrange(start as int, i as int)),
            0 <= v < pow10((i - start) as nat),
            i - start <= 15,
        decreases dot - i,
    {
        let c = s.get_char(i);
        if (c as u32) < 48 || (c as u32) > 57 {
            proof {
                assert(int_part(u)[i - start] == s@[i as int]);
            }
            return None;
        }
        let d: u64 = (c as u32 - 48) as u64;
        proof {
            assert(s@.subrange(start as int, i + 1).drop_last() =~= s@.subrange(
                start as int,
                i as int,
            ));
            lemma_dec_val_bound(s@.subrange(start as int, i + 1));
            reveal_with_fuel(pow10, 17);
        }
        v = v * 10 + d;
        i = i + 1;
    }
    proof {
        reveal_with_fuel(pow10, 17);
    }

    // Fractional digits: all must be digits; only the first three count.
    let fstart: usize = if dot < n {
        dot + 1
    } else {
        n
    };
    proof {
        if dot < n {
            assert(frac_part(u) =~= s@.subrange(fstart as int, n as int));
        } else {
            assert(frac_part(u) =~= s@.subrange(fstart as int, n as int));
        }
    }
    let mut j: usize = fstart;
    let mut fv: u64 = 0;
    while j < n
        invariant
            fstart <= j <= n,
            n == s@.len(),
            all_digits(s@.subrange(fstart as int, j as int)),
            j - fstart >= 3 ==> fv == dec_val(s@.subrange(fstart as int, fstart + 3)),
            j - fstart < 3 ==> fv == dec_val(s@.subrange(fstart as int, j as int)),
            0 <= fv < 1000,
        decreases n - j,
    {
        let c = s.get_char(j);
        if (c as u32) < 48 || (c as u32) > 57 {
            proof {
                assert(frac_part(u)[j - fstart] == s@[j as int]);
            }
            return None;
        }
        if j - fstart < 3 {
            let d: u64 = (c as u32 - 48) as u64;
            proof {
                assert(s@.subrange(fstart as int, j + 1).drop_last() =~= s@.subrange(
                    fstart as int,
                    j as int,
                ));
                lemma_dec_val_bound(s@.subrange(fstart as int, j + 1));
                reveal_with_fuel(pow10, 4);
            }
            fv = fv * 10 + d;
        }
        proof {
            assert(s@.subrange(fstart as int, j + 1).drop_last() =~= s@.subrange(
                fstart as int,
                j as int,
            ));
        }
        j = j + 1;
    }

    // Scale short fractions up to thousandths.
    let flen = n - fstart;
    let scaled: u64 = if flen == 0 {
        fv * 1000
    } else if flen == 1 {
        fv * 100
    } else if flen == 2 {
        fv * 10
    } else {
        fv
    };
    proof {
        let f = frac_part(u);
        assert(f =~= s@.subrange(fstart as int, n as int));
        if f.len() >= 3 {
            assert(f.take(3) =~= s@.subrange(fstart as int, fstart + 3));
        }
        reveal_with_fuel(pow10, 4);
        lemma_dec_val_bound(int_part(u));
        reveal_with_fuel(pow10, 17);
    }

    if neg {
        Some(0)
    } else {
        Some(v * 1000 + scaled)
    }
}

} // verus!
