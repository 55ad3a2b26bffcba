//! Character-level JSON primitives shared by the message codec: decimal
//! numbers, escaped strings, and fixed literals.  Every encoder has a
//! matching parser, and round-trip lemmas prove that parsing an encoding
//! recovers the value.
//!
//! Specification-level parsers work on sequence suffixes: they take the
//! remaining input and return the parsed value together with the input
//! that is left.  Executable parsers walk a `Vec<char>` with an index
//! and are proved equivalent to the specification parsers on the
//! corresponding suffix.
use vstd::prelude::*;

verus! {

// ---------------------------------------------------------------------
// Decimal digits
// ---------------------------------------------------------------------

pub open spec fn is_digit(c: char) -> bool {
    48 <= c as u32 && c as u32 <= 57
}

pub open spec fn digit_val(c: char) -> nat {
    (c as u32 - 48) as nat
}

pub open spec fn digit_char(d: nat) -> char {
    if d == 0 {
        '0'
    } else if d == 1 {
        '1'
    } else if d == 2 {
        '2'
    } else if d == 3 {
        '3'
    } else if d == 4 {
        '4'
    } else if d == 5 {
        '5'
    } else if d == 6 {
        '6'
    } else if d == 7 {
        '7'
    } else if d == 8 {
        '8'
    } else {
        '9'
    }
}

/// The decimal representation of `n`, most significant digit first.
pub open spec fn dec_digits(n: nat) -> Seq<char>
    decreases n,
{
    if n < 10 {
        seq![digit_char(n)]
    } else {
        dec_digits(n / 10).push(digit_char(n % 10))
    }
}

/// The value of a sequence of decimal digits.
pub open spec fn digits_val(s: Seq<char>) -> nat
    decreases s.len(),
{
    if s.len() == 0 {
        0
    } else {
        digits_val(s.drop_last()) * 10 + digit_val(s.last())
    }
}

pub proof fn lemma_dec_digits(n: nat)
    ensures
        dec_digits(n).len() >= 1,
        forall|i: int| 0 <= i < dec_digits(n).len() ==> is_digit(#[trigger] dec_digits(n)[i]),
        digits_val(dec_digits(n)) == n,
    decreases n,
{
    if n < 10 {
        assert(digit_val(digit_char(n)) == n);
        assert(dec_digits(n) =~= seq![digit_char(n)]);
        assert(digits_val(Seq::<char>::empty()) == 0);
        assert(dec_digits(n).drop_last() =~= Seq::<char>::empty());
    } else {
        lemma_dec_digits(n / 10);
        assert(dec_digits(n) == dec_digits(n / 10).push(digit_char(n % 10)));
        assert(dec_digits(n).drop_last() =~= dec_digits(n / 10));
        assert(digit_val(digit_char(n % 10)) == n % 10);
        assert(digits_val(dec_digits(n)) == (n / 10) * 10 + digit_val(digit_char(n % 10)));
    }
}

/// The first position at or after `i` that does not hold a digit.
pub open spec fn digits_end(s: Seq<char>, i: int) -> int
    decreases s.len() - i,
{
    if 0 <= i < s.len() && is_digit(s[i]) {
        digits_end(s, i + 1)
    } else {
        i
    }
}

pub proof fn lemma_digits_end(s: Seq<char>, i: int)
    requires
        0 <= i <= s.len(),
    ensures
        i <= digits_end(s, i) <= s.len(),
        forall|k: int| i <= k < digits_end(s, i) ==> is_digit(#[trigger] s[k]),
        digits_end(s, i) < s.len() ==> !is_digit(s[digits_end(s, i)]),
    decreases s.len() - i,
{
    if 0 <= i < s.len() && is_digit(s[i]) {
        lemma_digits_end(s, i + 1);
    }
}

pub proof fn lemma_digits_end_is(s: Seq<char>, i: int, j: int)
    requires
        0 <= i <= j <= s.len(),
        forall|k: int| i <= k < j ==> is_digit(#[trigger] s[k]),
        j == s.len() || !is_digit(s[j]),
    ensures
        digits_end(s, i) == j,
    decreases j - i,
{
    if i < j {
        lemma_digits_end_is(s, i + 1, j);
    }
}

/// Appending further digits never decreases the value of the digit run.
pub proof fn lemma_digits_val_monotone(s: Seq<char>, i: int, k: int, j: int)
    requires
        0 <= i <= k <= j <= s.len(),
        forall|m: int| i <= m < j ==> is_digit(#[trigger] s[m]),
    ensures
        digits_val(s.subrange(i, j)) >= digits_val(s.subrange(i, k)),
    decreases j - k,
{
    if k < j {
        lemma_digits_val_monotone(s, i, k, j - 1);
        let t = s.subrange(i, j);
        assert(t.drop_last() =~= s.subrange(i, j - 1));
        assert(digits_val(t) == digits_val(t.drop_last()) * 10 + digit_val(t.last()));
        assert(digits_val(t.drop_last()) * 10 >= digits_val(t.drop_last()));
    }
}

/// A leading run of decimal digits, as an unbounded number, and the
/// input after it.
pub open spec fn spec_parse_nat(s: Seq<char>) -> Option<(nat, Seq<char>)> {
    if 0 < s.len() && is_digit(s[0]) {
        let j = digits_end(s, 0);
        Some((digits_val(s.subrange(0, j)), s.skip(j)))
    } else {
        None
    }
}

pub open spec fn spec_parse_u64(s: Seq<char>) -> Option<(u64, Seq<char>)> {
    match spec_parse_nat(s) {
        Some((v, rest)) => if v <= u64::MAX {
            Some((v as u64, rest))
        } else {
            None
        },
        None => None,
    }
}

pub open spec fn spec_parse_u32(s: Seq<char>) -> Option<(u32, Seq<char>)> {
    match spec_parse_nat(s) {
        Some((v, rest)) => if v <= u32::MAX {
            Some((v as u32, rest))
        } else {
            None
        },
        None => None,
    }
}

/// Parsing right after an encoded number recovers it, provided the next
/// character (if any) is not a digit.
pub proof fn lemma_u64_round_trip(n: u64, tail: Seq<char>)
    requires
        tail.len() == 0 || !is_digit(tail[0]),
    ensures
        spec_parse_u64(dec_digits(n as nat) + tail) == Some((n, tail)),
{
    let d = dec_digits(n as nat);
    lemma_dec_digits(n as nat);
    let s = d + tail;
    assert forall|k: int| 0 <= k < d.len() implies is_digit(#[trigger] s[k]) by {
        assert(s[k] == d[k]);
    }
    if (d.len() as int) < s.len() {
        assert(s[d.len() as int] == tail[0]);
    }
    lemma_digits_end_is(s, 0, d.len() as int);
    assert(s.subrange(0, d.len() as int) =~= d);
    assert(s.skip(d.len() as int) =~= tail);
}

// ---------------------------------------------------------------------
// Executable digit functions
// ---------------------------------------------------------------------

pub fn is_digit_exec(c: char) -> (r: bool)
    ensures
        r == is_digit(c),
{
    let u = c as u32;
    48 <= u && u <= 57
}

pub fn digit_to_char(d: u64) -> (c: char)
    requires
        d < 10,
    ensures
        c == digit_char(d as nat),
{
    if d == 0 {
        '0'
    } else if d == 1 {
        '1'
    } else if d == 2 {
        '2'
    } else if d == 3 {
        '3'
    } else if d == 4 {
        '4'
    } else if d == 5 {
        '5'
    } else if d == 6 {
        '6'
    } else if d == 7 {
        '7'
    } else if d == 8 {
        '8'
    } else {
        '9'
    }
}

/// Append the decimal representation of `n`.
pub fn push_u64(out: &mut Vec<char>, n: u64)
    ensures
        final(out)@ == old(out)@ + dec_digits(n as nat),
    decreases n,
{
    if n < 10 {
        out.push(digit_to_char(n));
    } else {
        push_u64(out, n / 10);
        out.push(digit_to_char(n % 10));
        proof {
            assert(out@ =~= old(out)@ + dec_digits(n as nat));
        }
    }
}

/// Parse a run of decimal digits as a `u64`; `None` on overflow or if no
/// digit stands at the start.
pub fn parse_u64(s: &Vec<char>, i: usize) -> (r: Option<(u64, usize)>)
    requires
        i <= s.len(),
    ensures
        match r {
            Some((v, j)) => i < j <= s.len() && spec_parse_u64(s@.skip(i as int)) == Some(
                (v, s@.skip(j as int)),
            ),
            None => spec_parse_u64(s@.skip(i as int)) is None,
        },
{
    if i == s.len() || !is_digit_exec(s[i]) {
        proof {
            if i < s.len() {
                assert(s@.skip(i as int)[0] == s@[i as int]);
            }
        }
        return None;
    }
    proof {
        lemma_digits_end(s@, i as int);
    }
    let ghost end = digits_end(s@, i as int);
    let mut k: usize = i;
    let mut acc: u64 = 0;
    while k < s.len() && is_digit_exec(s[k])
        invariant
            i <= k <= s.len(),
            k <= end <= s.len(),
            i < s.len() && is_digit(s@[i as int]),
            end == digits_end(s@, i as int),
            forall|m: int| i <= m < end ==> is_digit(#[trigger] s@[m]),
            end < s@.len() ==> !is_digit(s@[end]),
            k < end ==> k < s.len() && is_digit(s@[k as int]),
            acc as nat == digits_val(s@.subrange(i as int, k as int)),
        decreases s.len() - k,
    {
        let d = (s[k] as u32 - 48) as u64;
        proof {
            assert(s@.subrange(i as int, k + 1).drop_last() =~= s@.subrange(i as int, k as int));
            if k + 1 < end {
                assert(is_digit(s@[k as int + 1]));
            }
        }
        let step = match acc.checked_mul(10) {
            Some(m) => m.checked_add(d),
            None => None,
        };
        match step {
            Some(v) => {
                acc = v;
            },
            None => {
                proof {
                    assert(k < end);
                    assert(digit_val(s@[k as int]) == d as nat);
                    assert(s@.subrange(i as int, k + 1).last() == s@[k as int]);
                    assert(digits_val(s@.subrange(i as int, k + 1)) == acc as nat * 10 + digit_val(
                        s@[k as int],
                    ));
                    lemma_digits_val_monotone(s@, i as int, k + 1, end);
                    assert(digits_val(s@.subrange(i as int, end)) > u64::MAX);
                    lemma_nat_suffix(s@, i as int, end);
                }
                return None;
            },
        }
        k = k + 1;
    }
    proof {
        lemma_digits_end_is(s@, i as int, k as int);
        lemma_nat_suffix(s@, i as int, k as int);
    }
    Some((acc, k))
}

/// Relates a digit run inside `s` to the suffix parser: if digits run
/// from `i` to `end`, the parser on `s.skip(i)` sees that run.
proof fn lemma_nat_suffix(s: Seq<char>, i: int, end: int)
    requires
        0 <= i < s.len(),
        is_digit(s[i]),
        i <= end <= s.len(),
        forall|m: int| i <= m < end ==> is_digit(#[trigger] s[m]),
        end == s.len() || !is_digit(s[end]),
    ensures
        spec_parse_nat(s.skip(i)) == Some((digits_val(s.subrange(i, end)), s.skip(end))),
{
    let suf = s.skip(i);
    assert(suf[0] == s[i]);
    assert forall|m: int| 0 <= m < end - i implies is_digit(#[trigger] suf[m]) by {
        assert(suf[m] == s[i + m]);
    }
    if end - i < suf.len() {
        assert(suf[end - i] == s[end]);
    }
    lemma_digits_end_is(suf, 0, end - i);
    assert(suf.subrange(0, end - i) =~= s.subrange(i, end));
    assert(suf.skip(end - i) =~= s.skip(end));
}

// ---------------------------------------------------------------------
// JSON string escaping
// ---------------------------------------------------------------------

pub open spec fn hex_char(d: nat) -> char {
    if d < 10 {
        digit_char(d)
    } else if d == 10 {
        'a'
    } else if d == 11 {
        'b'
    } else if d == 12 {
        'c'
    } else if d == 13 {
        'd'
    } else if d == 14 {
        'e'
    } else {
        'f'
    }
}

pub open spec fn hex_val(c: char) -> Option<nat> {
    if is_digit(c) {
        Some(digit_val(c))
    } else if 97 <= c as u32 && c as u32 <= 102 {
        Some((c as u32 - 87) as nat)
    } else if 65 <= c as u32 && c as u32 <= 70 {
        Some((c as u32 - 55) as nat)
    } else {
        None
    }
}

pub proof fn lemma_hex_val_char(d: nat)
    requires
        d < 16,
    ensures
        hex_val(hex_char(d)) == Some(d),
{
}

/// How one character appears inside a JSON string literal.
pub open spec fn esc_char(c: char) -> Seq<char> {
    if c == '"' {
        seq!['\\', '"']
    } else if c == '\\' {
        seq!['\\', '\\']
    } else if (c as u32) < 32 {
        seq!['\\', 'u', '0', '0', hex_char((c as u32 / 16) as nat), hex_char(
            (c as u32 % 16) as nat,
        )]
    } else {
        seq![c]
    }
}

/// The body of a JSON string literal for the text `s`.
pub open spec fn esc_str(s: Seq<char>) -> Seq<char>
    decreases s.len(),
{
    if s.len() == 0 {
        Seq::empty()
    } else {
        esc_char(s[0]) + esc_str(s.drop_first())
    }
}

pub proof fn lemma_esc_str_snoc(s: Seq<char>, c: char)
    ensures
        esc_str(s.push(c)) == esc_str(s) + esc_char(c),
    decreases s.len(),
{
    if s.len() == 0 {
        assert(s.push(c)[0] == c);
        assert(s.push(c).drop_first() =~= Seq::<char>::empty());
        assert(esc_str(s.push(c)) == esc_char(c) + esc_str(s.push(c).drop_first()));
        assert(esc_str(Seq::<char>::empty()) == Seq::<char>::empty());
        assert(esc_str(s.push(c)) =~= esc_str(s) + esc_char(c));
    } else {
        lemma_esc_str_snoc(s.drop_first(), c);
        assert(s.push(c)[0] == s[0]);
        assert(s.push(c).drop_first() =~= s.drop_first().push(c));
        assert(esc_str(s.push(c)) == esc_char(s[0]) + esc_str(s.drop_first().push(c)));
        assert(esc_str(s) == esc_char(s[0]) + esc_str(s.drop_first()));
        assert(esc_str(s.push(c)) =~= esc_str(s) + esc_char(c));
    }
}

/// The character denoted by a single-character escape.
pub open spec fn unesc_char(e: char) -> Option<char> {
    if e == '"' {
        Some('"')
    } else if e == '\\' {
        Some('\\')
    } else if e == '/' {
        Some('/')
    } else if e == 'b' {
        Some('\u{8}')
    } else if e == 'f' {
        Some('\u{c}')
    } else if e == 'n' {
        Some('\n')
    } else if e == 'r' {
        Some('\r')
    } else if e == 't' {
        Some('\t')
    } else {
        None
    }
}

/// The content of a JSON string literal whose opening quote has already
/// been consumed, together with the input after the closing quote.
pub open spec fn spec_parse_strbody(s: Seq<char>) -> Option<(Seq<char>, Seq<char>)>
    decreases s.len(),
{
    if s.len() == 0 {
        None
    } else if s[0] == '"' {
        Some((Seq::empty(), s.skip(1)))
    } else if s[0] == '\\' {
        if s.len() < 2 {
            None
        } else if s[1] == 'u' {
            if s.len() < 6 {
                None
            } else {
                match (hex_val(s[2]), hex_val(s[3]), hex_val(s[4]), hex_val(s[5])) {
                    (Some(h3), Some(h2), Some(h1), Some(h0)) => {
                        let code = h3 * 4096 + h2 * 256 + h1 * 16 + h0;
                        if code < 128 {
                            match spec_parse_strbody(s.skip(6)) {
                                Some((t, rest)) => Some((seq![(code as u32) as char] + t, rest)),
                                None => None,
                            }
                        } else {
                            None
                        }
                    },
                    _ => None,
                }
            }
        } else {
            match unesc_char(s[1]) {
                Some(c) => match spec_parse_strbody(s.skip(2)) {
                    Some((t, rest)) => Some((seq![c] + t, rest)),
                    None => None,
                },
                None => None,
            }
        }
    } else if (s[0] as u32) >= 32 {
        match spec_parse_strbody(s.skip(1)) {
            Some((t, rest)) => Some((seq![s[0]] + t, rest)),
            None => None,
        }
    } else {
        None
    }
}

/// Parsing an escaped text followed by a closing quote recovers the text.
pub proof fn lemma_strbody_round_trip(b: Seq<char>, tail: Seq<char>)
    ensures
        spec_parse_strbody(esc_str(b) + seq!['"'] + tail) == Some((b, tail)),
    decreases b.len(),
{
    broadcast use vstd::utf8::char_u32_cast;

    let s = esc_str(b) + seq!['"'] + tail;
    if b.len() == 0 {
        assert(s[0] == '"');
        assert(s.skip(1) =~= tail);
    } else {
        let c = b[0];
        let e = esc_char(c);
        let b1 = b.drop_first();
        assert(esc_str(b) == e + esc_str(b1));
        let rest = esc_str(b1) + seq!['"'] + tail;
        assert forall|k: int| 0 <= k < e.len() implies s[k] == e[k] by {
            assert(s[k] == (esc_str(b) + seq!['"'] + tail)[k]);
            assert(esc_str(b)[k] == (e + esc_str(b1))[k]);
        }
        lemma_strbody_round_trip(b1, tail);
        assert(seq![c] + b1 =~= b);
        if c == '"' {
            assert(s[0] == '\\' && s[1] == '"');
            assert(s.skip(2) =~= rest);
        } else if c == '\\' {
            assert(s[0] == '\\' && s[1] == '\\');
            assert(s.skip(2) =~= rest);
        } else if (c as u32) < 32 {
            let hi = (c as u32 / 16) as nat;
            let lo = (c as u32 % 16) as nat;
            lemma_hex_val_char(hi);
            lemma_hex_val_char(lo);
            assert(s[0] == '\\' && s[1] == 'u' && s[2] == '0' && s[3] == '0');
            assert(s[4] == hex_char(hi) && s[5] == hex_char(lo));
            assert(hex_val('0') == Some(0nat));
            assert(s.len() >= 6);
            let code = 0nat * 4096 + 0nat * 256 + hi * 16 + lo;
            assert(code == c as u32) by {
                assert(c as u32 / 16 * 16 + c as u32 % 16 == c as u32);
            }
            let u: u32 = code as u32;
            assert(u == c as u32);
            vstd::utf8::char_u32_cast(c, u);
            assert((u as char) == c);
            assert((code as u32) as char == c);
            assert(s.skip(6) =~= rest);
        } else {
            assert(s[0] == c);
            assert(c != '"' && c != '\\' && (c as u32) >= 32);
            assert(s.skip(1) =~= rest);
        }
    }
}

// ---------------------------------------------------------------------
// Executable string functions
// ---------------------------------------------------------------------

/// Relies on String's FromIterator over characters: collecting the
/// characters of `v` yields a string whose characters are exactly `v@`.
#[verifier::external_body]
pub(crate) fn chars_to_string(v: &Vec<char>) -> (r: String)
    ensures
        r@ == v@,
{
    v.iter().collect()
}

pub fn hex_char_exec(d: u32) -> (c: char)
    requires
        d < 16,
    ensures
        c == hex_char(d as nat),
{
    if d < 10 {
        digit_to_char(d as u64)
    } else if d == 10 {
        'a'
    } else if d == 11 {
        'b'
    } else if d == 12 {
        'c'
    } else if d == 13 {
        'd'
    } else if d == 14 {
        'e'
    } else {
        'f'
    }
}

/// Append the escaped body of a JSON string literal for `s`.
pub fn push_escaped(out: &mut Vec<char>, s: &str)
    ensures
        final(out)@ == old(out)@ + esc_str(s@),
{
    let n = s.unicode_len();
    let mut i: usize = 0;
    while i < n
        invariant
            i <= n,
            n == s@.len(),
            out@ == old(out)@ + esc_str(s@.take(i as int)),
        decreases n - i,
    {
        let c = s.get_char(i);
        let u = c as u32;
        if c == '"' {
            out.push('\\');
            out.push('"');
        } else if c == '\\' {
            out.push('\\');
            out.push('\\');
        } else if u < 32 {
            out.push('\\');
            out.push('u');
            out.push('0');
            out.push('0');
            out.push(hex_char_exec(u / 16));
            out.push(hex_char_exec(u % 16));
        } else {
            out.push(c);
        }
        proof {
            lemma_esc_str_snoc(s@.take(i as int), c);
            assert(s@.take(i + 1) =~= s@.take(i as int).push(c));
            assert(out@ =~= old(out)@ + esc_str(s@.take(i + 1)));
        }
        i = i + 1;
    }
    proof {
        assert(s@.take(n as int) =~= s@);
    }
}

pub fn hex_val_exec(c: char) -> (r: Option<u32>)
    ensures
        match r {
            Some(v) => hex_val(c) == Some(v as nat) && v < 16,
            None => hex_val(c) is None,
        },
{
    let u = c as u32;
    if 48 <= u && u <= 57 {
        Some(u - 48)
    } else if 97 <= u && u <= 102 {
        Some(u - 87)
    } else if 65 <= u && u <= 70 {
        Some(u - 55)
    } else {
        None
    }
}

pub fn unesc_char_exec(e: char) -> (r: Option<char>)
    ensures
        r == unesc_char(e),
{
    if e == '"' {
        Some('"')
    } else if e == '\\' {
        Some('\\')
    } else if e == '/' {
        Some('/')
    } else if e == 'b' {
        Some('\u{8}')
    } else if e == 'f' {
        Some('\u{c}')
    } else if e == 'n' {
        Some('\n')
    } else if e == 'r' {
        Some('\r')
    } else if e == 't' {
        Some('\t')
    } else {
        None
    }
}

/// Parse the body of a JSON string literal starting at `i` (just after
/// the opening quote).
pub fn parse_strbody(s: &Vec<char>, i: usize) -> (r: Option<(Vec<char>, usize)>)
    requires
        i <= s.len(),
    ensures
        match r {
            Some((v, j)) => i < j <= s.len() && spec_parse_strbody(s@.skip(i as int)) == Some(
                (v@, s@.skip(j as int)),
            ),
            None => spec_parse_strbody(s@.skip(i as int)) is None,
        },
    decreases s.len() - i,
{
    broadcast use vstd::utf8::char_u32_cast;

    let ghost suf = s@.skip(i as int);
    if i == s.len() {
        return None;
    }
    let c = s[i];
    proof {
        assert(suf[0] == c);
    }
    if c == '"' {
        let v: Vec<char> = Vec::new();
        proof {
            assert(v@ =~= Seq::<char>::empty());
            assert(suf.skip(1) =~= s@.skip(i + 1));
        }
        return Some((v, i + 1));
    }
    if c == '\\' {
        if i + 1 == s.len() {
            return None;
        }
        let e = s[i + 1];
        proof {
            assert(suf[1] == e);
        }
        if e == 'u' {
            if s.len() - i < 6 {
                return None;
            }
            proof {
                assert(suf[2] == s@[i + 2]);
                assert(suf[3] == s@[i + 3]);
                assert(suf[4] == s@[i + 4]);
                assert(suf[5] == s@[i + 5]);
            }
            let h3 = hex_val_exec(s[i + 2]);
            let h2 = hex_val_exec(s[i + 3]);
            let h1 = hex_val_exec(s[i + 4]);
            let h0 = hex_val_exec(s[i + 5]);
            match (h3, h2, h1, h0) {
                (Some(a), Some(b2), Some(cc), Some(d)) => {
                    let code: u32 = a * 4096 + b2 * 256 + cc * 16 + d;
                    if code < 128 {
                        match parse_strbody(s, i + 6) {
                            Some((mut t, j)) => {
                                let ch = (code as u8) as char;
                                proof {
                                    assert(suf.skip(6) =~= s@.skip(i + 6));
                                    assert((code as u32) as char == ch);
                                }
                                let ghost t0 = t@;
                                t.insert(0, ch);
                                proof {
                                    assert(t@ =~= seq![(code as u32) as char] + t0);
                                }
                                Some((t, j))
                            },
                            None => {
                                proof {
                                    assert(suf.skip(6) =~= s@.skip(i + 6));
                                }
                                None
                            },
                        }
                    } else {
                        None
                    }
                },
                _ => None,
            }
        } else {
            match unesc_char_exec(e) {
                Some(u) => match parse_strbody(s, i + 2) {
                    Some((mut t, j)) => {
                        proof {
                            assert(suf.skip(2) =~= s@.skip(i + 2));
                        }
                        let ghost t0 = t@;
                        t.insert(0, u);
                        proof {
                            assert(t@ =~= seq![u] + t0);
                        }
                        Some((t, j))
                    },
                    None => {
                        proof {
                            assert(suf.skip(2) =~= s@.skip(i + 2));
                        }
                        None
                    },
                },
                None => None,
            }
        }
    } else if c as u32 >= 32 {
        match parse_strbody(s, i + 1) {
            Some((mut t, j)) => {
                proof {
                    assert(suf.skip(1) =~= s@.skip(i + 1));
                }
                let ghost t0 = t@;
                t.insert(0, c);
                proof {
                    assert(t@ =~= seq![c] + t0);
                }
                Some((t, j))
            },
            None => {
                proof {
                    assert(suf.skip(1) =~= s@.skip(i + 1));
                }
                None
            },
        }
    } else {
        None
    }
}

// ---------------------------------------------------------------------
// Whole string literals and fixed literals
// ---------------------------------------------------------------------

/// A JSON string literal for the text `v`.
pub open spec fn spec_enc_str(v: Seq<char>) -> Seq<char> {
    seq!['"'] + esc_str(v) + seq!['"']
}

pub open spec fn spec_parse_string(s: Seq<char>) -> Option<(Seq<char>, Seq<char>)> {
    if 0 < s.len() && s[0] == '"' {
        spec_parse_strbody(s.skip(1))
    } else {
        None
    }
}

pub proof fn lemma_string_round_trip(b: Seq<char>, tail: Seq<char>)
    ensures
        spec_parse_string(spec_enc_str(b) + tail) == Some((b, tail)),
{
    let s = spec_enc_str(b) + tail;
    assert(s[0] == '"');
    assert(s.skip(1) =~= esc_str(b) + seq!['"'] + tail);
    lemma_strbody_round_trip(b, tail);
}

pub fn push_string(out: &mut Vec<char>, s: &str)
    ensures
        final(out)@ == old(out)@ + spec_enc_str(s@),
{
    out.push('"');
    push_escaped(out, s);
    out.push('"');
    proof {
        assert(out@ =~= old(out)@ + spec_enc_str(s@));
    }
}

pub fn parse_string(s: &Vec<char>, i: usize) -> (r: Option<(String, usize)>)
    requires
        i <= s.len(),
    ensures
        match r {
            Some((v, j)) => i < j <= s.len() && spec_parse_string(s@.skip(i as int)) == Some(
                (v@, s@.skip(j as int)),
            ),
            None => spec_parse_string(s@.skip(i as int)) is None,
        },
{
    let ghost suf = s@.skip(i as int);
    if i == s.len() {
        return None;
    }
    proof {
        assert(suf[0] == s@[i as int]);
    }
    if s[i] != '"' {
        return None;
    }
    proof {
        assert(suf.skip(1) =~= s@.skip(i + 1));
    }
    match parse_strbody(s, i + 1) {
        Some((v, j)) => Some((chars_to_string(&v), j)),
        None => None,
    }
}

/// Successful match of the fixed text `lit` at the head of the input.
pub open spec fn spec_expect(s: Seq<char>, lit: Seq<char>) -> Option<Seq<char>> {
    if lit.len() <= s.len() && s.take(lit.len() as int) == lit {
        Some(s.skip(lit.len() as int))
    } else {
        None
    }
}

/// A literal at the head of the input is matched and consumed.
pub proof fn lemma_expect_prefix(lit: Seq<char>, tail: Seq<char>)
    ensures
        spec_expect(lit + tail, lit) == Some(tail),
{
    assert((lit + tail).take(lit.len() as int) =~= lit);
    assert((lit + tail).skip(lit.len() as int) =~= tail);
}

pub fn expect_lit(s: &Vec<char>, i: usize, lit: &str) -> (r: Option<usize>)
    requires
        i <= s.len(),
    ensures
        match r {
            Some(j) => i <= j <= s.len() && spec_expect(s@.skip(i as int), lit@) == Some(
                s@.skip(j as int),
            ),
            None => spec_expect(s@.skip(i as int), lit@) is None,
        },
{
    let ghost suf = s@.skip(i as int);
    let n = lit.unicode_len();
    if s.len() - i < n {
        return None;
    }
    let mut j: usize = 0;
    while j < n
        invariant
            j <= n,
            i <= s.len(),
            n == lit@.len(),
            n <= s.len() - i,
            suf == s@.skip(i as int),
            forall|k: int| 0 <= k < j ==> suf[k] == lit@[k],
        decreases n - j,
    {
        proof {
            assert(suf[j as int] == s@[i + j]);
        }
        if s[i + j] != lit.get_char(j) {
            proof {
                assert(suf.take(lit@.len() as int)[j as int] != lit@[j as int]);
            }
            return None;
        }
        j = j + 1;
    }
    proof {
        assert(suf.take(lit@.len() as int) =~= lit@);
        assert(suf.skip(lit@.len() as int) =~= s@.skip(i + n));
    }
    Some(i + n)
}

/// Append the fixed text `lit`.
pub fn push_lit(out: &mut Vec<char>, lit: &str)
    ensures
        final(out)@ == old(out)@ + lit@,
{
    let n = lit.unicode_len();
    let mut j: usize = 0;
    while j < n
        invariant
            j <= n,
            n == lit@.len(),
            out@ == old(out)@ + lit@.take(j as int),
        decreases n - j,
    {
        out.push(lit.get_char(j));
        proof {
            assert(lit@.take(j + 1) =~= lit@.take(j as int).push(lit@[j as int]));
            assert(out@ =~= old(out)@ + lit@.take(j + 1));
        }
        j = j + 1;
    }
    proof {
        assert(lit@.take(n as int) =~= lit@);
    }
}


// ---------------------------------------------------------------------
// Helpers used by the message codec
// ---------------------------------------------------------------------

/// A successful string-body parse consumes at least one character.
pub proof fn lemma_strbody_shortens(s: Seq<char>)
    ensures
        spec_parse_strbody(s) matches Some((t, rest)) ==> rest.len() < s.len(),
    decreases s.len(),
{
    if s.len() > 0 && s[0] != '"' {
        if s[0] == '\\' && s.len() >= 2 {
            if s[1] == 'u' {
                if s.len() >= 6 {
                    lemma_strbody_shortens(s.skip(6));
                }
            } else {
                lemma_strbody_shortens(s.skip(2));
            }
        } else if s[0] != '\\' && (s[0] as u32) >= 32 {
            lemma_strbody_shortens(s.skip(1));
        }
    }
}

/// A successful string parse consumes at least two characters.
pub proof fn lemma_string_shortens(s: Seq<char>)
    ensures
        spec_parse_string(s) matches Some((t, rest)) ==> rest.len() + 2 <= s.len(),
{
    if 0 < s.len() && s[0] == '"' {
        lemma_strbody_shortens(s.skip(1));
    }
}

/// Character-wise string equality with an exact contract.
pub fn str_eq(a: &str, b: &str) -> (r: bool)
    ensures
        r == (a@ == b@),
{
    let na = a.unicode_len();
    let nb = b.unicode_len();
    if na != nb {
        return false;
    }
    let mut i: usize = 0;
    while i < na
        invariant
            i <= na,
            na == a@.len(),
            na == b@.len(),
            forall|k: int| 0 <= k < i ==> a@[k] == b@[k],
        decreases na - i,
    {
        if a.get_char(i) != b.get_char(i) {
            return false;
        }
        i = i + 1;
    }
    proof {
        assert(a@ =~= b@);
    }
    true
}


/// The characters of `s`, as a vector.
pub fn str_to_chars(s: &str) -> (v: Vec<char>)
    ensures
        v@ == s@,
{
    let n = s.unicode_len();
    let mut v: Vec<char> = Vec::new();
    let mut i: usize = 0;
    while i < n
        invariant
            i <= n,
            n == s@.len(),
            v@ == s@.take(i as int),
        decreases n - i,
    {
        v.push(s.get_char(i));
        proof {
            assert(s@.take(i + 1) =~= s@.take(i as int).push(s@[i as int]));
            assert(v@ =~= s@.take(i + 1));
        }
        i = i + 1;
    }
    proof {
        assert(s@.take(n as int) =~= s@);
    }
    v
}

} // verus!
