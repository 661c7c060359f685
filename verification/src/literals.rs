//! Literal syntax of cao-lang source text: integers, floats and string escapes.
use vstd::prelude::*;
use vstd::string::*;

verus! {

pub open spec fn is_digit(c: char) -> bool {
    '0' <= c && c <= '9'
}

pub open spec fn digit_value(c: char) -> nat {
    (c as int - '0' as int) as nat
}

pub open spec fn all_digits(s: Seq<char>) -> bool {
    forall|i: int| 0 <= i < s.len() ==> is_digit(#[trigger] s[i])
}

/// The number that a string of decimal digits denotes.
pub open spec fn digits_value(s: Seq<char>) -> nat
    decreases s.len(),
{
    if s.len() == 0 {
        0
    } else {
        digits_value(s.drop_last()) * 10 + digit_value(s.last())
    }
}

/// Length of a leading `+` or `-`.
pub open spec fn sign_len(s: Seq<char>) -> int {
    if s.len() > 0 && (s[0] == '+' || s[0] == '-') {
        1
    } else {
        0
    }
}

/// What `str::parse::<i64>` returns on `s`: an optional sign, then at least
/// one decimal digit, denoting a value in range.
pub open spec fn spec_parse_i64(s: Seq<char>) -> Option<i64> {
    let body = s.subrange(sign_len(s), s.len() as int);
    let neg = sign_len(s) == 1 && s[0] == '-';
    if body.len() == 0 || !all_digits(body) {
        None
    } else {
        let v: int = if neg {
            -(digits_value(body) as int)
        } else {
            digits_value(body) as int
        };
        if i64::MIN <= v <= i64::MAX {
            Some(v as i64)
        } else {
            None
        }
    }
}

pub open spec fn capped(v: nat, cap: nat) -> nat {
    if v > cap {
        cap
    } else {
        v
    }
}

/// Parses a decimal integer literal as `str::parse::<i64>` does.
pub fn parse_i64(s: &str) -> (r: Option<i64>)
    ensures
        r == spec_parse_i64(s@),
{
    let len = s.unicode_len();
    let mut start: usize = 0;
    let mut neg = false;
    if len > 0 {
        let c = s.get_char(0);
        if c == '+' {
            start = 1;
        } else if c == '-' {
            start = 1;
            neg = true;
        }
    }
    assert(start == sign_len(s@));
    assert(neg == (sign_len(s@) == 1 && s@[0] == '-'));
    if start >= len {
        assert(s@.subrange(sign_len(s@), s@.len() as int).len() == 0);
        return None;
    }
    let ghost body = s@.subrange(start as int, len as int);
    let cap: u64 = 9223372036854775809;
    let mut acc: u64 = 0;
    let mut j: usize = start;
    while j < len
        invariant
            len == s@.len(),
            start <= j <= len,
            start == sign_len(s@),
            neg == (sign_len(s@) == 1 && s@[0] == '-'),
            cap == 9223372036854775809,
            body == s@.subrange(start as int, len as int),
            acc == capped(digits_value(s@.subrange(start as int, j as int)), cap as nat),
            all_digits(s@.subrange(start as int, j as int)),
        decreases len - j,
    {
        let c = s.get_char(j);
        if !('0' <= c && c <= '9') {
            assert(!is_digit(body[j - start]));
            return None;
        }
        let d: u64 = ((c as u32) - ('0' as u32)) as u64;
        let ghost prev = s@.subrange(start as int, j as int);
        let ghost next = s@.subrange(start as int, j + 1);
        assert(next.drop_last() =~= prev);
        assert(next.last() == c);
        assert(digits_value(next) == digits_value(prev) * 10 + d);
        if acc > 922337203685477580 {
            acc = cap;
        } else {
            let t = acc * 10 + d;
            if t > cap {
                acc = cap;
            } else {
                acc = t;
            }
        }
        j = j + 1;
        assert forall|i: int| 0 <= i < next.len() implies is_digit(#[trigger] next[i]) by {
            if i < prev.len() {
                assert(next[i] == prev[i]);
            }
        }
    }
    assert(s@.subrange(start as int, j as int) =~= body);
    if neg {
        if acc > 9223372036854775808 {
            None
        } else if acc == 9223372036854775808 {
            Some(i64::MIN)
        } else {
            Some(-(acc as i64))
        }
    } else {
        if acc > 9223372036854775807 {
            None
        } else {
            Some(acc as i64)
        }
    }
}

pub open spec fn is_hex_digit(c: char) -> bool {
    is_digit(c) || ('a' <= c && c <= 'f') || ('A' <= c && c <= 'F')
}

pub open spec fn hex_value_of(c: char) -> nat {
    if is_digit(c) {
        digit_value(c)
    } else if 'a' <= c && c <= 'f' {
        (c as int - 'a' as int + 10) as nat
    } else {
        (c as int - 'A' as int + 10) as nat
    }
}

pub open spec fn all_hex(s: Seq<char>) -> bool {
    forall|i: int| 0 <= i < s.len() ==> is_hex_digit(#[trigger] s[i])
}

/// The number that a string of hexadecimal digits denotes.
pub open spec fn hex_value(s: Seq<char>) -> nat
    decreases s.len(),
{
    if s.len() == 0 {
        0
    } else {
        hex_value(s.drop_last()) * 16 + hex_value_of(s.last())
    }
}

/// What `u32::from_str_radix(s, 16)` returns: an optional `+`, then at least
/// one hexadecimal digit, denoting a value that fits.
pub open spec fn spec_parse_hex_u32(s: Seq<char>) -> Option<u32> {
    let body = if s.len() > 0 && s[0] == '+' {
        s.drop_first()
    } else {
        s
    };
    if body.len() == 0 || !all_hex(body) {
        None
    } else if hex_value(body) <= u32::MAX {
        Some(hex_value(body) as u32)
    } else {
        None
    }
}

/// Parses the characters `lo..hi` of `s` as `u32::from_str_radix(.., 16)` does.
pub fn parse_hex_u32(s: &str, lo: usize, hi: usize) -> (r: Option<u32>)
    requires
        lo <= hi <= s@.len(),
    ensures
        r == spec_parse_hex_u32(s@.subrange(lo as int, hi as int)),
{
    let ghost whole = s@.subrange(lo as int, hi as int);
    let mut start = lo;
    if lo < hi && s.get_char(lo) == '+' {
        start = lo + 1;
    }
    let ghost body = s@.subrange(start as int, hi as int);
    assert(body =~= (if whole.len() > 0 && whole[0] == '+' {
        whole.drop_first()
    } else {
        whole
    }));
    if start >= hi {
        return None;
    }
    let cap: u64 = 4294967296;
    let mut acc: u64 = 0;
    let mut j: usize = start;
    while j < hi
        invariant
            hi <= s@.len(),
            start <= j <= hi,
            cap == 4294967296,
            whole == s@.subrange(lo as int, hi as int),
            body == s@.subrange(start as int, hi as int),
            body == (if whole.len() > 0 && whole[0] == '+' {
                whole.drop_first()
            } else {
                whole
            }),
            acc == capped(hex_value(s@.subrange(start as int, j as int)), cap as nat),
            all_hex(s@.subrange(start as int, j as int)),
        decreases hi - j,
    {
        let c = s.get_char(j);
        let d: u64;
        if '0' <= c && c <= '9' {
            d = ((c as u32) - ('0' as u32)) as u64;
        } else if 'a' <= c && c <= 'f' {
            d = ((c as u32) - ('a' as u32) + 10) as u64;
        } else if 'A' <= c && c <= 'F' {
            d = ((c as u32) - ('A' as u32) + 10) as u64;
        } else {
            assert(body[j - start] == c);
            assert(!is_hex_digit(body[j - start]));
            return None;
        }
        let ghost prev = s@.subrange(start as int, j as int);
        let ghost next = s@.subrange(start as int, j + 1);
        assert(next.drop_last() =~= prev);
        assert(next.last() == c);
        assert(hex_value(next) == hex_value(prev) * 16 + d);
        if acc > 268435456 {
            acc = cap;
        } else {
            let t = acc * 16 + d;
            if t > cap {
                acc = cap;
            } else {
                acc = t;
            }
        }
        j = j + 1;
        assert forall|i: int| 0 <= i < next.len() implies is_hex_digit(#[trigger] next[i]) by {
            if i < prev.len() {
                assert(next[i] == prev[i]);
            }
        }
    }
    assert(s@.subrange(start as int, j as int) =~= body);
    if acc > 4294967295 {
        None
    } else {
        Some(acc as u32)
    }
}

/// `c` compared with the lower-case letter `lower`, ignoring ASCII case.
pub open spec fn ieq(c: char, lower: char) -> bool {
    c == lower || ('A' <= c && c <= 'Z' && c as int + 32 == lower as int)
}

/// `t` spells the lower-case word `w`, ignoring ASCII case.
pub open spec fn matches_word(t: Seq<char>, w: Seq<char>) -> bool {
    t.len() == w.len() && forall|i: int| 0 <= i < t.len() ==> ieq(#[trigger] t[i], w[i])
}

pub open spec fn count_digits(s: Seq<char>) -> nat
    decreases s.len(),
{
    if s.len() == 0 {
        0
    } else {
        count_digits(s.drop_last()) + if is_digit(s.last()) {
            1nat
        } else {
            0nat
        }
    }
}

pub open spec fn count_dots(s: Seq<char>) -> nat
    decreases s.len(),
{
    if s.len() == 0 {
        0
    } else {
        count_dots(s.drop_last()) + if s.last() == '.' {
            1nat
        } else {
            0nat
        }
    }
}

/// Digits with at most one `.`, and at least one digit.
pub open spec fn mantissa_ok(m: Seq<char>) -> bool {
    &&& forall|i: int| 0 <= i < m.len() ==> is_digit(#[trigger] m[i]) || m[i] == '.'
    &&& count_dots(m) <= 1
    &&& count_digits(m) >= 1
}

/// An optional sign, then at least one digit.
pub open spec fn exponent_ok(x: Seq<char>) -> bool {
    let b = x.subrange(sign_len(x), x.len() as int);
    b.len() > 0 && all_digits(b)
}

/// Index of the first `e` or `E` at or after `j`, or the length.
pub open spec fn exp_index_from(t: Seq<char>, j: int) -> int
    decreases t.len() - j,
{
    if j < 0 || j >= t.len() {
        t.len() as int
    } else if t[j] == 'e' || t[j] == 'E' {
        j
    } else {
        exp_index_from(t, j + 1)
    }
}

pub open spec fn number_ok(t: Seq<char>) -> bool {
    let e = exp_index_from(t, 0);
    &&& mantissa_ok(t.subrange(0, e))
    &&& (e == t.len() || exponent_ok(t.subrange(e + 1, t.len() as int)))
}

/// The strings on which `str::parse::<f64>` succeeds: an optional sign, then
/// `inf`, `infinity` or `nan` in any case, or a decimal number with an optional
/// exponent.
pub open spec fn spec_is_float_literal(s: Seq<char>) -> bool {
    let t = s.subrange(sign_len(s), s.len() as int);
    ||| matches_word(t, seq!['i', 'n', 'f'])
    ||| matches_word(t, seq!['i', 'n', 'f', 'i', 'n', 'i', 't', 'y'])
    ||| matches_word(t, seq!['n', 'a', 'n'])
    ||| number_ok(t)
}

fn ieq_char(c: char, lower: char) -> (r: bool)
    ensures
        r == ieq(c, lower),
{
    c == lower || ('A' <= c && c <= 'Z' && (c as u32) + 32 == (lower as u32))
}

/// Whether the characters `lo..len` of `s` spell the lower-case word `w`, in any case.
fn matches_word_at(s: &str, lo: usize, len: usize, w: &str) -> (r: bool)
    requires
        lo <= len == s@.len(),
    ensures
        r == matches_word(s@.subrange(lo as int, len as int), w@),
{
    let wl = w.unicode_len();
    if len - lo != wl {
        return false;
    }
    let ghost t = s@.subrange(lo as int, len as int);
    let mut i: usize = 0;
    while i < wl
        invariant
            wl == w@.len(),
            len - lo == wl,
            len == s@.len(),
            t == s@.subrange(lo as int, len as int),
            i <= wl,
            forall|k: int| 0 <= k < i ==> ieq(#[trigger] t[k], w@[k]),
        decreases wl - i,
    {
        if !ieq_char(s.get_char(lo + i), w.get_char(i)) {
            assert(!ieq(t[i as int], w@[i as int]));
            return false;
        }
        i = i + 1;
    }
    true
}

/// Position of the first `e` or `E` in `s` at or after `start`, or `len`.
fn find_exponent(s: &str, start: usize, len: usize) -> (e: usize)
    requires
        start <= len == s@.len(),
    ensures
        start <= e <= len,
        e - start == exp_index_from(s@.subrange(start as int, len as int), 0),
{
    let ghost t = s@.subrange(start as int, len as int);
    let mut e: usize = start;
    while e < len
        invariant
            start <= e <= len,
            len == s@.len(),
            t == s@.subrange(start as int, len as int),
            exp_index_from(t, 0) == exp_index_from(t, e - start),
        decreases len - e,
    {
        let c = s.get_char(e);
        assert(t[e - start] == c);
        if c == 'e' || c == 'E' {
            return e;
        }
        e = e + 1;
    }
    e
}

/// Whether `s` is a literal that `str::parse::<f64>` accepts.
pub fn is_float_literal(s: &str) -> (r: bool)
    ensures
        r == spec_is_float_literal(s@),
{
    let len = s.unicode_len();
    let mut start: usize = 0;
    if len > 0 {
        let c = s.get_char(0);
        if c == '+' || c == '-' {
            start = 1;
        }
    }
    assert(start == sign_len(s@));
    let ghost t = s@.subrange(start as int, len as int);
    proof {
        reveal_strlit("inf");
        reveal_strlit("infinity");
        reveal_strlit("nan");
        assert("inf"@ =~= seq!['i', 'n', 'f']);
        assert("infinity"@ =~= seq!['i', 'n', 'f', 'i', 'n', 'i', 't', 'y']);
        assert("nan"@ =~= seq!['n', 'a', 'n']);
    }
    if matches_word_at(s, start, len, "inf") || matches_word_at(s, start, len, "infinity")
        || matches_word_at(s, start, len, "nan") {
        return true;
    }
    let e = find_exponent(s, start, len);
    // the mantissa: characters start..e
    let ghost m = t.subrange(0, e - start);
    assert(spec_is_float_literal(s@) == number_ok(t));
    let mut digits: usize = 0;
    let mut dots: usize = 0;
    let mut i: usize = start;
    while i < e
        invariant
            start <= i <= e <= len,
            len == s@.len(),
            t == s@.subrange(start as int, len as int),
            m == t.subrange(0, e - start),
            m == t.subrange(0, exp_index_from(t, 0)),
            spec_is_float_literal(s@) == number_ok(t),
            digits == count_digits(m.subrange(0, i - start)),
            dots == count_dots(m.subrange(0, i - start)),
            digits + dots <= i - start,
            forall|k: int| 0 <= k < i - start ==> is_digit(#[trigger] m[k]) || m[k] == '.',
        decreases e - i,
    {
        let c = s.get_char(i);
        let ghost prev = m.subrange(0, i - start);
        let ghost next = m.subrange(0, i - start + 1);
        assert(next.drop_last() =~= prev);
        assert(m[i - start] == c);
        assert(next.last() == c);
        if '0' <= c && c <= '9' {
            digits = digits + 1;
        } else if c == '.' {
            dots = dots + 1;
        } else {
            assert(!(is_digit(m[i - start]) || m[i - start] == '.'));
            return false;
        }
        i = i + 1;
    }
    assert(m.subrange(0, e - start) =~= m);
    if dots > 1 || digits < 1 {
        return false;
    }
    if e == len {
        return true;
    }
    // the exponent: characters e + 1..len
    let ghost x = t.subrange(e - start + 1, t.len() as int);
    let mut k: usize = e + 1;
    if k < len {
        let c = s.get_char(k);
        if c == '+' || c == '-' {
            k = k + 1;
        }
    }
    assert(x =~= s@.subrange(e + 1, len as int));
    assert(k - (e + 1) == sign_len(x));
    let ghost b = x.subrange(sign_len(x), x.len() as int);
    assert(b =~= s@.subrange(k as int, len as int));
    if k >= len {
        return false;
    }
    assert(spec_is_float_literal(s@) == all_digits(b));
    let k0 = k;
    while k < len
        invariant
            k0 <= k <= len,
            len == s@.len(),
            b == s@.subrange(k0 as int, len as int),
            spec_is_float_literal(s@) == all_digits(b),
            forall|q: int| k0 <= q < k ==> is_digit(#[trigger] s@[q]),
        decreases len - k,
    {
        let c = s.get_char(k);
        if !('0' <= c && c <= '9') {
            assert(b[k - k0] == c);
            return false;
        }
        k = k + 1;
    }
    assert forall|q: int| 0 <= q < b.len() implies is_digit(#[trigger] b[q]) by {
        assert(b[q] == s@[k0 + q]);
    }
    true
}

pub open spec fn is_ascii_char(c: char) -> bool {
    (c as u32) < 128
}

/// What a string escape sequence such as `\n` or `\u{1F600}` stands for; `None`
/// where the sequence is not one the grammar produces.
///
/// Only the second byte of the escape is looked at, so the first character
/// must be a single byte; a `\u{..}` escape needs its first three characters
/// and its last one to be single bytes.
pub open spec fn spec_decode_escape(raw: Seq<char>) -> Option<Seq<char>> {
    if raw.len() < 2 || !is_ascii_char(raw[0]) {
        None
    } else if raw[1] == '"' {
        Some(seq!['"'])
    } else if raw[1] == '\\' {
        Some(seq!['\\'])
    } else if raw[1] == 'n' {
        Some(seq!['\n'])
    } else if raw[1] == 'r' {
        Some(seq!['\r'])
    } else if raw[1] == 't' {
        Some(seq!['\t'])
    } else if raw[1] == '0' {
        Some(seq!['\0'])
    } else if raw[1] == 'u' {
        if raw.len() >= 4 && is_ascii_char(raw[2]) && is_ascii_char(raw.last()) {
            match spec_parse_hex_u32(raw.subrange(3, raw.len() - 1)) {
                Some(code) => if is_scalar_value(code) {
                    Some(seq![code as char])
                } else {
                    None
                },
                None => None,
            }
        } else {
            None
        }
    } else {
        None
    }
}

/// A Unicode scalar value: at most `0x10FFFF` and not a surrogate.
pub open spec fn is_scalar_value(code: u32) -> bool {
    code <= 0x10FFFF && !(0xD800 <= code && code <= 0xDFFF)
}

/// Calls `char::from_u32`. Its documentation: `None` exactly when `code` is not a
/// valid `char`, that is not a Unicode scalar value; otherwise the `char` whose
/// code is `code`.
#[verifier::external_body]
fn char_from_u32(code: u32) -> (r: Option<char>)
    ensures
        r is Some <==> is_scalar_value(code),
        r matches Some(c) ==> c == code as char,
{
    char::from_u32(code)
}

/// Calls `char::to_string`: a string holding the one character `c`.
#[verifier::external_body]
fn char_to_string(c: char) -> (s: String)
    ensures
        s@ == seq![c],
{
    c.to_string()
}

/// Decodes one escape sequence of a string literal, one that the grammar
/// produces.
pub fn decode_escape(raw: &str) -> (r: String)
    requires
        spec_decode_escape(raw@) is Some,
    ensures
        r@ == spec_decode_escape(raw@)->0,
{
    match decode_escape_checked(raw) {
        Some(s) => s,
        None => String::new(),
    }
}

/// Decodes one escape sequence of a string literal; `None` for a sequence that
/// the grammar does not produce, on which [`decode_escape`] has no answer.
pub fn decode_escape_checked(raw: &str) -> (r: Option<String>)
    ensures
        r is Some <==> spec_decode_escape(raw@) is Some,
        r matches Some(s) ==> s@ == spec_decode_escape(raw@)->0,
{
    proof {
        reveal_strlit("\"");
        reveal_strlit("\\");
        reveal_strlit("\n");
        reveal_strlit("\r");
        reveal_strlit("\t");
        reveal_strlit("\0");
    }
    let len = raw.unicode_len();
    if len < 2 || !is_ascii(raw.get_char(0)) {
        return None;
    }
    let c = raw.get_char(1);
    if c == '"' {
        Some(String::from_str("\""))
    } else if c == '\\' {
        Some(String::from_str("\\"))
    } else if c == 'n' {
        Some(String::from_str("\n"))
    } else if c == 'r' {
        Some(String::from_str("\r"))
    } else if c == 't' {
        Some(String::from_str("\t"))
    } else if c == '0' {
        Some(String::from_str("\0"))
    } else if c == 'u' && len >= 4 && is_ascii(raw.get_char(2)) && is_ascii(raw.get_char(len - 1)) {
        match parse_hex_u32(raw, 3, len - 1) {
            Some(code) => match char_from_u32(code) {
                Some(ch) => Some(char_to_string(ch)),
                None => None,
            },
            None => None,
        }
    } else {
        None
    }
}

fn is_ascii(c: char) -> (r: bool)
    ensures
        r == is_ascii_char(c),
{
    (c as u32) < 128
}

} // verus!

verus! {

proof fn lemma_decimal_digits(n: nat)
    ensures
        all_digits(crate::text::decimal(n)),
        digits_value(crate::text::decimal(n)) == n,
        crate::text::decimal(n).len() > 0,
    decreases n,
{
    let s = crate::text::decimal(n);
    let d = (n % 10) as nat;
    assert(digit_value(crate::text::digit_char(d)) == d && is_digit(crate::text::digit_char(d)));
    if n >= 10 {
        lemma_decimal_digits(n / 10);
        let p = crate::text::decimal(n / 10);
        assert(s == p.push(crate::text::digit_char(d)));
        assert(s.drop_last() =~= p);
        assert(s.last() == crate::text::digit_char(d));
        assert(n == (n / 10) * 10 + n % 10);
        assert(digits_value(s) == digits_value(p) * 10 + digit_value(s.last()));
        assert forall|i: int| 0 <= i < s.len() implies is_digit(#[trigger] s[i]) by {
            if i < p.len() {
                assert(s[i] == p[i]);
            }
        }
    } else {
        assert(s == seq![crate::text::digit_char(n)]);
        assert(s.drop_last() =~= Seq::<char>::empty());
        assert(digits_value(s) == digits_value(s.drop_last()) * 10 + digit_value(s.last()));
    }
}

/// Reading back the decimal text of an `i64` gives the same number: an integer
/// literal written as `v` lowers to the value `v`.
pub proof fn law_integer_literal_round_trip(v: i64)
    ensures
        spec_parse_i64(crate::text::signed_decimal(v as int)) == Some(v),
{
    let s = crate::text::signed_decimal(v as int);
    if v < 0 {
        let m = (-(v as int)) as nat;
        lemma_decimal_digits(m);
        let d = crate::text::decimal(m);
        assert(s == seq!['-'] + d);
        assert(s[0] == '-');
        assert(sign_len(s) == 1);
        assert(s.subrange(1, s.len() as int) =~= d);
    } else {
        lemma_decimal_digits(v as nat);
        let d = crate::text::decimal(v as nat);
        assert(is_digit(d[0]));
        assert(sign_len(s) == 0);
        assert(s.subrange(0, s.len() as int) =~= d);
    }
}

} // verus!
