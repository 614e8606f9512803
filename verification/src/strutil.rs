//! Character-sequence helpers shared by the parsers: conversion between
//! strings and character vectors, ASCII classes, Unicode white space,
//! trimming, decimal integers and substring search.
use vstd::prelude::*;

verus! {

/// The characters of `s`, in order.
pub fn chars_of(s: &str) -> (v: Vec<char>)
    ensures
        v@ == s@,
{
    broadcast use vstd::string::group_string_axioms;
    let mut v: Vec<char> = Vec::new();
    for c in it: s.chars()
        invariant
            v@ == it.seq().take(it.index() as int),
    {
        v.push(c);
        assert(v@ == it.seq().take(it.index() as int + 1));
    }
    assert(v@ == s@);
    v
}

/// `String::push`: appends one character.
#[verifier::external_body]
fn push_char(s: &mut String, c: char)
    ensures
        final(s)@ == old(s)@.push(c),
{
    s.push(c);
}

/// A `String` holding exactly the characters of `v`.
pub fn string_from_chars(v: &[char]) -> (s: String)
    ensures
        s@ == v@,
{
    let mut s = String::new();
    let mut i: usize = 0;
    while i < v.len()
        invariant
            i <= v@.len(),
            s@ == v@.take(i as int),
        decreases v@.len() - i,
    {
        push_char(&mut s, v[i]);
        i += 1;
        assert(v@.take(i as int) == v@.take(i - 1).push(v@[i - 1]));
    }
    assert(v@.take(i as int) == v@);
    s
}

pub open spec fn is_ascii_digit(c: char) -> bool {
    '0' <= c && c <= '9'
}

pub open spec fn is_ascii_upper(c: char) -> bool {
    'A' <= c && c <= 'Z'
}

pub open spec fn is_ascii_lower(c: char) -> bool {
    'a' <= c && c <= 'z'
}

pub open spec fn is_ascii_alphanumeric(c: char) -> bool {
    is_ascii_digit(c) || is_ascii_upper(c) || is_ascii_lower(c)
}

/// `char::is_whitespace`: the Unicode `White_Space` property.
pub open spec fn is_white_space(c: char) -> bool {
    ('\u{9}' <= c && c <= '\u{d}') || c == ' ' || c == '\u{85}' || c == '\u{a0}'
        || c == '\u{1680}' || ('\u{2000}' <= c && c <= '\u{200a}') || c == '\u{2028}'
        || c == '\u{2029}' || c == '\u{202f}' || c == '\u{205f}' || c == '\u{3000}'
}

pub fn char_is_white_space(c: char) -> (b: bool)
    ensures
        b == is_white_space(c),
{
    ('\u{9}' <= c && c <= '\u{d}') || c == ' ' || c == '\u{85}' || c == '\u{a0}'
        || c == '\u{1680}' || ('\u{2000}' <= c && c <= '\u{200a}') || c == '\u{2028}'
        || c == '\u{2029}' || c == '\u{202f}' || c == '\u{205f}' || c == '\u{3000}'
}

pub fn char_is_ascii_digit(c: char) -> (b: bool)
    ensures
        b == is_ascii_digit(c),
{
    '0' <= c && c <= '9'
}

pub fn char_is_ascii_alphanumeric(c: char) -> (b: bool)
    ensures
        b == is_ascii_alphanumeric(c),
{
    ('0' <= c && c <= '9') || ('A' <= c && c <= 'Z') || ('a' <= c && c <= 'z')
}

/// `char::to_ascii_lowercase`.
pub open spec fn ascii_lower(c: char) -> char {
    if is_ascii_upper(c) {
        ((c as u8) + 32) as char
    } else {
        c
    }
}

pub fn char_ascii_lower(c: char) -> (r: char)
    ensures
        r == ascii_lower(c),
{
    if 'A' <= c && c <= 'Z' {
        ((c as u8) + 32) as char
    } else {
        c
    }
}

/// `str::to_ascii_lowercase` on a character sequence.
pub open spec fn ascii_lower_seq(s: Seq<char>) -> Seq<char> {
    s.map_values(|c: char| ascii_lower(c))
}

pub fn ascii_lowercase(s: &[char]) -> (r: Vec<char>)
    ensures
        r@ == ascii_lower_seq(s@),
{
    let mut r: Vec<char> = Vec::new();
    let mut i: usize = 0;
    while i < s.len()
        invariant
            i <= s.len(),
            r@ == ascii_lower_seq(s@.take(i as int)),
        decreases s.len() - i,
    {
        r.push(char_ascii_lower(s[i]));
        i += 1;
        assert(s@.take(i as int) == s@.take(i - 1).push(s@[i - 1]));
    }
    assert(s@.take(s.len() as int) == s@);
    r
}

/// `str::eq_ignore_ascii_case`.
pub open spec fn eq_ignore_ascii_case(a: Seq<char>, b: Seq<char>) -> bool {
    ascii_lower_seq(a) == ascii_lower_seq(b)
}

pub fn chars_eq_ignore_ascii_case(a: &[char], b: &[char]) -> (r: bool)
    ensures
        r == eq_ignore_ascii_case(a@, b@),
{
    let la = ascii_lowercase(a);
    let lb = ascii_lowercase(b);
    chars_eq(&la, &lb)
}

/// Whether two texts are equal.
pub fn str_eq(a: &str, b: &str) -> (r: bool)
    ensures
        r == (a@ == b@),
{
    let va = chars_of(a);
    let vb = chars_of(b);
    chars_eq(&va, &vb)
}

pub fn chars_eq(a: &[char], b: &[char]) -> (r: bool)
    ensures
        r == (a@ == b@),
{
    if a.len() != b.len() {
        return false;
    }
    let mut i: usize = 0;
    while i < a.len()
        invariant
            i <= a.len(),
            a.len() == b.len(),
            forall|j: int| 0 <= j < i ==> a@[j] == b@[j],
        decreases a.len() - i,
    {
        if a[i] != b[i] {
            return false;
        }
        i += 1;
    }
    assert(a@ == b@);
    true
}

/// `s` with leading white space removed (`str::trim_start`).
pub open spec fn trim_start(s: Seq<char>) -> Seq<char>
    decreases s.len(),
{
    if s.len() > 0 && is_white_space(s[0]) {
        trim_start(s.drop_first())
    } else {
        s
    }
}

/// `s` with trailing white space removed (`str::trim_end`).
pub open spec fn trim_end(s: Seq<char>) -> Seq<char>
    decreases s.len(),
{
    if s.len() > 0 && is_white_space(s.last()) {
        trim_end(s.drop_last())
    } else {
        s
    }
}

/// `str::trim`.
pub open spec fn trim(s: Seq<char>) -> Seq<char> {
    trim_end(trim_start(s))
}

proof fn lemma_trim_start_skip(s: Seq<char>, i: int)
    requires
        0 <= i <= s.len(),
        forall|j: int| 0 <= j < i ==> is_white_space(#[trigger] s[j]),
    ensures
        trim_start(s) == trim_start(s.skip(i)),
    decreases i,
{
    if i > 0 {
        assert(is_white_space(s[0]));
        assert(s.drop_first().skip(i - 1) == s.skip(i));
        assert forall|j: int| 0 <= j < i - 1 implies is_white_space(#[trigger] s.drop_first()[j]) by {
            assert(s.drop_first()[j] == s[j + 1]);
        }
        lemma_trim_start_skip(s.drop_first(), i - 1);
    } else {
        assert(s.skip(0) == s);
    }
}

proof fn lemma_trim_end_take(s: Seq<char>, i: int)
    requires
        0 <= i <= s.len(),
        forall|j: int| i <= j < s.len() ==> is_white_space(#[trigger] s[j]),
    ensures
        trim_end(s) == trim_end(s.take(i)),
    decreases s.len() - i,
{
    if i < s.len() {
        assert(is_white_space(s[s.len() - 1]));
        assert(s.drop_last().take(i) == s.take(i));
        assert forall|j: int| i <= j < s.len() - 1 implies is_white_space(#[trigger] s.drop_last()[j]) by {
            assert(s.drop_last()[j] == s[j]);
        }
        lemma_trim_end_take(s.drop_last(), i);
    } else {
        assert(s.take(i) == s);
    }
}

pub fn trim_chars(s: &[char]) -> (r: Vec<char>)
    ensures
        r@ == trim(s@),
{
    let mut lo: usize = 0;
    while lo < s.len() && char_is_white_space(s[lo])
        invariant
            lo <= s.len(),
            forall|j: int| 0 <= j < lo ==> is_white_space(#[trigger] s@[j]),
        decreases s.len() - lo,
    {
        lo += 1;
    }
    proof {
        lemma_trim_start_skip(s@, lo as int);
    }
    let mut hi: usize = s.len();
    while hi > lo && char_is_white_space(s[hi - 1])
        invariant
            lo <= hi <= s.len(),
            forall|j: int| hi <= j < s.len() ==> is_white_space(#[trigger] s@[j]),
        decreases hi,
    {
        hi -= 1;
    }
    let ghost t = s@.skip(lo as int);
    proof {
        assert(trim_start(t) == t);
        lemma_trim_end_take(t, hi - lo);
        assert(t.take(hi - lo) == s@.subrange(lo as int, hi as int));
        if hi > lo {
            assert(!is_white_space(t.take(hi - lo).last()));
        }
    }
    slice_range(s, lo, hi)
}

/// `str::trim_end` on characters.
pub fn trim_end_chars(s: &[char]) -> (r: Vec<char>)
    ensures
        r@ == trim_end(s@),
{
    let mut hi: usize = s.len();
    while hi > 0 && char_is_white_space(s[hi - 1])
        invariant
            hi <= s.len(),
            forall|j: int| hi <= j < s.len() ==> is_white_space(#[trigger] s@[j]),
        decreases hi,
    {
        hi -= 1;
    }
    proof {
        lemma_trim_end_take(s@, hi as int);
        assert(s@.take(hi as int) == s@.subrange(0, hi as int));
        if hi > 0 {
            assert(!is_white_space(s@.take(hi as int).last()));
        }
    }
    slice_range(s, 0, hi)
}

/// Trimming the end leaves a prefix.
pub proof fn lemma_trim_end_prefix(s: Seq<char>)
    ensures
        trim_end(s).len() <= s.len(),
        s.take(trim_end(s).len() as int) == trim_end(s),
    decreases s.len(),
{
    if s.len() > 0 && is_white_space(s.last()) {
        lemma_trim_end_prefix(s.drop_last());
        let t = trim_end(s.drop_last());
        assert(s.take(t.len() as int) == s.drop_last().take(t.len() as int));
    } else {
        assert(s.take(s.len() as int) == s);
    }
}

/// The characters `s[lo..hi]`.
pub fn slice_range(s: &[char], lo: usize, hi: usize) -> (r: Vec<char>)
    requires
        lo <= hi <= s.len(),
    ensures
        r@ == s@.subrange(lo as int, hi as int),
{
    let mut r: Vec<char> = Vec::new();
    let mut i: usize = lo;
    while i < hi
        invariant
            lo <= i <= hi <= s.len(),
            r@ == s@.subrange(lo as int, i as int),
        decreases hi - i,
    {
        r.push(s[i]);
        i += 1;
    }
    r
}

/// The value of a run of ASCII digits, most significant first.
pub open spec fn digits_value(s: Seq<char>) -> int
    decreases s.len(),
{
    if s.len() == 0 {
        0
    } else {
        digits_value(s.drop_last()) * 10 + (s.last() as int - '0' as int)
    }
}

pub open spec fn all_digits(s: Seq<char>) -> bool {
    forall|i: int| 0 <= i < s.len() ==> is_ascii_digit(#[trigger] s[i])
}

/// The integer that Rust's `str::parse` reads from `s`, before the range check
/// of the target type: an optional `+` (or `-` when `signed`) and at least one
/// ASCII digit, nothing else.
pub open spec fn parse_int_value(s: Seq<char>, signed: bool) -> Option<int> {
    if s.len() == 0 {
        None
    } else if s[0] == '+' || (signed && s[0] == '-') {
        let rest = s.drop_first();
        if rest.len() > 0 && all_digits(rest) {
            Some(if s[0] == '-' { -digits_value(rest) } else { digits_value(rest) })
        } else {
            None
        }
    } else if all_digits(s) {
        Some(digits_value(s))
    } else {
        None
    }
}

/// `str::parse` into an integer type with range `lo..=hi`.
pub open spec fn parse_int(s: Seq<char>, signed: bool, lo: int, hi: int) -> Option<int> {
    match parse_int_value(s, signed) {
        Some(v) => if lo <= v <= hi { Some(v) } else { None },
        None => None,
    }
}

pub proof fn lemma_digits_value_nonneg(s: Seq<char>)
    requires
        all_digits(s),
    ensures
        digits_value(s) >= 0,
    decreases s.len(),
{
    if s.len() > 0 {
        lemma_digits_value_nonneg(s.drop_last());
    }
}

proof fn lemma_digits_value_grows(s: Seq<char>, i: int)
    requires
        all_digits(s),
        0 <= i <= s.len(),
    ensures
        digits_value(s) >= digits_value(s.take(i)),
    decreases s.len() - i,
{
    if i < s.len() {
        assert(s.drop_last().take(i) == s.take(i));
        lemma_digits_value_grows(s.drop_last(), i);
        lemma_digits_value_nonneg(s.drop_last());
    } else {
        assert(s.take(i) == s);
    }
}

/// Value of the ASCII digits `s[lo..]`, or `None` when it exceeds `u64::MAX`.
fn digits_u64(s: &[char], lo: usize) -> (r: Option<u64>)
    requires
        lo <= s.len(),
        all_digits(s@.skip(lo as int)),
    ensures
        ({
            let v = digits_value(s@.skip(lo as int));
            match r {
                Some(x) => x == v,
                None => v > u64::MAX,
            }
        }),
{
    let ghost t = s@.skip(lo as int);
    let mut acc: u64 = 0;
    let mut i: usize = lo;
    while i < s.len()
        invariant
            lo <= i <= s.len(),
            t == s@.skip(lo as int),
            all_digits(t),
            acc == digits_value(t.take(i - lo)),
        decreases s.len() - i,
    {
        assert(is_ascii_digit(t[i - lo]));
        assert(t[i - lo] == s@[i as int]);
        let dgt = (s[i] as u32 - '0' as u32) as u64;
        assert(t.take(i - lo + 1).drop_last() == t.take(i - lo));
        if acc > (u64::MAX - dgt) / 10 {
            proof {
                assert(digits_value(t.take(i - lo + 1)) == acc * 10 + dgt);
                lemma_digits_value_grows(t, i - lo + 1);
            }
            return None;
        }
        acc = acc * 10 + dgt;
        i += 1;
    }
    assert(t.take(i - lo) == t);
    Some(acc)
}

fn check_all_digits(s: &[char], lo: usize) -> (r: bool)
    requires
        lo <= s.len(),
    ensures
        r == all_digits(s@.skip(lo as int)),
{
    let mut i: usize = lo;
    while i < s.len()
        invariant
            lo <= i <= s.len(),
            forall|j: int| lo <= j < i ==> is_ascii_digit(#[trigger] s@[j]),
        decreases s.len() - i,
    {
        if !char_is_ascii_digit(s[i]) {
            assert(!is_ascii_digit(s@.skip(lo as int)[i - lo]));
            return false;
        }
        i += 1;
    }
    assert forall|j: int| 0 <= j < s@.skip(lo as int).len() implies is_ascii_digit(
        #[trigger] s@.skip(lo as int)[j],
    ) by {
        assert(s@.skip(lo as int)[j] == s@[lo + j]);
    }
    true
}

/// Sign and magnitude that `str::parse` reads; the magnitude is `None` when it
/// does not fit in a `u64`.
fn parse_sign_magnitude(s: &[char], signed: bool) -> (r: Option<(bool, Option<u64>)>)
    ensures
        match r {
            None => parse_int_value(s@, signed) is None,
            Some((neg, mag)) => parse_int_value(s@, signed) is Some && (!signed ==> !neg) && ({
                let v = parse_int_value(s@, signed)->0;
                &&& (neg ==> v <= 0) && (!neg ==> v >= 0)
                &&& match mag {
                    Some(m) => (if neg { -v } else { v }) == m as int,
                    None => (if neg { -v } else { v }) > u64::MAX,
                }
            }),
        },
{
    if s.len() == 0 {
        return None;
    }
    let first = s[0];
    let lo: usize = if first == '+' || (signed && first == '-') { 1 } else { 0 };
    if lo == 1 && s.len() == 1 {
        return None;
    }
    if !check_all_digits(s, lo) {
        proof {
            if lo == 0 {
                assert(s@.skip(0) == s@);
            } else {
                assert(s@.skip(1) == s@.drop_first());
            }
        }
        return None;
    }
    proof {
        if lo == 0 {
            assert(s@.skip(0) == s@);
            assert(!(s@[0] == '+' || (signed && s@[0] == '-'))) by {
                assert(is_ascii_digit(s@[0]));
            }
        } else {
            assert(s@.skip(1) == s@.drop_first());
        }
        lemma_digits_value_nonneg(s@.skip(lo as int));
    }
    let mag = digits_u64(s, lo);
    Some((lo == 1 && first == '-', mag))
}

/// `str::parse::<i64>`.
pub fn parse_i64(s: &[char]) -> (r: Option<i64>)
    ensures
        match parse_int(s@, true, i64::MIN as int, i64::MAX as int) {
            Some(v) => r == Some(v as i64),
            None => r is None,
        },
{
    match parse_sign_magnitude(s, true) {
        None => None,
        Some((neg, None)) => None,
        Some((neg, Some(m))) => {
            if neg {
                if m <= 0x8000_0000_0000_0000u64 {
                    if m == 0x8000_0000_0000_0000u64 {
                        Some(i64::MIN)
                    } else {
                        Some(-(m as i64))
                    }
                } else {
                    None
                }
            } else if m <= i64::MAX as u64 {
                Some(m as i64)
            } else {
                None
            }
        },
    }
}

/// `str::parse::<i32>`.
pub fn parse_i32(s: &[char]) -> (r: Option<i32>)
    ensures
        match parse_int(s@, true, i32::MIN as int, i32::MAX as int) {
            Some(v) => r == Some(v as i32),
            None => r is None,
        },
{
    match parse_i64(s) {
        Some(v) => if i32::MIN as i64 <= v && v <= i32::MAX as i64 { Some(v as i32) } else { None },
        None => {
            proof {
                if parse_int_value(s@, true) is Some {
                    let v = parse_int_value(s@, true)->0;
                    assert(!(i64::MIN <= v <= i64::MAX));
                }
            }
            None
        },
    }
}

/// `str::parse::<u64>`.
pub fn parse_u64(s: &[char]) -> (r: Option<u64>)
    ensures
        match parse_int(s@, false, 0, u64::MAX as int) {
            Some(v) => r == Some(v as u64),
            None => r is None,
        },
{
    match parse_sign_magnitude(s, false) {
        None => None,
        Some((_, None)) => None,
        Some((_, Some(m))) => Some(m),
    }
}

/// `str::parse::<u16>`.
pub fn parse_u16(s: &[char]) -> (r: Option<u16>)
    ensures
        match parse_int(s@, false, 0, u16::MAX as int) {
            Some(v) => r == Some(v as u16),
            None => r is None,
        },
{
    match parse_u64(s) {
        Some(v) => if v <= u16::MAX as u64 { Some(v as u16) } else { None },
        None => None,
    }
}

/// `str::parse::<u8>`.
pub fn parse_u8(s: &[char]) -> (r: Option<u8>)
    ensures
        match parse_int(s@, false, 0, u8::MAX as int) {
            Some(v) => r == Some(v as u8),
            None => r is None,
        },
{
    match parse_u64(s) {
        Some(v) => if v <= u8::MAX as u64 { Some(v as u8) } else { None },
        None => None,
    }
}

/// The ASCII digit for `d` (0..=9).
pub open spec fn digit_char(d: int) -> char {
    (48 + d) as char
}

/// Decimal representation of `n` without leading zeros ("0" for zero).
pub open spec fn dec_digits(n: nat) -> Seq<char>
    decreases n,
{
    if n < 10 {
        seq![digit_char(n as int)]
    } else {
        dec_digits(n / 10).push(digit_char((n % 10) as int))
    }
}

/// `n` zeros.
pub open spec fn zeros(n: int) -> Seq<char> {
    Seq::new(if n > 0 { n as nat } else { 0 }, |i: int| '0')
}

/// `format!("{:0width$}", n)`: the sign, then zeros up to `width` characters
/// in all, then the digits.
pub open spec fn fmt_int(n: int, width: int) -> Seq<char> {
    let digits = dec_digits((if n < 0 { -n } else { n }) as nat);
    if n < 0 {
        seq!['-'] + zeros(width - 1 - digits.len()) + digits
    } else {
        zeros(width - digits.len()) + digits
    }
}

spec fn pow10(k: nat) -> nat
    decreases k,
{
    if k == 0 {
        1
    } else {
        10 * pow10((k - 1) as nat)
    }
}

proof fn lemma_dec_digits_len_bound(n: nat, k: nat)
    requires
        k >= 1,
        n < pow10(k),
    ensures
        1 <= dec_digits(n).len() <= k,
    decreases n,
{
    if n >= 10 {
        assert(pow10(0) == 1);
        assert(pow10(1) == 10 * pow10(0));
        assert(k >= 2);
        assert(pow10(k) == 10 * pow10((k - 1) as nat));
        lemma_dec_digits_len_bound(n / 10, (k - 1) as nat);
    }
}

proof fn lemma_dec_digits_len(n: nat)
    requires
        n <= u64::MAX,
    ensures
        1 <= dec_digits(n).len() <= 20,
{
    assert(pow10(20) == 100000000000000000000) by {
        reveal_with_fuel(pow10, 21);
    }
    lemma_dec_digits_len_bound(n, 20);
}

fn dec_digits_u64(n: u64) -> (v: Vec<char>)
    ensures
        v@ == dec_digits(n as nat),
        v@.len() <= 20,
    decreases n,
{
    proof {
        lemma_dec_digits_len(n as nat);
    }
    if n < 10 {
        let mut v: Vec<char> = Vec::new();
        v.push(((n as u8) + 48) as char);
        v
    } else {
        let mut v = dec_digits_u64(n / 10);
        v.push((((n % 10) as u8) + 48) as char);
        v
    }
}

/// Appends `format!("{:0width$}", n)` to `out`.
pub fn push_int(out: &mut Vec<char>, n: i64, width: usize)
    requires
        old(out)@.len() + width + 21 <= usize::MAX,
    ensures
        final(out)@ == old(out)@ + fmt_int(n as int, width as int),
        final(out)@.len() <= old(out)@.len() + width + 21,
{
    let mag: u64 = if n >= 0 {
        n as u64
    } else if n == i64::MIN {
        0x8000_0000_0000_0000u64
    } else {
        (-n) as u64
    };
    let digits = dec_digits_u64(mag);
    let ghost start = out@;
    if n < 0 {
        out.push('-');
    }
    let used: usize = if n < 0 { digits.len() + 1 } else { digits.len() };
    let mut k: usize = used;
    while k < width
        invariant
            used <= k,
            k <= width || k == used,
            out@.len() == start.len() + (if n < 0 { 1int } else { 0int }) + (k - used),
            out@ == (if n < 0 { start.push('-') } else { start }) + zeros(k - used),
        decreases width - k,
    {
        out.push('0');
        k += 1;
        assert(zeros(k - used) == zeros(k - 1 - used).push('0'));
    }
    let mut i: usize = 0;
    let ghost padded = out@;
    while i < digits.len()
        invariant
            i <= digits.len(),
            out@ == padded + digits@.take(i as int),
        decreases digits.len() - i,
    {
        out.push(digits[i]);
        i += 1;
        assert(digits@.take(i as int) == digits@.take(i - 1).push(digits@[i - 1]));
    }
    assert(digits@.take(digits.len() as int) == digits@);
    assert(zeros(k - used) == zeros(width - used));
    assert(out@ == old(out)@ + fmt_int(n as int, width as int));
}

/// Index of the first `c` in `s`.
pub open spec fn find_char(s: Seq<char>, c: char) -> Option<int>
    decreases s.len(),
{
    if s.len() == 0 {
        None
    } else if s[0] == c {
        Some(0)
    } else {
        match find_char(s.drop_first(), c) {
            Some(i) => Some(i + 1),
            None => None,
        }
    }
}

pub proof fn lemma_find_char(s: Seq<char>, c: char)
    ensures
        match find_char(s, c) {
            Some(i) => 0 <= i < s.len() && s[i] == c && forall|j: int| 0 <= j < i ==> s[j] != c,
            None => forall|j: int| 0 <= j < s.len() ==> s[j] != c,
        },
    decreases s.len(),
{
    if s.len() > 0 {
        lemma_find_char(s.drop_first(), c);
        if s[0] != c {
            match find_char(s.drop_first(), c) {
                Some(i) => {
                    assert forall|j: int| 0 <= j < i + 1 implies s[j] != c by {
                        if j > 0 {
                            assert(s[j] == s.drop_first()[j - 1]);
                        }
                    }
                },
                None => {
                    assert forall|j: int| 0 <= j < s.len() implies s[j] != c by {
                        if j > 0 {
                            assert(s[j] == s.drop_first()[j - 1]);
                        }
                    }
                },
            }
        }
    }
}

pub proof fn lemma_find_char_unique(s: Seq<char>, c: char, i: int)
    requires
        0 <= i < s.len(),
        s[i] == c,
        forall|j: int| 0 <= j < i ==> s[j] != c,
    ensures
        find_char(s, c) == Some(i),
{
    lemma_find_char(s, c);
}

pub proof fn lemma_find_char_none(s: Seq<char>, c: char)
    requires
        forall|j: int| 0 <= j < s.len() ==> s[j] != c,
    ensures
        find_char(s, c) is None,
{
    lemma_find_char(s, c);
}

pub fn find_char_in(s: &[char], from: usize, c: char) -> (r: Option<usize>)
    requires
        from <= s.len(),
    ensures
        match find_char(s@.skip(from as int), c) {
            Some(i) => r == Some((from + i) as usize),
            None => r is None,
        },
{
    let mut i: usize = from;
    while i < s.len()
        invariant
            from <= i <= s.len(),
            forall|j: int| from <= j < i ==> s@[j] != c,
        decreases s.len() - i,
    {
        if s[i] == c {
            proof {
                lemma_find_char_unique(s@.skip(from as int), c, i - from);
            }
            return Some(i);
        }
        i += 1;
    }
    proof {
        lemma_find_char_none(s@.skip(from as int), c);
    }
    None
}

/// `str::split(c)`: the pieces between occurrences of `c`.
pub open spec fn split_on(s: Seq<char>, c: char) -> Seq<Seq<char>>
    decreases s.len(),
{
    match find_char(s, c) {
        Some(i) => if 0 <= i < s.len() {
            seq![s.take(i)] + split_on(s.skip(i + 1), c)
        } else {
            seq![s]
        },
        None => seq![s],
    }
}

pub fn split_chars(s: &[char], c: char) -> (r: Vec<Vec<char>>)
    ensures
        r.len() == split_on(s@, c).len(),
        forall|i: int| 0 <= i < r.len() ==> #[trigger] r[i]@ == split_on(s@, c)[i],
{
    let mut r: Vec<Vec<char>> = Vec::new();
    let mut from: usize = 0;
    assert(s@.skip(0) == s@);
    loop
        invariant
            from <= s.len(),
            split_on(s@, c) == r@.map_values(|v: Vec<char>| v@) + split_on(s@.skip(from as int), c),
        decreases s.len() - from,
    {
        let ghost rest = s@.skip(from as int);
        proof {
            lemma_find_char(rest, c);
        }
        match find_char_in(s, from, c) {
            Some(i) => {
                let piece = slice_range(s, from, i);
                assert(piece@ == rest.take(i - from));
                assert(rest.skip(i - from + 1) == s@.skip(i + 1));
                r.push(piece);
                assert(r@.map_values(|v: Vec<char>| v@) == old_map(r@, piece@));
                from = i + 1;
            },
            None => {
                let piece = slice_range(s, from, s.len());
                assert(piece@ == rest);
                r.push(piece);
                proof {
                    assert(r@.map_values(|v: Vec<char>| v@) == old_map(r@, piece@));
                }
                assert forall|k: int| 0 <= k < r.len() implies #[trigger] r[k]@ == split_on(s@, c)[k] by {
                    assert(r@.map_values(|v: Vec<char>| v@)[k] == r@[k]@);
                }
                return r;
            },
        }
    }
}

spec fn old_map(r: Seq<Vec<char>>, last: Seq<char>) -> Seq<Seq<char>> {
    r.drop_last().map_values(|v: Vec<char>| v@).push(last)
}

pub open spec fn starts_with(s: Seq<char>, p: Seq<char>) -> bool {
    p.len() <= s.len() && s.take(p.len() as int) == p
}

pub fn chars_starts_with(s: &[char], p: &[char]) -> (r: bool)
    ensures
        r == starts_with(s@, p@),
{
    if p.len() > s.len() {
        return false;
    }
    let mut i: usize = 0;
    while i < p.len()
        invariant
            i <= p.len() <= s.len(),
            forall|j: int| 0 <= j < i ==> s@[j] == p@[j],
        decreases p.len() - i,
    {
        if s[i] != p[i] {
            return false;
        }
        i += 1;
    }
    assert(s@.take(p.len() as int) == p@);
    true
}

/// `str::strip_prefix`.
pub open spec fn strip_prefix(s: Seq<char>, p: Seq<char>) -> Option<Seq<char>> {
    if starts_with(s, p) {
        Some(s.skip(p.len() as int))
    } else {
        None
    }
}

pub fn chars_strip_prefix(s: &[char], p: &[char]) -> (r: Option<Vec<char>>)
    ensures
        match strip_prefix(s@, p@) {
            Some(t) => r matches Some(v) && v@ == t,
            None => r is None,
        },
{
    if chars_starts_with(s, p) {
        Some(slice_range(s, p.len(), s.len()))
    } else {
        None
    }
}

/// `str::split_once(c)`.
pub open spec fn split_once(s: Seq<char>, c: char) -> Option<(Seq<char>, Seq<char>)> {
    match find_char(s, c) {
        Some(i) => Some((s.take(i), s.skip(i + 1))),
        None => None,
    }
}

pub fn chars_split_once(s: &[char], c: char) -> (r: Option<(Vec<char>, Vec<char>)>)
    ensures
        match split_once(s@, c) {
            Some((a, b)) => r matches Some((x, y)) && x@ == a && y@ == b,
            None => r is None,
        },
{
    assert(s@.skip(0) == s@);
    proof {
        lemma_find_char(s@, c);
    }
    match find_char_in(s, 0, c) {
        Some(i) => Some((slice_range(s, 0, i), slice_range(s, i + 1, s.len()))),
        None => None,
    }
}

} // verus!
