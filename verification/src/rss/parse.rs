//! Feed dates: the RFC 822 and ISO 8601 variants that news feeds publish,
//! read leniently and normalised to a sortable KST timestamp.
use vstd::prelude::*;
use crate::dateutil::{civil_from_days, date_of_day, days_from_civil, spec_days_from_civil, trunc_div};
use crate::strutil::{
    all_digits, chars_eq_ignore_ascii_case, chars_of, char_is_ascii_digit, char_is_white_space,
    digits_value, eq_ignore_ascii_case, find_char, find_char_in, fmt_int, is_ascii_digit,
    is_white_space, lemma_find_char, parse_i64, parse_int, push_int, slice_range,
    string_from_chars, trim, trim_chars, zeros,
};

verus! {

/// (year, month, day, hour, minute, second, offset from UTC in minutes);
/// no offset means the text named none, which is read as KST.
pub type ParsedDateTime = (i64, i64, i64, i64, i64, i64, Option<i64>);

/// The same fields as mathematical integers.
pub type DateFields = (int, int, int, int, int, int, Option<int>);

pub open spec fn fields_of(p: ParsedDateTime) -> DateFields {
    (
        p.0 as int,
        p.1 as int,
        p.2 as int,
        p.3 as int,
        p.4 as int,
        p.5 as int,
        match p.6 {
            Some(o) => Some(o as int),
            None => None,
        },
    )
}

/// The ASCII digits of `s`, in order.
pub open spec fn keep_digits(s: Seq<char>) -> Seq<char>
    decreases s.len(),
{
    if s.len() == 0 {
        Seq::empty()
    } else {
        keep_digits(s.drop_last()) + (if is_ascii_digit(s.last()) {
            seq![s.last()]
        } else {
            Seq::empty()
        })
    }
}

proof fn lemma_keep_digits_all(s: Seq<char>)
    ensures
        all_digits(keep_digits(s)),
    decreases s.len(),
{
    if s.len() > 0 {
        lemma_keep_digits_all(s.drop_last());
        let k = keep_digits(s.drop_last());
        let t = keep_digits(s);
        assert forall|i: int| 0 <= i < t.len() implies is_ascii_digit(#[trigger] t[i]) by {
            if i < k.len() {
                assert(t[i] == k[i]);
            }
        }
    }
}

fn keep_digit_chars(s: &[char]) -> (r: Vec<char>)
    ensures
        r@ == keep_digits(s@),
        all_digits(r@),
{
    let mut r: Vec<char> = Vec::new();
    let mut i: usize = 0;
    while i < s.len()
        invariant
            i <= s.len(),
            r@ == keep_digits(s@.take(i as int)),
        decreases s.len() - i,
    {
        assert(s@.take(i + 1).drop_last() == s@.take(i as int));
        if char_is_ascii_digit(s[i]) {
            r.push(s[i]);
        }
        i += 1;
    }
    assert(s@.take(s.len() as int) == s@);
    proof {
        lemma_keep_digits_all(s@);
    }
    r
}

/// The ASCII digits of `s`, in order.
pub fn keep_digit_chars_pub(s: &[char]) -> (r: Vec<char>)
    ensures
        r@ == keep_digits(s@),
        all_digits(r@),
{
    keep_digit_chars(s)
}

fn digit_at(d: &[char], i: usize) -> (v: i64)
    requires
        i < d.len(),
        is_ascii_digit(d@[i as int]),
    ensures
        v == d@[i as int] as int - '0' as int,
        0 <= v <= 9,
{
    (d[i] as u32 - '0' as u32) as i64
}

/// The value of the two digits `d[lo]`, `d[lo + 1]`.
fn two_digits(d: &[char], lo: usize) -> (v: i64)
    requires
        lo + 2 <= d.len(),
        all_digits(d@),
    ensures
        v == digits_value(d@.subrange(lo as int, lo + 2)),
        0 <= v <= 99,
{
    let ghost x = d@.subrange(lo as int, lo + 2);
    assert(is_ascii_digit(d@[lo as int]) && is_ascii_digit(d@[lo + 1]));
    assert(x.drop_last().drop_last() == Seq::<char>::empty());
    assert(x.drop_last().last() == d@[lo as int]);
    assert(x.last() == d@[lo + 1]);
    assert(digits_value(x) == (d@[lo as int] as int - '0' as int) * 10 + (d@[lo + 1] as int
        - '0' as int)) by {
        reveal_with_fuel(digits_value, 3);
    }
    let a = digit_at(d, lo);
    let b = digit_at(d, lo + 1);
    a * 10 + b
}

/// The value of the four digits `d[lo..lo + 4]`.
fn four_digits(d: &[char], lo: usize) -> (v: i64)
    requires
        lo + 4 <= d.len(),
        all_digits(d@),
    ensures
        v == digits_value(d@.subrange(lo as int, lo + 4)),
        0 <= v <= 9999,
{
    let ghost x = d@.subrange(lo as int, lo + 4);
    assert(is_ascii_digit(d@[lo as int]) && is_ascii_digit(d@[lo + 1]) && is_ascii_digit(
        d@[lo + 2],
    ) && is_ascii_digit(d@[lo + 3]));
    assert(x.drop_last().drop_last().drop_last().drop_last() == Seq::<char>::empty());
    assert(x.drop_last().drop_last().drop_last().last() == d@[lo as int]);
    assert(x.drop_last().drop_last().last() == d@[lo + 1]);
    assert(x.drop_last().last() == d@[lo + 2]);
    assert(x.last() == d@[lo + 3]);
    assert(digits_value(x) == (((d@[lo as int] as int - '0' as int) * 10 + (d@[lo + 1] as int
        - '0' as int)) * 10 + (d@[lo + 2] as int - '0' as int)) * 10 + (d@[lo + 3] as int
        - '0' as int)) by {
        reveal_with_fuel(digits_value, 5);
    }
    let a = digit_at(d, lo);
    let b = digit_at(d, lo + 1);
    let c = digit_at(d, lo + 2);
    let e = digit_at(d, lo + 3);
    ((a * 10 + b) * 10 + c) * 10 + e
}

/// A UTC offset in minutes from `GMT`, `UTC`, `Z` (any case for the first
/// two), or a sign followed by `HH` or `HHMM` digits (other characters such
/// as `:` are skipped). Anything else has no offset.
pub open spec fn spec_offset_minutes(tz: Seq<char>) -> Option<int> {
    let t = trim(tz);
    if eq_ignore_ascii_case(t, seq!['G', 'M', 'T']) || eq_ignore_ascii_case(t, seq!['U', 'T', 'C'])
        || (t.len() == 1 && t[0] == 'Z') {
        Some(0)
    } else if t.len() == 0 || (t[0] != '+' && t[0] != '-') {
        None
    } else {
        let sign: int = if t[0] == '+' { 1 } else { -1 };
        let d = keep_digits(t.drop_first());
        if d.len() == 4 {
            Some(sign * (digits_value(d.take(2)) * 60 + digits_value(d.subrange(2, 4))))
        } else if d.len() == 2 {
            Some(sign * (digits_value(d) * 60))
        } else {
            None
        }
    }
}

pub fn offset_minutes(tz: &str) -> (r: Option<i64>)
    ensures
        match spec_offset_minutes(tz@) {
            Some(v) => r == Some(v as i64),
            None => r is None,
        },
{
    let v = chars_of(tz);
    offset_minutes_chars(&v)
}

pub fn offset_minutes_chars(tz: &[char]) -> (r: Option<i64>)
    ensures
        match spec_offset_minutes(tz@) {
            Some(v) => r == Some(v as i64),
            None => r is None,
        },
        r matches Some(v) ==> -6039 <= v <= 6039,
        spec_offset_minutes(tz@) matches Some(v) ==> -6039 <= v <= 6039,
{
    let t = trim_chars(tz);
    let gmt: Vec<char> = vec!['G', 'M', 'T'];
    let utc: Vec<char> = vec!['U', 'T', 'C'];
    if chars_eq_ignore_ascii_case(&t, &gmt) || chars_eq_ignore_ascii_case(&t, &utc) || (t.len() == 1
        && t[0] == 'Z') {
        return Some(0);
    }
    if t.len() == 0 || (t[0] != '+' && t[0] != '-') {
        return None;
    }
    let sign: i64 = if t[0] == '+' { 1 } else { -1 };
    let rest = slice_range(&t, 1, t.len());
    assert(rest@ == t@.drop_first());
    let d = keep_digit_chars(&rest);
    if d.len() == 4 {
        let h = two_digits(&d, 0);
        let m = two_digits(&d, 2);
        assert(d@.subrange(0, 2) == d@.take(2));
        Some(sign * (h * 60 + m))
    } else if d.len() == 2 {
        let h = two_digits(&d, 0);
        assert(d@.subrange(0, 2) == d@);
        Some(sign * (h * 60))
    } else {
        None
    }
}

/// Index of the first `+` or `-` in `s`.
pub open spec fn find_sign(s: Seq<char>) -> Option<int>
    decreases s.len(),
{
    if s.len() == 0 {
        None
    } else if s[0] == '+' || s[0] == '-' {
        Some(0)
    } else {
        match find_sign(s.drop_first()) {
            Some(i) => Some(i + 1),
            None => None,
        }
    }
}

proof fn lemma_find_sign(s: Seq<char>)
    ensures
        match find_sign(s) {
            Some(i) => 0 <= i < s.len() && (s[i] == '+' || s[i] == '-') && forall|j: int|
                0 <= j < i ==> s[j] != '+' && s[j] != '-',
            None => forall|j: int| 0 <= j < s.len() ==> s[j] != '+' && s[j] != '-',
        },
    decreases s.len(),
{
    if s.len() > 0 {
        lemma_find_sign(s.drop_first());
        if !(s[0] == '+' || s[0] == '-') {
            match find_sign(s.drop_first()) {
                Some(i) => {
                    assert forall|j: int| 0 <= j < i + 1 implies s[j] != '+' && s[j] != '-' by {
                        if j > 0 {
                            assert(s[j] == s.drop_first()[j - 1]);
                        }
                    }
                },
                None => {
                    assert forall|j: int| 0 <= j < s.len() implies s[j] != '+' && s[j] != '-' by {
                        if j > 0 {
                            assert(s[j] == s.drop_first()[j - 1]);
                        }
                    }
                },
            }
        }
    }
}

proof fn lemma_find_sign_at(s: Seq<char>, i: int)
    requires
        0 <= i <= s.len(),
        forall|j: int| 0 <= j < i ==> s[j] != '+' && s[j] != '-',
        i < s.len() ==> (s[i] == '+' || s[i] == '-'),
    ensures
        find_sign(s) == (if i < s.len() { Some(i) } else { None::<int> }),
{
    lemma_find_sign(s);
}

fn find_sign_in(s: &[char], from: usize) -> (r: Option<usize>)
    requires
        from <= s.len(),
    ensures
        match find_sign(s@.skip(from as int)) {
            Some(i) => r == Some((from + i) as usize),
            None => r is None,
        },
{
    let mut i: usize = from;
    while i < s.len() && s[i] != '+' && s[i] != '-'
        invariant
            from <= i <= s.len(),
            forall|j: int| from <= j < i ==> s@[j] != '+' && s@[j] != '-',
        decreases s.len() - i,
    {
        i += 1;
    }
    proof {
        lemma_find_sign_at(s@.skip(from as int), i - from);
    }
    if i < s.len() {
        Some(i)
    } else {
        None
    }
}

/// The date part of a numeric date and its offset: after the first `T`, a
/// `Z` or else the first sign starts the offset.
pub open spec fn numeric_split(s: Seq<char>) -> (Seq<char>, Option<int>) {
    match find_char(s, 'T') {
        Some(t) => {
            let tp = s.skip(t + 1);
            match find_char(tp, 'Z') {
                Some(z) => (s.take(t + 1 + z), Some(0int)),
                None => match find_sign(tp) {
                    Some(o) => (s.take(t + 1 + o), spec_offset_minutes(tp.skip(o))),
                    None => (s, None),
                },
            }
        },
        None => (s, None),
    }
}

/// A date that starts with digits: ISO 8601 (`2026-07-23T22:25:00+09:00`)
/// or space separated (`2026-07-24 09:18:39`). Of the digits before the
/// offset, the first fourteen are year to second, or the first eight the
/// date alone (at midnight).
pub open spec fn spec_parse_numeric_date(s: Seq<char>) -> Option<DateFields> {
    let (main, offset) = numeric_split(s);
    let d = keep_digits(main);
    if d.len() >= 14 {
        Some(
            (
                digits_value(d.subrange(0, 4)),
                digits_value(d.subrange(4, 6)),
                digits_value(d.subrange(6, 8)),
                digits_value(d.subrange(8, 10)),
                digits_value(d.subrange(10, 12)),
                digits_value(d.subrange(12, 14)),
                offset,
            ),
        )
    } else if d.len() >= 8 {
        Some(
            (
                digits_value(d.subrange(0, 4)),
                digits_value(d.subrange(4, 6)),
                digits_value(d.subrange(6, 8)),
                0,
                0,
                0,
                offset,
            ),
        )
    } else {
        None
    }
}

pub fn parse_numeric_date(s: &str) -> (r: Option<ParsedDateTime>)
    ensures
        match spec_parse_numeric_date(s@) {
            Some(f) => r matches Some(p) && fields_of(p) == f,
            None => r is None,
        },
{
    let v = chars_of(s);
    parse_numeric_chars(&v)
}

pub fn parse_numeric_chars(s: &[char]) -> (r: Option<ParsedDateTime>)
    ensures
        match spec_parse_numeric_date(s@) {
            Some(f) => r matches Some(p) && fields_of(p) == f,
            None => r is None,
        },
        r matches Some(p) ==> 0 <= p.0 <= 9999 && 0 <= p.1 <= 99 && 0 <= p.2 <= 99 && 0 <= p.3
            <= 99 && 0 <= p.4 <= 99 && 0 <= p.5 <= 99 && (p.6 matches Some(o) ==> -6039 <= o
            <= 6039),
{
    assert(s@.skip(0) == s@);
    proof {
        lemma_find_char(s@, 'T');
    }
    let (end, offset): (usize, Option<i64>) = match find_char_in(s, 0, 'T') {
        Some(t) => {
            let ghost tp = s@.skip(t + 1);
            proof {
                lemma_find_char(tp, 'Z');
                lemma_find_sign(tp);
            }
            match find_char_in(s, t + 1, 'Z') {
                Some(z) => {
                    assert(s@.take(z as int) == s@.take(t + 1 + (z - t - 1)));
                    (z, Some(0i64))
                },
                None => match find_sign_in(s, t + 1) {
                    Some(o) => {
                        let tail = slice_range(s, o, s.len());
                        assert(tail@ == tp.skip(o - t - 1));
                        (o, offset_minutes_chars(&tail))
                    },
                    None => (s.len(), None),
                },
            }
        },
        None => (s.len(), None),
    };
    let main = slice_range(s, 0, end);
    assert(s@.subrange(0, s.len() as int) == s@);
    assert(main@ == numeric_split(s@).0);
    let d = keep_digit_chars(&main);
    if d.len() >= 14 {
        Some(
            (
                four_digits(&d, 0),
                two_digits(&d, 4),
                two_digits(&d, 6),
                two_digits(&d, 8),
                two_digits(&d, 10),
                two_digits(&d, 12),
                offset,
            ),
        )
    } else if d.len() >= 8 {
        Some((four_digits(&d, 0), two_digits(&d, 4), two_digits(&d, 6), 0, 0, 0, offset))
    } else {
        None
    }
}

/// `str::split_whitespace`: the maximal runs of non-white-space characters.
/// `cur` is the run read so far.
pub open spec fn words_from(s: Seq<char>, cur: Seq<char>) -> Seq<Seq<char>>
    decreases s.len(),
{
    if s.len() == 0 {
        if cur.len() > 0 {
            seq![cur]
        } else {
            Seq::empty()
        }
    } else if is_white_space(s[0]) {
        (if cur.len() > 0 {
            seq![cur]
        } else {
            Seq::empty()
        }) + words_from(s.drop_first(), Seq::empty())
    } else {
        words_from(s.drop_first(), cur.push(s[0]))
    }
}

pub open spec fn split_words(s: Seq<char>) -> Seq<Seq<char>> {
    words_from(s, Seq::empty())
}

pub fn split_word_chars(s: &[char]) -> (r: Vec<Vec<char>>)
    ensures
        r.len() == split_words(s@).len(),
        forall|i: int| 0 <= i < r.len() ==> #[trigger] r[i]@ == split_words(s@)[i],
{
    let mut r: Vec<Vec<char>> = Vec::new();
    let ghost mut done: Seq<Seq<char>> = Seq::empty();
    let mut cur: Vec<char> = Vec::new();
    let mut i: usize = 0;
    assert(s@.skip(0) == s@);
    while i < s.len()
        invariant
            i <= s.len(),
            r.len() == done.len(),
            forall|k: int| 0 <= k < r.len() ==> #[trigger] r[k]@ == done[k],
            split_words(s@) == done + words_from(s@.skip(i as int), cur@),
        decreases s.len() - i,
    {
        let ghost rest = s@.skip(i as int);
        assert(rest[0] == s@[i as int]);
        assert(rest.drop_first() == s@.skip(i + 1));
        if char_is_white_space(s[i]) {
            if cur.len() > 0 {
                let ghost w = cur@;
                r.push(cur);
                proof {
                    let d0 = done;
                    done = done.push(w);
                    assert(d0 + (seq![w] + words_from(rest.drop_first(), Seq::empty())) == done
                        + words_from(rest.drop_first(), Seq::empty()));
                }
                cur = Vec::new();
            } else {
                assert(Seq::<Seq<char>>::empty() + words_from(rest.drop_first(), Seq::empty())
                    == words_from(rest.drop_first(), Seq::empty()));
                cur = Vec::new();
            }
        } else {
            cur.push(s[i]);
        }
        i += 1;
    }
    assert(s@.skip(i as int) == Seq::<char>::empty());
    if cur.len() > 0 {
        let ghost w = cur@;
        r.push(cur);
        proof {
            done = done.push(w);
        }
    } else {
        assert(done + Seq::<Seq<char>>::empty() == done);
    }
    r
}

/// English month abbreviations, January first.
pub open spec fn month_name(i: int) -> Seq<char> {
    if i == 0 {
        seq!['J', 'a', 'n']
    } else if i == 1 {
        seq!['F', 'e', 'b']
    } else if i == 2 {
        seq!['M', 'a', 'r']
    } else if i == 3 {
        seq!['A', 'p', 'r']
    } else if i == 4 {
        seq!['M', 'a', 'y']
    } else if i == 5 {
        seq!['J', 'u', 'n']
    } else if i == 6 {
        seq!['J', 'u', 'l']
    } else if i == 7 {
        seq!['A', 'u', 'g']
    } else if i == 8 {
        seq!['S', 'e', 'p']
    } else if i == 9 {
        seq!['O', 'c', 't']
    } else if i == 10 {
        seq!['N', 'o', 'v']
    } else {
        seq!['D', 'e', 'c']
    }
}

/// Index (from `i` on) of the first month whose abbreviation is `mon` in any case.
pub open spec fn month_index_from(mon: Seq<char>, i: int) -> Option<int>
    decreases 12 - i,
{
    if i < 0 || i >= 12 {
        None
    } else if eq_ignore_ascii_case(month_name(i), mon) {
        Some(i)
    } else {
        month_index_from(mon, i + 1)
    }
}

fn month_names() -> (v: Vec<Vec<char>>)
    ensures
        v.len() == 12,
        forall|i: int| 0 <= i < 12 ==> #[trigger] v[i]@ == month_name(i),
{
    let v = vec![
        vec!['J', 'a', 'n'],
        vec!['F', 'e', 'b'],
        vec!['M', 'a', 'r'],
        vec!['A', 'p', 'r'],
        vec!['M', 'a', 'y'],
        vec!['J', 'u', 'n'],
        vec!['J', 'u', 'l'],
        vec!['A', 'u', 'g'],
        vec!['S', 'e', 'p'],
        vec!['O', 'c', 't'],
        vec!['N', 'o', 'v'],
        vec!['D', 'e', 'c'],
    ];
    assert(v[0]@ == month_name(0));
    assert(v[1]@ == month_name(1));
    assert(v[2]@ == month_name(2));
    assert(v[3]@ == month_name(3));
    assert(v[4]@ == month_name(4));
    assert(v[5]@ == month_name(5));
    assert(v[6]@ == month_name(6));
    assert(v[7]@ == month_name(7));
    assert(v[8]@ == month_name(8));
    assert(v[9]@ == month_name(9));
    assert(v[10]@ == month_name(10));
    assert(v[11]@ == month_name(11));
    v
}

fn month_index(mon: &[char]) -> (r: Option<i64>)
    ensures
        match month_index_from(mon@, 0) {
            Some(i) => r == Some(i as i64),
            None => r is None,
        },
        r matches Some(i) ==> 0 <= i < 12,
        month_index_from(mon@, 0) matches Some(i) ==> 0 <= i < 12,
{
    let names = month_names();
    let mut i: usize = 0;
    while i < 12
        invariant
            i <= 12,
            names.len() == 12,
            forall|k: int| 0 <= k < 12 ==> #[trigger] names[k]@ == month_name(k),
            month_index_from(mon@, 0) == month_index_from(mon@, i as int),
        decreases 12 - i,
    {
        assert(names[i as int]@ == month_name(i as int));
        if chars_eq_ignore_ascii_case(&names[i], mon) {
            return Some(i as i64);
        }
        i += 1;
    }
    None
}

/// RFC 822: `[Day,] DD Mon YYYY [HH:MM:SS [offset]]`. The time's digits,
/// padded with zeros on the right to six, give hour, minute and second.
pub open spec fn spec_parse_rfc822_date(s: Seq<char>) -> Option<DateFields> {
    let parts = split_words(s);
    let base: int = if parts.len() > 0 && parts[0].len() > 0 && parts[0].last() == ',' {
        1
    } else {
        0
    };
    if parts.len() < base + 3 {
        None
    } else {
        match (
            parse_int(parts[base], true, i64::MIN as int, i64::MAX as int),
            month_index_from(parts[base + 1], 0),
            parse_int(parts[base + 2], true, i64::MIN as int, i64::MAX as int),
        ) {
            (Some(day), Some(mi), Some(year)) => {
                let td = if parts.len() > base + 3 {
                    keep_digits(parts[base + 3])
                } else {
                    Seq::empty()
                };
                let time = td + zeros(6 - td.len());
                let offset = if parts.len() > base + 4 {
                    spec_offset_minutes(parts[base + 4])
                } else {
                    None
                };
                Some(
                    (
                        year,
                        mi + 1,
                        day,
                        digits_value(time.subrange(0, 2)),
                        digits_value(time.subrange(2, 4)),
                        digits_value(time.subrange(4, 6)),
                        offset,
                    ),
                )
            },
            _ => None,
        }
    }
}

pub fn parse_rfc822_date(s: &str) -> (r: Option<ParsedDateTime>)
    ensures
        match spec_parse_rfc822_date(s@) {
            Some(f) => r matches Some(p) && fields_of(p) == f,
            None => r is None,
        },
{
    let v = chars_of(s);
    parse_rfc822_chars(&v)
}

pub fn parse_rfc822_chars(s: &[char]) -> (r: Option<ParsedDateTime>)
    ensures
        match spec_parse_rfc822_date(s@) {
            Some(f) => r matches Some(p) && fields_of(p) == f,
            None => r is None,
        },
        r matches Some(p) ==> 1 <= p.1 <= 12 && 0 <= p.3 <= 99 && 0 <= p.4 <= 99 && 0 <= p.5
            <= 99 && (p.6 matches Some(o) ==> -6039 <= o <= 6039),
{
    let parts = split_word_chars(s);
    let ghost ps = split_words(s@);
    let base: usize = if parts.len() > 0 && parts[0].len() > 0 && parts[0][parts[0].len() - 1]
        == ',' {
        assert(parts[0]@ == ps[0]);
        1
    } else {
        0
    };
    if parts.len() < base + 3 {
        return None;
    }
    assert(parts[base as int]@ == ps[base as int]);
    assert(parts[base + 1]@ == ps[base + 1]);
    assert(parts[base + 2]@ == ps[base + 2]);
    let day = parse_i64(&parts[base]);
    let mi = month_index(&parts[base + 1]);
    let year = parse_i64(&parts[base + 2]);
    match (day, mi, year) {
        (Some(day), Some(mi), Some(year)) => {
            let td: Vec<char> = if parts.len() > base + 3 {
                assert(parts[base + 3]@ == ps[base + 3]);
                keep_digit_chars(&parts[base + 3])
            } else {
                Vec::new()
            };
            let mut time = td;
            let ghost td_view = time@;
            proof {
                lemma_keep_digits_all(if parts.len() > base + 3 { ps[base + 3] } else { Seq::empty() });
            }
            while time.len() < 6
                invariant
                    td_view.len() <= 6 ==> time@ == td_view + zeros(time.len() - td_view.len()),
                    td_view.len() > 6 ==> time@ == td_view,
                    td_view.len() <= time.len(),
                    td_view.len() <= 6 ==> time.len() <= 6,
                    all_digits(td_view),
                    all_digits(time@),
                decreases 6 - time.len(),
            {
                let ghost before = time@;
                time.push('0');
                assert(zeros(time.len() - td_view.len()) == zeros(before.len() - td_view.len()).push('0'));
            }
            proof {
                if td_view.len() > 6 {
                    assert(zeros(6 - td_view.len()) == Seq::<char>::empty());
                    assert(td_view + Seq::<char>::empty() == td_view);
                }
            }
            assert(time@ == td_view + zeros(6 - td_view.len()));
            let offset = if parts.len() > base + 4 {
                assert(parts[base + 4]@ == ps[base + 4]);
                offset_minutes_chars(&parts[base + 4])
            } else {
                None
            };
            let hh = two_digits(&time, 0);
            let mm = two_digits(&time, 2);
            let ss = two_digits(&time, 4);
            Some((year, mi + 1, day, hh, mm, ss, offset))
        },
        _ => None,
    }
}

/// The wall clock `shift` minutes after `(y, m, d, hh, mm)`, seconds kept.
pub open spec fn spec_shift_to_kst(
    y: int,
    m: int,
    d: int,
    hh: int,
    mm: int,
    ss: int,
    shift: int,
) -> (int, int, int, int, int, int) {
    let total = spec_days_from_civil(y, m, d) * 1440 + hh * 60 + mm + shift;
    let day = date_of_day(total / 1440);
    let rem = total % 1440;
    (day.0, day.1, day.2, rem / 60, rem % 60, ss)
}

/// Bound on the inputs of the shift under which its minute count fits in `i64`.
pub open spec fn shift_inputs_fit(y: int, m: int, d: int, hh: int, mm: int, shift: int) -> bool {
    &&& -0x100_0000_0000 <= y <= 0x100_0000_0000
    &&& -0x100_0000_0000 <= m <= 0x100_0000_0000
    &&& -0x100_0000_0000 <= d <= 0x100_0000_0000
    &&& -0x100_0000_0000 <= hh <= 0x100_0000_0000
    &&& -0x100_0000_0000 <= mm <= 0x100_0000_0000
    &&& -0x100_0000_0000 <= shift <= 0x100_0000_0000
}

proof fn lemma_days_bound(y: int, m: int, d: int)
    requires
        -0x100_0000_0000 <= y <= 0x100_0000_0000,
        -0x100_0000_0000 <= m <= 0x100_0000_0000,
        -0x100_0000_0000 <= d <= 0x100_0000_0000,
    ensures
        -0x2_0000_0000_0000 <= spec_days_from_civil(y, m, d) <= 0x2_0000_0000_0000,
{
    let mp = if m > 2 { m - 3 } else { m + 9 };
    let q = 153 * mp + 2;
    assert(-0x100_0000_0000 * 154 <= trunc_div(q, 5) <= 0x100_0000_0000 * 154);
}

pub fn shift_to_kst(y: i64, m: i64, d: i64, hh: i64, mm: i64, ss: i64, shift_min: i64) -> (r: (
    i64,
    i64,
    i64,
    i64,
    i64,
    i64,
))
    requires
        shift_inputs_fit(y as int, m as int, d as int, hh as int, mm as int, shift_min as int),
    ensures
        (r.0 as int, r.1 as int, r.2 as int, r.3 as int, r.4 as int, r.5 as int)
            == spec_shift_to_kst(
            y as int,
            m as int,
            d as int,
            hh as int,
            mm as int,
            ss as int,
            shift_min as int,
        ),
        0 <= r.3 < 24,
        0 <= r.4 < 60,
{
    proof {
        lemma_days_bound(y as int, m as int, d as int);
    }
    let days = days_from_civil(y, m, d);
    let total = days * 1440 + hh * 60 + mm + shift_min;
    let new_days = total.checked_div_euclid(1440).unwrap();
    let rem = total.checked_rem_euclid(1440).unwrap();
    let (ny, nm, nd) = civil_from_days(new_days);
    (ny, nm, nd, rem / 60, rem % 60, ss)
}

/// `YYYYMMDDHHMMSS`, each field zero padded (`{:04}`, `{:02}`).
pub open spec fn stamp_text(y: int, m: int, d: int, hh: int, mm: int, ss: int) -> Seq<char> {
    fmt_int(y, 4) + fmt_int(m, 2) + fmt_int(d, 2) + fmt_int(hh, 2) + fmt_int(mm, 2) + fmt_int(ss, 2)
}

/// A feed date as a sortable KST `YYYYMMDDHHMMSS`, or empty when it cannot be
/// read. A text that starts with a digit is read as a numeric date, any other
/// as RFC 822. A missing or unreadable offset means KST; any other offset
/// moves the time to KST. A date too far from the present for the shift's
/// minute count to fit in 64 bits is unreadable.
pub open spec fn spec_normalized_date(raw: Seq<char>) -> Seq<char> {
    let s = trim(raw);
    if s.len() == 0 {
        Seq::empty()
    } else {
        let parsed = if is_ascii_digit(s[0]) {
            spec_parse_numeric_date(s)
        } else {
            spec_parse_rfc822_date(s)
        };
        match parsed {
            None => Seq::empty(),
            Some(f) => {
                let shift = 540 - match f.6 {
                    Some(o) => o,
                    None => 540,
                };
                if shift == 0 {
                    stamp_text(f.0, f.1, f.2, f.3, f.4, f.5)
                } else if !shift_inputs_fit(f.0, f.1, f.2, f.3, f.4, shift) {
                    Seq::empty()
                } else {
                    let k = spec_shift_to_kst(f.0, f.1, f.2, f.3, f.4, f.5, shift);
                    stamp_text(k.0, k.1, k.2, k.3, k.4, k.5)
                }
            },
        }
    }
}

fn stamp_chars(y: i64, m: i64, d: i64, hh: i64, mm: i64, ss: i64) -> (r: Vec<char>)
    ensures
        r@ == stamp_text(y as int, m as int, d as int, hh as int, mm as int, ss as int),
{
    let mut out: Vec<char> = Vec::new();
    push_int(&mut out, y, 4);
    push_int(&mut out, m, 2);
    push_int(&mut out, d, 2);
    push_int(&mut out, hh, 2);
    push_int(&mut out, mm, 2);
    push_int(&mut out, ss, 2);
    out
}

pub fn normalized_date(raw: &str) -> (r: String)
    ensures
        r@ == spec_normalized_date(raw@),
{
    let v = chars_of(raw);
    let r = normalized_date_chars(&v);
    string_from_chars(&r)
}

pub fn normalized_date_chars(raw: &[char]) -> (r: Vec<char>)
    ensures
        r@ == spec_normalized_date(raw@),
{
    let s = trim_chars(raw);
    if s.len() == 0 {
        return Vec::new();
    }
    let parsed = if char_is_ascii_digit(s[0]) {
        parse_numeric_chars(&s)
    } else {
        parse_rfc822_chars(&s)
    };
    match parsed {
        None => Vec::new(),
        Some((y, m, d, hh, mm, ss, offset)) => {
            let o: i64 = match offset {
                Some(o) => o,
                None => 540,
            };
            let shift: i64 = 540 - o;
            if shift == 0 {
                stamp_chars(y, m, d, hh, mm, ss)
            } else if y < -0x100_0000_0000 || y > 0x100_0000_0000 || d < -0x100_0000_0000 || d
                > 0x100_0000_0000 {
                Vec::new()
            } else {
                let (ny, nm, nd, nh, nmin, ns) = shift_to_kst(y, m, d, hh, mm, ss, shift);
                stamp_chars(ny, nm, nd, nh, nmin, ns)
            }
        },
    }
}

} // verus!
