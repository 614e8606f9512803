//! Start-up decisions: the command line, the language, the team alias, the
//! date asked for, and the small choices of the run loop.
use vstd::prelude::*;
use crate::dateutil::{
    civil_from_days, date_of_day, days_from_civil, format_civil, is_valid_date, iso_date_text,
    kst_day_number, law_day_count_identifies_date,
};
use crate::error::concat_text;
use crate::rss::parse::keep_digits;
use crate::strutil::{
    all_digits, ascii_lower_seq, ascii_lowercase, chars_eq, chars_of, chars_starts_with,
    digits_value, find_char, is_ascii_digit, lemma_find_char, parse_i64,
    push_int, slice_range, starts_with, string_from_chars, trim, trim_chars,
};

verus! {

/// The command line.
pub struct Cli {
    /// Favorite team alias, to enter its live game directly.
    pub team: Option<String>,
    /// Date: YYYY-MM-DD, YYYYMMDD, today, yesterday, tomorrow, +N, -N.
    pub date: Option<String>,
    /// UI language: ko, en or ja.
    pub lang: Option<String>,
    /// Display time zone: auto, kst or an offset such as +09:00.
    pub tz: Option<String>,
    /// Print third-party license notices and exit.
    pub license: bool,
}

/// The language of the screens.
#[derive(Debug, Clone, Copy, PartialEq, Eq, Structural)]
pub enum Lang {
    Ko,
    En,
    Ja,
}

/// The language a setting names, any case: `ko`/`kr`/`korean`,
/// `en`/`english`, `ja`/`japanese`.
pub open spec fn spec_lang_named(s: Seq<char>) -> Option<Lang> {
    let l = ascii_lower_seq(s);
    if l == "ko"@ || l == "kr"@ || l == "korean"@ {
        Some(Lang::Ko)
    } else if l == "en"@ || l == "english"@ {
        Some(Lang::En)
    } else if l == "ja"@ || l == "japanese"@ {
        Some(Lang::Ja)
    } else {
        None
    }
}

fn text_is(a: &[char], b: &str) -> (r: bool)
    ensures
        r == (a@ == b@),
{
    let bv = chars_of(b);
    chars_eq(a, &bv)
}

fn lang_named(s: &str) -> (r: Option<Lang>)
    ensures
        r == spec_lang_named(s@),
{
    let v = chars_of(s);
    let l = ascii_lowercase(&v);
    if text_is(&l, "ko") || text_is(&l, "kr") || text_is(&l, "korean") {
        Some(Lang::Ko)
    } else if text_is(&l, "en") || text_is(&l, "english") {
        Some(Lang::En)
    } else if text_is(&l, "ja") || text_is(&l, "japanese") {
        Some(Lang::Ja)
    } else {
        None
    }
}

/// The language from a locale such as `ko_KR.UTF-8`: Korean or Japanese by
/// its prefix (any case), English otherwise.
pub open spec fn spec_lang_of_locale(env: Option<Seq<char>>) -> Lang {
    match env {
        Some(e) => if starts_with(ascii_lower_seq(e), "ko"@) {
            Lang::Ko
        } else if starts_with(ascii_lower_seq(e), "ja"@) {
            Lang::Ja
        } else {
            Lang::En
        },
        None => Lang::En,
    }
}

pub open spec fn opt_view(o: Option<&str>) -> Option<Seq<char>> {
    match o {
        Some(s) => Some(s@),
        None => None,
    }
}

/// The language: the command line's (an unknown one is an error), else the
/// configuration's when it names one (an unknown one is ignored), else the
/// locale's, else English.
pub open spec fn spec_detect_lang(cli: Option<Seq<char>>, config: Option<Seq<char>>, env: Option<Seq<char>>) -> Result<Lang, Seq<char>> {
    match cli {
        Some(s) => match spec_lang_named(s) {
            Some(l) => Ok(l),
            None => Err("unsupported --lang: "@ + ascii_lower_seq(s) + " (use ko, en, or ja)"@),
        },
        None => match config {
            Some(c) => match spec_lang_named(c) {
                Some(l) => Ok(l),
                None => Ok(spec_lang_of_locale(env)),
            },
            None => Ok(spec_lang_of_locale(env)),
        },
    }
}

pub fn detect_lang(cli: Option<&str>, config: Option<&str>, env_lang: Option<&str>) -> (r: Result<Lang, String>)
    ensures
        match spec_detect_lang(opt_view(cli), opt_view(config), opt_view(env_lang)) {
            Ok(l) => r == Ok::<Lang, String>(l),
            Err(m) => r matches Err(e) && e@ == m,
        },
{
    if let Some(s) = cli {
        return match lang_named(s) {
            Some(l) => Ok(l),
            None => {
                let v = chars_of(s);
                let low = string_from_chars(&ascii_lowercase(&v));
                let head = concat_text("unsupported --lang: ", low.as_str());
                Err(concat_text(head.as_str(), " (use ko, en, or ja)"))
            },
        };
    }
    if let Some(c) = config {
        if let Some(l) = lang_named(c) {
            return Ok(l);
        }
    }
    match env_lang {
        Some(e) => {
            let v = chars_of(e);
            let low = ascii_lowercase(&v);
            let ko = chars_of("ko");
            let ja = chars_of("ja");
            if chars_starts_with(&low, &ko) {
                Ok(Lang::Ko)
            } else if chars_starts_with(&low, &ja) {
                Ok(Lang::Ja)
            } else {
                Ok(Lang::En)
            }
        },
        None => Ok(Lang::En),
    }
}

/// The code a language is stored under in the configuration.
pub fn lang_code(l: Lang) -> (r: &'static str)
    ensures
        r@ == match l {
            Lang::Ko => "ko"@,
            Lang::En => "en"@,
            Lang::Ja => "ja"@,
        },
{
    match l {
        Lang::Ko => "ko",
        Lang::En => "en",
        Lang::Ja => "ja",
    }
}

pub open spec fn opt_string_view(o: Option<String>) -> Option<Seq<char>> {
    match o {
        Some(s) => Some(s@),
        None => None,
    }
}

/// The language hint of the POSIX locale chain: `LC_ALL`, then
/// `LC_MESSAGES`, then `LANG`; an empty value counts as unset.
pub open spec fn spec_locale_from(lc_all: Option<Seq<char>>, lc_messages: Option<Seq<char>>, lang: Option<Seq<char>>) -> Option<Seq<char>> {
    if lc_all matches Some(v) && v.len() > 0 {
        lc_all
    } else if lc_messages matches Some(v) && v.len() > 0 {
        lc_messages
    } else if lang matches Some(v) && v.len() > 0 {
        lang
    } else {
        None
    }
}

fn nonempty(s: &String) -> (b: bool)
    ensures
        b == (s@.len() > 0),
{
    chars_of(s.as_str()).len() > 0
}

pub fn locale_from(lc_all: Option<String>, lc_messages: Option<String>, lang: Option<String>) -> (r: Option<String>)
    ensures
        opt_string_view(r) == spec_locale_from(
            opt_string_view(lc_all),
            opt_string_view(lc_messages),
            opt_string_view(lang),
        ),
{
    if let Some(v) = &lc_all {
        if nonempty(v) {
            return lc_all;
        }
    }
    if let Some(v) = &lc_messages {
        if nonempty(v) {
            return lc_messages;
        }
    }
    if let Some(v) = &lang {
        if nonempty(v) {
            return lang;
        }
    }
    None
}

/// `str::to_lowercase` (Unicode lowercase mapping) of `s`.
pub uninterp spec fn unicode_lowercase(s: Seq<char>) -> Seq<char>;

/// Whether every character of `s` is ASCII.
pub open spec fn all_ascii(s: Seq<char>) -> bool {
    forall|i: int| 0 <= i < s.len() ==> (s[i] as u32) < 128
}

/// `str::to_lowercase`; the contract claims that the result is the named
/// Unicode lowercase of the argument, and that on ASCII text it is the
/// ASCII lowercase (the Unicode lowercase of `A`..`Z` is `a`..`z`, and
/// other ASCII characters have no lowercase mapping).
#[verifier::external_body]
fn to_lowercase(s: &str) -> (r: String)
    ensures
        r@ == unicode_lowercase(s@),
        all_ascii(s@) ==> r@ == ascii_lower_seq(s@),
{
    s.to_lowercase()
}

/// The KBO code of a lowercase team alias.
pub open spec fn spec_code_of_alias(a: Seq<char>) -> Option<Seq<char>> {
    if a == "lg"@ {
        Some("LG"@)
    } else if a == "kt"@ {
        Some("KT"@)
    } else if a == "ssg"@ || a == "sk"@ {
        Some("SK"@)
    } else if a == "nc"@ {
        Some("NC"@)
    } else if a == "kia"@ || a == "ht"@ {
        Some("HT"@)
    } else if a == "lotte"@ || a == "lt"@ {
        Some("LT"@)
    } else if a == "samsung"@ || a == "ss"@ {
        Some("SS"@)
    } else if a == "hanwha"@ || a == "hh"@ {
        Some("HH"@)
    } else if a == "kiwoom"@ || a == "wo"@ {
        Some("WO"@)
    } else if a == "doosan"@ || a == "ob"@ {
        Some("OB"@)
    } else {
        None
    }
}

pub open spec fn static_view(o: Option<&'static str>) -> Option<Seq<char>> {
    match o {
        Some(s) => Some(s@),
        None => None,
    }
}

/// The code of a lowercase alias.
pub fn code_of_alias(a: &[char]) -> (r: Option<&'static str>)
    ensures
        static_view(r) == spec_code_of_alias(a@),
{
    if text_is(a, "lg") {
        Some("LG")
    } else if text_is(a, "kt") {
        Some("KT")
    } else if text_is(a, "ssg") || text_is(a, "sk") {
        Some("SK")
    } else if text_is(a, "nc") {
        Some("NC")
    } else if text_is(a, "kia") || text_is(a, "ht") {
        Some("HT")
    } else if text_is(a, "lotte") || text_is(a, "lt") {
        Some("LT")
    } else if text_is(a, "samsung") || text_is(a, "ss") {
        Some("SS")
    } else if text_is(a, "hanwha") || text_is(a, "hh") {
        Some("HH")
    } else if text_is(a, "kiwoom") || text_is(a, "wo") {
        Some("WO")
    } else if text_is(a, "doosan") || text_is(a, "ob") {
        Some("OB")
    } else {
        None
    }
}

/// Team alias to KBO code, in any case.
pub fn team_code(alias: &str) -> (r: Option<&'static str>)
    ensures
        static_view(r) == spec_code_of_alias(unicode_lowercase(alias@)),
        all_ascii(alias@) ==> static_view(r) == spec_code_of_alias(ascii_lower_seq(alias@)),
{
    let low = to_lowercase(alias);
    let v = chars_of(low.as_str());
    code_of_alias(&v)
}

/// The KST date of the instant `utc_secs` seconds after the epoch (before
/// it when negative).
pub fn kst_date_from_utc_secs(utc_secs: i64) -> (r: String)
    requires
        utc_secs <= i64::MAX - 32400,
    ensures
        r@ == iso_date_text(
            date_of_day((utc_secs + 32400) / 86400).0,
            date_of_day((utc_secs + 32400) / 86400).1,
            date_of_day((utc_secs + 32400) / 86400).2,
        ),
{
    format_civil(kst_day_number(utc_secs))
}

/// After midnight the shown date follows the new day, but only when it was
/// the previous day's date (a date the user picked stays).
pub fn rolled_over_date(shown: &str, prev_today: &str, today: &str) -> (r: Option<String>)
    ensures
        match r {
            Some(s) => s@ == today@ && today@ != prev_today@ && shown@ == prev_today@,
            None => !(today@ != prev_today@ && shown@ == prev_today@),
        },
{
    let t = chars_of(today);
    let p = chars_of(prev_today);
    let s = chars_of(shown);
    if !chars_eq(&t, &p) && chars_eq(&s, &p) {
        Some(string_from_chars(&t))
    } else {
        None
    }
}

/// Whether this tick must draw: a state change, a spinner in flight, a new
/// second on the clock, or a resize.
pub fn should_redraw(pending: bool, fetching: bool, second_changed: bool, size_changed: bool) -> (r: bool)
    ensures
        r == (pending || fetching || second_changed || size_changed),
{
    pending || fetching || second_changed || size_changed
}

/// Whether the shutdown watchdog must end the process: a shutdown signal
/// seen at `signaled_at` and `grace` passed since (times in milliseconds).
pub fn should_force_exit(signaled_at: Option<u64>, now: u64, grace: u64) -> (r: bool)
    ensures
        r == match signaled_at {
            Some(t) => (if now >= t { now - t } else { 0 }) >= grace,
            None => false,
        },
{
    match signaled_at {
        Some(t) => {
            let elapsed = if now >= t { now - t } else { 0 };
            elapsed >= grace
        },
        None => false,
    }
}

/// The text before the first `-` (the whole text when there is none).
pub open spec fn before_dash(s: Seq<char>) -> Seq<char> {
    match find_char(s, '-') {
        Some(i) => s.take(i),
        None => s,
    }
}

/// The year part of a date text is four ASCII digits.
pub open spec fn spec_is_four_digit_year(s: Seq<char>) -> bool {
    before_dash(s).len() == 4 && all_digits(before_dash(s))
}

pub fn is_four_digit_year(s: &str) -> (r: bool)
    ensures
        r == spec_is_four_digit_year(s@),
{
    let v = chars_of(s);
    four_digit_year_chars(&v)
}

fn four_digit_year_chars(v: &[char]) -> (r: bool)
    ensures
        r == spec_is_four_digit_year(v@),
{
    assert(v@.skip(0) == v@);
    proof {
        lemma_find_char(v@, '-');
    }
    let end = match crate::strutil::find_char_in(v, 0, '-') {
        Some(i) => i,
        None => v.len(),
    };
    assert(v@.take(v.len() as int) == v@);
    if end != 4 {
        return false;
    }
    let mut i: usize = 0;
    while i < 4
        invariant
            i <= 4 <= v.len(),
            end == 4,
            before_dash(v@) == v@.take(4),
            forall|j: int| 0 <= j < i ==> is_ascii_digit(v@[j]),
        decreases 4 - i,
    {
        if !crate::strutil::char_is_ascii_digit(v[i]) {
            assert(!is_ascii_digit(before_dash(v@)[i as int]));
            return false;
        }
        i += 1;
    }
    true
}

/// `run`'s result combined with the terminal restore's: the restore's when
/// the run succeeded, else the run's error, wrapped with the restore's when
/// both failed (as the error chain `context: cause` reads).
pub open spec fn spec_combine(res: Result<(), Seq<char>>, restore: Result<(), Seq<char>>) -> Result<(), Seq<char>> {
    match (res, restore) {
        (Ok(()), r) => r,
        (Err(e), Ok(())) => Err(e),
        (Err(e), Err(re)) => Err("also failed to restore terminal: "@ + re + ": "@ + e),
    }
}

pub open spec fn res_view(r: Result<(), String>) -> Result<(), Seq<char>> {
    match r {
        Ok(()) => Ok(()),
        Err(e) => Err(e@),
    }
}

pub fn combine_run_and_restore(res: Result<(), String>, restore_res: Result<(), String>) -> (r: Result<(), String>)
    ensures
        res_view(r) == spec_combine(res_view(res), res_view(restore_res)),
{
    match (res, restore_res) {
        (Ok(()), r) => r,
        (Err(e), Ok(())) => Err(e),
        (Err(e), Err(re)) => {
            let a = concat_text("also failed to restore terminal: ", re.as_str());
            let b = concat_text(a.as_str(), ": ");
            Err(concat_text(b.as_str(), e.as_str()))
        },
    }
}

/// The `YYYY-MM-DD` text of day number `n`.
pub open spec fn day_text(n: int) -> Seq<char> {
    iso_date_text(date_of_day(n).0, date_of_day(n).1, date_of_day(n).2)
}

/// The date that `--date` names, as `YYYY-MM-DD`, for today's day number
/// `today`: `today`, `yesterday`, `tomorrow` (any case), `+N`/`-N` days from
/// today (an offset that overflows or leaves four-digit years is refused),
/// `YYYY-MM-DD` or `YYYYMMDD` of a real calendar date; anything else is an
/// error naming the input.
pub open spec fn spec_resolve_date(input: Seq<char>, today: int) -> Result<Seq<char>, Seq<char>> {
    let s = trim(input);
    let l = ascii_lower_seq(s);
    if l == "today"@ {
        Ok(day_text(today))
    } else if l == "yesterday"@ {
        Ok(day_text(today - 1))
    } else if l == "tomorrow"@ {
        Ok(day_text(today + 1))
    } else if s.len() > 1 && (s[0] == '+' || s[0] == '-') && all_digits(s.drop_first()) {
        let n = digits_value(s.drop_first());
        let days = today + (if s[0] == '-' { -n } else { n });
        if n > i64::MAX || days < i64::MIN || days > i64::MAX - 719468 || !spec_is_four_digit_year(day_text(days)) {
            Err("day offset too large: "@ + s)
        } else {
            Ok(day_text(days))
        }
    } else {
        let dashed = s.len() == 10 && s[4] == '-' && s[7] == '-';
        let compact = s.len() == 8;
        let d = keep_digits(s);
        if d.len() == 8 && (dashed || compact) {
            let y = digits_value(d.subrange(0, 4));
            let m = digits_value(d.subrange(4, 6));
            let dd = digits_value(d.subrange(6, 8));
            if is_valid_date(y, m, dd) {
                Ok(iso_date_text(y, m, dd))
            } else {
                Err("not a real calendar date: "@ + s)
            }
        } else {
            Err("unsupported date: "@ + s + " (use YYYY-MM-DD, YYYYMMDD, today, yesterday, tomorrow, +N, -N)"@)
        }
    }
}

pub open spec fn text_result_view(r: Result<String, String>) -> Result<Seq<char>, Seq<char>> {
    match r {
        Ok(s) => Ok(s@),
        Err(e) => Err(e@),
    }
}

fn digits_at(d: &[char], lo: usize, n: usize) -> (v: i64)
    requires
        lo + n <= d.len(),
        n <= 4,
        all_digits(d@),
    ensures
        v == digits_value(d@.subrange(lo as int, lo + n)),
        0 <= v <= 9999,
{
    let mut v: i64 = 0;
    let mut k: usize = 0;
    while k < n
        invariant
            k <= n <= 4,
            lo + n <= d.len(),
            all_digits(d@),
            v == digits_value(d@.subrange(lo as int, lo + k)),
            0 <= v,
            k == 0 ==> v == 0,
            k <= 1 ==> v <= 9,
            k <= 2 ==> v <= 99,
            k <= 3 ==> v <= 999,
            v <= 9999,
        decreases n - k,
    {
        assert(is_ascii_digit(d@[lo + k]));
        let c = (d[lo + k] as u32 - '0' as u32) as i64;
        assert(d@.subrange(lo as int, lo + k + 1).drop_last() == d@.subrange(lo as int, lo + k));
        v = v * 10 + c;
        k += 1;
    }
    v
}

pub fn resolve_date(input: &str, today_days: i64) -> (r: Result<String, String>)
    requires
        i64::MIN < today_days < i64::MAX - 719468,
    ensures
        text_result_view(r) == spec_resolve_date(input@, today_days as int),
{
    let raw = chars_of(input);
    let s = trim_chars(&raw);
    let l = ascii_lowercase(&s);
    if text_is(&l, "today") {
        return Ok(format_civil(today_days));
    }
    if text_is(&l, "yesterday") {
        return Ok(format_civil(today_days - 1));
    }
    if text_is(&l, "tomorrow") {
        return Ok(format_civil(today_days + 1));
    }
    let st = string_from_chars(&s);
    if s.len() > 1 && (s[0] == '+' || s[0] == '-') {
        let rest = slice_range(&s, 1, s.len());
        assert(rest@ == s@.drop_first());
        let mut all = true;
        let mut i: usize = 0;
        while i < rest.len()
            invariant
                i <= rest.len(),
                all <==> forall|j: int| 0 <= j < i ==> is_ascii_digit(#[trigger] rest@[j]),
            decreases rest.len() - i,
        {
            if !crate::strutil::char_is_ascii_digit(rest[i]) {
                all = false;
            }
            i += 1;
        }
        if all {
            let too_large = concat_text("day offset too large: ", st.as_str());
            proof {
                assert(is_ascii_digit(rest@[0]));
                assert(all_digits(rest@));
                assert(crate::strutil::parse_int_value(rest@, true) == Some(digits_value(rest@)));
                crate::strutil::lemma_digits_value_nonneg(rest@);
            }
            let n = match parse_i64(&rest) {
                Some(n) => n,
                None => {
                    return Err(too_large);
                },
            };
            let neg = s[0] == '-';
            proof {
                crate::strutil::lemma_digits_value_nonneg(rest@);
            }
            let add: i64 = if neg { -n } else { n };
            let days = match today_days.checked_add(add) {
                Some(x) => x,
                None => {
                    return Err(too_large);
                },
            };
            if days > i64::MAX - 719468 {
                return Err(too_large);
            }
            let out = format_civil(days);
            if !is_four_digit_year(out.as_str()) {
                return Err(too_large);
            }
            return Ok(out);
        }
    }
    let dashed = s.len() == 10 && s[4] == '-' && s[7] == '-';
    let compact = s.len() == 8;
    let d = crate::rss::parse::keep_digit_chars_pub(&s);
    if d.len() == 8 && (dashed || compact) {
        let y = digits_at(&d, 0, 4);
        let m = digits_at(&d, 4, 2);
        let dd = digits_at(&d, 6, 2);
        let back = civil_from_days(days_from_civil(y, m, dd));
        proof {
            if is_valid_date(y as int, m as int, dd as int) {
                law_day_count_identifies_date(y as int, m as int, dd as int, back.0 as int, back.1 as int, back.2 as int);
            }
        }
        if back.0 == y && back.1 == m && back.2 == dd {
            let mut out: Vec<char> = Vec::new();
            push_int(&mut out, y, 4);
            out.push('-');
            push_int(&mut out, m, 2);
            out.push('-');
            push_int(&mut out, dd, 2);
            assert(out@ == iso_date_text(y as int, m as int, dd as int));
            assert(is_valid_date(y as int, m as int, dd as int));
            assert(spec_resolve_date(input@, today_days as int) == Ok::<Seq<char>, Seq<char>>(iso_date_text(y as int, m as int, dd as int)));
            return Ok(string_from_chars(&out));
        }
        return Err(concat_text("not a real calendar date: ", st.as_str()));
    }
    let head = concat_text("unsupported date: ", st.as_str());
    Err(concat_text(head.as_str(), " (use YYYY-MM-DD, YYYYMMDD, today, yesterday, tomorrow, +N, -N)"))
}

/// The KST day number of the instant `secs` seconds after the epoch.
pub open spec fn kst_day_of(secs: int) -> int {
    (secs + 32400) / 86400
}

/// The clock's seconds since the Unix epoch (`SystemTime::now`), zero when
/// the clock reads before the epoch. Nothing is claimed of the value: it is
/// the time.
#[verifier::external_body]
fn unix_now_secs() -> (r: u64) {
    std::time::SystemTime::now().duration_since(std::time::UNIX_EPOCH).map(|d| d.as_secs()).unwrap_or(0)
}

/// Today's date in KST as `YYYY-MM-DD`, from the system clock (a clock past
/// the year 292 billion reads as the epoch).
pub fn kst_today() -> (r: String)
    ensures
        exists|secs: int| 0 <= secs <= i64::MAX - 32400 && r@ == day_text(#[trigger] kst_day_of(secs)),
{
    let raw = unix_now_secs();
    let secs: i64 = if raw <= (i64::MAX - 32400) as u64 { raw as i64 } else { 0 };
    let r = kst_date_from_utc_secs(secs);
    assert(r@ == day_text(kst_day_of(secs as int)));
    r
}

} // verus!
