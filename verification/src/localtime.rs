//! The display time zone: a UTC offset and its label, taken from a setting,
//! the `TZ` variable or a TZif zone file, falling back to KST.
use vstd::prelude::*;
use crate::strutil::{
    chars_eq_ignore_ascii_case, chars_of, chars_split_once, chars_strip_prefix, char_is_ascii_digit,
    eq_ignore_ascii_case, fmt_int, is_ascii_digit, parse_i32, parse_int, push_int, slice_range,
    split_once, string_from_chars, strip_prefix, trim, trim_chars, dec_digits, digit_char, zeros,
};

verus! {

/// The KST (UTC+9) offset in seconds: the zone KBO data is written in, and
/// the fallback when nothing else can be determined.
pub const KST_OFFSET_SECS: i32 = 32400;

/// A display time zone: offset from UTC in seconds and a short label.
#[derive(Debug, Clone, PartialEq, Eq)]
pub struct TimeZone {
    pub offset_secs: i32,
    /// `KST`, `EDT` and the like; `UTC+9` style when no name is known.
    pub abbrev: String,
}

/// The label `UTC+H` or `UTC+H:MM` of an offset.
pub open spec fn spec_offset_abbrev(offset_secs: int) -> Seq<char> {
    let a = if offset_secs < 0 { -offset_secs } else { offset_secs };
    let h = a / 3600;
    let m = (a % 3600) / 60;
    seq!['U', 'T', 'C', if offset_secs < 0 { '-' } else { '+' }] + fmt_int(h, 0) + if m == 0 {
        Seq::<char>::empty()
    } else {
        seq![':'] + fmt_int(m, 2)
    }
}

impl TimeZone {
    pub fn kst() -> (tz: Self)
        ensures
            tz.offset_secs == KST_OFFSET_SECS,
            tz.abbrev@ == seq!['K', 'S', 'T'],
    {
        let v = vec!['K', 'S', 'T'];
        TimeZone { offset_secs: KST_OFFSET_SECS, abbrev: string_from_chars(&v) }
    }

    pub fn from_offset(offset_secs: i32) -> (tz: Self)
        requires
            offset_secs > i32::MIN,
        ensures
            tz.offset_secs == offset_secs,
            tz.abbrev@ == spec_offset_abbrev(offset_secs as int),
    {
        TimeZone { offset_secs, abbrev: offset_abbrev(offset_secs) }
    }

    /// Whether this zone is KST, the zone of the KBO schedule itself.
    pub fn is_kst(&self) -> (b: bool)
        ensures
            b == (self.offset_secs == KST_OFFSET_SECS),
    {
        self.offset_secs == KST_OFFSET_SECS
    }
}

/// The `UTC+9` / `UTC-3:30` label of an offset.
pub fn offset_abbrev(offset_secs: i32) -> (s: String)
    requires
        offset_secs > i32::MIN,
    ensures
        s@ == spec_offset_abbrev(offset_secs as int),
{
    let a = if offset_secs < 0 { -offset_secs } else { offset_secs };
    let h = a / 3600;
    let m = (a % 3600) / 60;
    let mut out = vec!['U', 'T', 'C', if offset_secs < 0 { '-' } else { '+' }];
    push_int(&mut out, h as i64, 0);
    if m != 0 {
        out.push(':');
        push_int(&mut out, m as i64, 2);
    }
    string_from_chars(&out)
}

/// `raw` without one leading `UTC`, `utc`, `GMT` or `gmt` (tried in that order).
pub open spec fn strip_zone_prefix(s: Seq<char>) -> Seq<char> {
    match strip_prefix(s, seq!['U', 'T', 'C']) {
        Some(t) => t,
        None => match strip_prefix(s, seq!['u', 't', 'c']) {
            Some(t) => t,
            None => match strip_prefix(s, seq!['G', 'M', 'T']) {
                Some(t) => t,
                None => match strip_prefix(s, seq!['g', 'm', 't']) {
                    Some(t) => t,
                    None => s,
                },
            },
        },
    }
}

/// The hour and minute fields of an offset body: `H:M`, `HHMM` or `H`.
pub open spec fn offset_fields(rest: Seq<char>) -> (Seq<char>, Seq<char>) {
    match split_once(rest, ':') {
        Some(p) => p,
        None => if rest.len() == 4 {
            (rest.take(2), rest.skip(2))
        } else {
            (rest, seq!['0'])
        },
    }
}

/// Every character is an ASCII digit or `:`.
pub open spec fn digits_or_colons(s: Seq<char>) -> bool {
    forall|i: int| 0 <= i < s.len() ==> is_ascii_digit(#[trigger] s[i]) || s[i] == ':'
}

fn check_digits_or_colons(s: &[char]) -> (b: bool)
    ensures
        b == digits_or_colons(s@),
{
    let mut i: usize = 0;
    while i < s.len()
        invariant
            i <= s.len(),
            forall|j: int| 0 <= j < i ==> is_ascii_digit(#[trigger] s@[j]) || s@[j] == ':',
        decreases s.len() - i,
    {
        if !(char_is_ascii_digit(s[i]) || s[i] == ':') {
            assert(!(is_ascii_digit(s@[i as int]) || s@[i as int] == ':'));
            return false;
        }
        i += 1;
    }
    true
}

/// The offset in seconds that a numeric zone setting (`+09:00`, `-0400`,
/// `UTC+9`, `+09`) names, or `None` for anything else; hours must lie in
/// 0..=14 and minutes in 0..60.
pub open spec fn spec_parse_offset(raw: Seq<char>) -> Option<int> {
    let s = trim(strip_zone_prefix(trim(raw)));
    let neg = s.len() > 0 && s[0] == '-';
    let rest = if neg {
        s.drop_first()
    } else if s.len() > 0 && s[0] == '+' {
        s.drop_first()
    } else {
        s
    };
    if rest.len() == 0 || !digits_or_colons(rest) {
        None
    } else {
        let (hs, ms) = offset_fields(rest);
        match (parse_int(hs, true, i32::MIN as int, i32::MAX as int), parse_int(ms, true, i32::MIN as int, i32::MAX as int)) {
            (Some(h), Some(m)) => if 0 <= h <= 14 && 0 <= m < 60 {
                Some(if neg { -(h * 3600 + m * 60) } else { h * 3600 + m * 60 })
            } else {
                None
            },
            _ => None,
        }
    }
}

fn strip_zone_prefix_chars(s: &[char]) -> (r: Vec<char>)
    ensures
        r@ == strip_zone_prefix(s@),
{
    let utc = vec!['U', 'T', 'C'];
    let utc_l = vec!['u', 't', 'c'];
    let gmt = vec!['G', 'M', 'T'];
    let gmt_l = vec!['g', 'm', 't'];
    if let Some(t) = chars_strip_prefix(s, &utc) {
        t
    } else if let Some(t) = chars_strip_prefix(s, &utc_l) {
        t
    } else if let Some(t) = chars_strip_prefix(s, &gmt) {
        t
    } else if let Some(t) = chars_strip_prefix(s, &gmt_l) {
        t
    } else {
        slice_range(s, 0, s.len())
    }
}

pub fn parse_offset(raw: &str) -> (r: Option<i32>)
    ensures
        match spec_parse_offset(raw@) {
            Some(v) => r == Some(v as i32),
            None => r is None,
        },
{
    let cs = chars_of(raw);
    let t = trim_chars(&cs);
    let p = strip_zone_prefix_chars(&t);
    let s = trim_chars(&p);
    let neg = s.len() > 0 && s[0] == '-';
    let rest = if neg {
        slice_range(&s, 1, s.len())
    } else if s.len() > 0 && s[0] == '+' {
        slice_range(&s, 1, s.len())
    } else {
        slice_range(&s, 0, s.len())
    };
    let ghost sp = trim(strip_zone_prefix(trim(raw@)));
    assert(s@ == sp);
    assert(rest@ == if neg {
        sp.drop_first()
    } else if sp.len() > 0 && sp[0] == '+' {
        sp.drop_first()
    } else {
        sp
    });
    if rest.len() == 0 {
        return None;
    }
    if !check_digits_or_colons(&rest) {
        return None;
    }
    let (hs, ms) = match chars_split_once(&rest, ':') {
        Some((a, b)) => (a, b),
        None => if rest.len() == 4 {
            (slice_range(&rest, 0, 2), slice_range(&rest, 2, 4))
        } else {
            (slice_range(&rest, 0, rest.len()), vec!['0'])
        },
    };
    assert(offset_fields(rest@) == (hs@, ms@));
    match (parse_i32(&hs), parse_i32(&ms)) {
        (Some(h), Some(m)) => {
            if 0 <= h && h <= 14 && 0 <= m && m < 60 {
                let v = h * 3600 + m * 60;
                Some(if neg { -v } else { v })
            } else {
                None
            }
        },
        _ => None,
    }
}

/// Whether a `--tz` value is one this program understands: empty, `auto`,
/// `kst` (any ASCII case) or a numeric offset.
pub open spec fn spec_is_supported_setting(raw: Seq<char>) -> bool {
    let t = trim(raw);
    t.len() == 0 || eq_ignore_ascii_case(t, seq!['a', 'u', 't', 'o'])
        || eq_ignore_ascii_case(t, seq!['k', 's', 't']) || spec_parse_offset(t) is Some
}

pub fn is_supported_setting(raw: &str) -> (b: bool)
    ensures
        b == spec_is_supported_setting(raw@),
{
    let cs = chars_of(raw);
    let t = trim_chars(&cs);
    let auto = vec!['a', 'u', 't', 'o'];
    let kst = vec!['k', 's', 't'];
    if t.len() == 0 || chars_eq_ignore_ascii_case(&t, &auto) || chars_eq_ignore_ascii_case(&t, &kst) {
        return true;
    }
    let ts = string_from_chars(&t);
    parse_offset(ts.as_str()).is_some()
}

/// The display zone: offset and label. An explicit setting (`kst` or an
/// offset; `auto`, empty and unknown values are skipped) wins, then a numeric
/// `TZ` value, then the zone file in force at `now_secs`, then KST.
pub open spec fn spec_resolve(
    setting: Option<Seq<char>>,
    tz_env: Option<Seq<char>>,
    zone_file: Option<Seq<u8>>,
    now_secs: u64,
) -> (int, Seq<char>) {
    let from_setting: Option<(int, Seq<char>)> = match setting {
        Some(raw) => {
            let t = trim(raw);
            if t.len() == 0 || eq_ignore_ascii_case(t, seq!['a', 'u', 't', 'o']) {
                None
            } else if eq_ignore_ascii_case(t, seq!['k', 's', 't']) {
                Some((KST_OFFSET_SECS as int, seq!['K', 'S', 'T']))
            } else {
                match spec_parse_offset(t) {
                    Some(off) => Some((off, spec_offset_abbrev(off))),
                    None => None,
                }
            }
        },
        None => None,
    };
    match from_setting {
        Some(r) => r,
        None => match tz_env {
            Some(v) if spec_parse_offset(v) is Some => (
                spec_parse_offset(v)->0,
                spec_offset_abbrev(spec_parse_offset(v)->0),
            ),
            _ => match zone_file {
                Some(d) if spec_parse_tzif(d, (now_secs as i64) as int) is Some => spec_parse_tzif(
                    d,
                    (now_secs as i64) as int,
                )->0,
                _ => (KST_OFFSET_SECS as int, seq!['K', 'S', 'T']),
            },
        },
    }
}

/// Chooses the display zone from what the environment offers: the `--tz` /
/// config setting, the `TZ` variable and the bytes of the system zone file.
pub fn resolve_from(
    setting: Option<&str>,
    tz_env: Option<&str>,
    zone_file: Option<&[u8]>,
    now_secs: u64,
) -> (tz: TimeZone)
    ensures
        ({
            let r = spec_resolve(
                match setting {
                    Some(s) => Some(s@),
                    None => None,
                },
                match tz_env {
                    Some(s) => Some(s@),
                    None => None,
                },
                match zone_file {
                    Some(d) => Some(d@),
                    None => None,
                },
                now_secs,
            );
            tz.offset_secs == r.0 && tz.abbrev@ == r.1
        }),
{
    if let Some(s) = setting {
        let cs = chars_of(s);
        let t = trim_chars(&cs);
        let auto = vec!['a', 'u', 't', 'o'];
        let kst = vec!['k', 's', 't'];
        if !(t.len() == 0 || chars_eq_ignore_ascii_case(&t, &auto)) {
            if chars_eq_ignore_ascii_case(&t, &kst) {
                return TimeZone::kst();
            }
            let ts = string_from_chars(&t);
            if let Some(off) = parse_offset(ts.as_str()) {
                return TimeZone::from_offset(off);
            }
        }
    }
    if let Some(v) = tz_env {
        if let Some(off) = parse_offset(v) {
            return TimeZone::from_offset(off);
        }
    }
    if let Some(d) = zone_file {
        #[verifier::truncate]
        let now = now_secs as i64;
        if let Some(tz) = parse_tzif(d, now) {
            return tz;
        }
    }
    TimeZone::kst()
}

// ---- TZif zone files (RFC 8536) ----

/// Unsigned big-endian value of `s`.
pub open spec fn be_unsigned(s: Seq<u8>) -> int
    decreases s.len(),
{
    if s.len() == 0 {
        0
    } else {
        be_unsigned(s.drop_last()) * 256 + s.last() as int
    }
}

pub open spec fn pow256(k: nat) -> int
    decreases k,
{
    if k == 0 {
        1
    } else {
        256 * pow256((k - 1) as nat)
    }
}

/// Two's-complement big-endian value of `s`.
pub open spec fn be_signed(s: Seq<u8>) -> int {
    if s.len() > 0 && s[0] >= 128 {
        be_unsigned(s) - pow256(s.len())
    } else {
        be_unsigned(s)
    }
}

proof fn lemma_be_unsigned_bound(s: Seq<u8>)
    ensures
        0 <= be_unsigned(s) < pow256(s.len()),
        s.len() > 0 && s[0] >= 128 ==> be_unsigned(s) >= pow256(s.len()) / 2,
        s.len() > 0 && s[0] < 128 ==> be_unsigned(s) < pow256(s.len()) / 2,
    decreases s.len(),
{
    if s.len() > 0 {
        lemma_be_unsigned_bound(s.drop_last());
        assert(pow256(s.len()) == 256 * pow256((s.len() - 1) as nat));
        if s.len() == 1 {
            assert(s.drop_last().len() == 0);
            assert(pow256(0) == 1);
        } else {
            assert(s.drop_last()[0] == s[0]);
        }
    }
}

/// The record counts of a TZif header.
pub struct Counts {
    pub isutcnt: u64,
    pub isstdcnt: u64,
    pub leapcnt: u64,
    pub timecnt: u64,
    pub typecnt: u64,
    pub charcnt: u64,
}

impl Counts {
    pub open spec fn spec_block_len(&self, tw: int) -> int {
        self.timecnt * tw + self.timecnt + self.typecnt * 6 + self.charcnt + self.leapcnt * (tw + 4)
            + self.isstdcnt + self.isutcnt
    }

    pub open spec fn small(&self) -> bool {
        self.isutcnt < 0x1_0000_0000 && self.isstdcnt < 0x1_0000_0000 && self.leapcnt < 0x1_0000_0000
            && self.timecnt < 0x1_0000_0000 && self.typecnt < 0x1_0000_0000 && self.charcnt
            < 0x1_0000_0000
    }

    /// Length of a data block whose times are `tw` bytes wide (4 in v1, 8 in v2+).
    pub fn block_len(&self, tw: u64) -> (r: u64)
        requires
            self.small(),
            tw <= 8,
        ensures
            r == self.spec_block_len(tw as int),
    {
        assert(self.timecnt * tw <= 0xFFFF_FFFF * 8) by (nonlinear_arith)
            requires
                self.timecnt < 0x1_0000_0000,
                tw <= 8,
        ;
        assert(self.leapcnt * (tw + 4) <= 0xFFFF_FFFF * 12) by (nonlinear_arith)
            requires
                self.leapcnt < 0x1_0000_0000,
                tw <= 8,
        ;
        self.timecnt * tw + self.timecnt + self.typecnt * 6 + self.charcnt + self.leapcnt * (tw + 4)
            + self.isstdcnt + self.isutcnt
    }
}

/// The counts of the 44-byte TZif header at `off` in `d`, if `d` holds one
/// there (magic `TZif`, at least one local time type).
pub open spec fn spec_tzif_header(d: Seq<u8>, off: int) -> Option<Counts> {
    if d.len() < off + 44 || d.subrange(off, off + 4) != seq![84u8, 90u8, 105u8, 102u8] {
        None
    } else {
        let c = Counts {
            isutcnt: be_unsigned(d.subrange(off + 20, off + 24)) as u64,
            isstdcnt: be_unsigned(d.subrange(off + 24, off + 28)) as u64,
            leapcnt: be_unsigned(d.subrange(off + 28, off + 32)) as u64,
            timecnt: be_unsigned(d.subrange(off + 32, off + 36)) as u64,
            typecnt: be_unsigned(d.subrange(off + 36, off + 40)) as u64,
            charcnt: be_unsigned(d.subrange(off + 40, off + 44)) as u64,
        };
        if c.typecnt == 0 {
            None
        } else {
            Some(c)
        }
    }
}

fn be_unsigned_at(d: &[u8], start: usize, n: usize) -> (r: u64)
    requires
        start + n <= d.len(),
        n <= 8,
    ensures
        r == be_unsigned(d@.subrange(start as int, start + n)),
        r < pow256(n as nat),
{
    let mut u: u64 = 0;
    let mut i: usize = 0;
    while i < n
        invariant
            i <= n <= 8,
            start + n <= d.len(),
            u == be_unsigned(d@.subrange(start as int, start + i)),
            u < pow256(i as nat),
        decreases n - i,
    {
        proof {
            let t = d@.subrange(start as int, start + i + 1);
            assert(t.drop_last() == d@.subrange(start as int, start + i));
            assert(pow256((i + 1) as nat) == 256 * pow256(i as nat));
            reveal_with_fuel(pow256, 9);
            assert(pow256(8) == 0x1_0000_0000_0000_0000);
            lemma_pow256_mono(i as nat, 7);
        }
        u = u * 256 + d[start + i] as u64;
        i += 1;
    }
    u
}

proof fn lemma_pow256_pos(a: nat)
    ensures
        pow256(a) >= 1,
    decreases a,
{
    if a > 0 {
        lemma_pow256_pos((a - 1) as nat);
    }
}

proof fn lemma_pow256_mono(a: nat, b: nat)
    requires
        a <= b,
    ensures
        1 <= pow256(a) <= pow256(b),
    decreases b,
{
    if a < b {
        lemma_pow256_mono(a, (b - 1) as nat);
    } else {
        lemma_pow256_pos(a);
    }
}

fn be_signed_at(d: &[u8], start: usize, n: usize) -> (r: i64)
    requires
        start + n <= d.len(),
        n == 4 || n == 8,
    ensures
        r == be_signed(d@.subrange(start as int, start + n)),
{
    let u = be_unsigned_at(d, start, n);
    let ghost t = d@.subrange(start as int, start + n);
    proof {
        lemma_be_unsigned_bound(t);
        reveal_with_fuel(pow256, 9);
        assert(pow256(4) == 0x1_0000_0000);
        assert(pow256(8) == 0x1_0000_0000_0000_0000);
        assert(t[0] == d@[start as int]);
    }
    if d[start] >= 128 {
        let mask: u64 = if n == 8 { u64::MAX } else { 0xFFFF_FFFFu64 };
        let comp = mask - u;
        -(comp as i64) - 1
    } else {
        u as i64
    }
}

fn tzif_header(d: &[u8], off: usize) -> (r: Option<Counts>)
    requires
        off <= d.len(),
    ensures
        match spec_tzif_header(d@, off as int) {
            Some(c) => r matches Some(rc) && rc == c && rc.small(),
            None => r is None,
        },
{
    if d.len() - off < 44 {
        return None;
    }
    if !(d[off] == 84u8 && d[off + 1] == 90u8 && d[off + 2] == 105u8 && d[off + 3] == 102u8) {
        proof {
            let m = d@.subrange(off as int, off + 4);
            assert(m[0] == d@[off as int] && m[1] == d@[off + 1] && m[2] == d@[off + 2] && m[3] == d@[off + 3]);
            assert(m != seq![84u8, 90u8, 105u8, 102u8]) by {
                if m == seq![84u8, 90u8, 105u8, 102u8] {
                    assert(m[0] == 84u8);
                }
            }
        }
        return None;
    }
    assert(d@.subrange(off as int, off + 4) == seq![84u8, 90u8, 105u8, 102u8]);
    proof {
        reveal_with_fuel(pow256, 5);
    }
    let c = Counts {
        isutcnt: be_unsigned_at(d, off + 20, 4),
        isstdcnt: be_unsigned_at(d, off + 24, 4),
        leapcnt: be_unsigned_at(d, off + 28, 4),
        timecnt: be_unsigned_at(d, off + 32, 4),
        typecnt: be_unsigned_at(d, off + 36, 4),
        charcnt: be_unsigned_at(d, off + 40, 4),
    };
    if c.typecnt == 0 {
        return None;
    }
    Some(c)
}

/// Signed big-endian transition time `i` of a block whose times are `tw` bytes wide.
pub open spec fn tzif_time(d: Seq<u8>, body: int, i: int, tw: int) -> int {
    be_signed(d.subrange(body + i * tw, body + i * tw + tw))
}

/// The local time type in force at `now`: the type of the last transition at
/// or before `now` (scanning stops at the first later one), or type 0.
pub open spec fn tzif_type_scan(d: Seq<u8>, body: int, timecnt: int, tw: int, now: int, i: int, cur: int) -> int
    decreases timecnt - i,
{
    if i < 0 || i >= timecnt {
        cur
    } else if tzif_time(d, body, i, tw) <= now {
        tzif_type_scan(d, body, timecnt, tw, now, i + 1, d[body + timecnt * tw + i] as int)
    } else {
        cur
    }
}

/// The bytes of `s` before its first zero byte.
pub open spec fn before_nul(s: Seq<u8>) -> Seq<u8>
    decreases s.len(),
{
    if s.len() == 0 || s[0] == 0 {
        Seq::<u8>::empty()
    } else {
        seq![s[0]] + before_nul(s.drop_first())
    }
}

/// The designation of a local time type: the NUL-terminated ASCII text at
/// `d[start..end]`, or the `UTC+H` label when it is missing, empty or not ASCII.
pub open spec fn tzif_abbrev(d: Seq<u8>, start: int, end: int, utoff: int) -> Seq<char> {
    if start <= end {
        let piece = before_nul(d.subrange(start, end));
        if piece.len() > 0 && forall|k: int| 0 <= k < piece.len() ==> #[trigger] piece[k] < 128 {
            piece.map_values(|b: u8| b as char)
        } else {
            spec_offset_abbrev(utoff)
        }
    } else {
        spec_offset_abbrev(utoff)
    }
}

/// Every character of the decimal digits of `n` is ASCII.
proof fn lemma_dec_digits_ascii(n: nat)
    ensures
        forall|i: int| 0 <= i < dec_digits(n).len() ==> (#[trigger] dec_digits(n)[i] as u32) < 128,
    decreases n,
{
    if n >= 10 {
        lemma_dec_digits_ascii(n / 10);
        let d = (n % 10) as int;
        assert((digit_char(d) as u32) < 128);
        assert forall|i: int| 0 <= i < dec_digits(n).len() implies (#[trigger] dec_digits(n)[i] as u32) < 128 by {
            if i < dec_digits(n / 10).len() {
                assert(dec_digits(n)[i] == dec_digits(n / 10)[i]);
            }
        }
    } else {
        assert((digit_char(n as int) as u32) < 128);
    }
}

/// The `UTC±H[:MM]` label is ASCII.
proof fn lemma_offset_abbrev_ascii(offset_secs: int)
    ensures
        spec_offset_abbrev(offset_secs).len() > 0,
        forall|i: int|
            0 <= i < spec_offset_abbrev(offset_secs).len() ==> (#[trigger] spec_offset_abbrev(offset_secs)[i] as u32)
                < 128,
{
    let a = if offset_secs < 0 { -offset_secs } else { offset_secs };
    let h = a / 3600;
    let m = (a % 3600) / 60;
    lemma_dec_digits_ascii(h as nat);
    lemma_dec_digits_ascii(m as nat);
    let head = seq!['U', 'T', 'C', if offset_secs < 0 { '-' } else { '+' }];
    let hs = fmt_int(h, 0);
    let tail = if m == 0 { Seq::<char>::empty() } else { seq![':'] + fmt_int(m, 2) };
    assert(spec_offset_abbrev(offset_secs) == head + hs + tail);
    assert forall|i: int| 0 <= i < hs.len() implies (#[trigger] hs[i] as u32) < 128 by {
        let z = zeros(0 - dec_digits(h as nat).len());
        if i >= z.len() {
            assert(hs[i] == dec_digits(h as nat)[i - z.len()]);
        }
    }
    assert forall|i: int| 0 <= i < tail.len() implies (#[trigger] tail[i] as u32) < 128 by {
        if m != 0 {
            let ms = fmt_int(m, 2);
            let z = zeros(2 - dec_digits(m as nat).len());
            if i >= 1 {
                if i - 1 >= z.len() {
                    assert(ms[i - 1] == dec_digits(m as nat)[i - 1 - z.len()]);
                }
                assert(tail[i] == ms[i - 1]);
            }
        }
    }
    assert forall|i: int|
        0 <= i < spec_offset_abbrev(offset_secs).len() implies (#[trigger] spec_offset_abbrev(offset_secs)[i] as u32)
            < 128 by {
        let whole = head + hs + tail;
        if i < 4 {
            assert(whole[i] == head[i]);
        } else if i < 4 + hs.len() {
            assert(whole[i] == hs[i - 4]);
        } else {
            assert(whole[i] == tail[i - 4 - hs.len()]);
        }
    }
}

/// Offset and label in force at `now`, read from the data block at `body`.
pub open spec fn spec_tzif_lookup(d: Seq<u8>, body: int, c: Counts, now: int, tw: int) -> Option<(int, Seq<char>)> {
    let trans_end = c.timecnt * tw;
    let idx_end = trans_end + c.timecnt;
    let types_end = idx_end + c.typecnt * 6;
    let chars_end = types_end + c.charcnt;
    if d.len() - body < chars_end {
        None
    } else {
        let ti = tzif_type_scan(d, body, c.timecnt as int, tw, now, 0, 0);
        if ti >= c.typecnt {
            None
        } else {
            let toff = body + idx_end + ti * 6;
            let utoff = be_signed(d.subrange(toff, toff + 4));
            if !(-89999 <= utoff <= 93599) {
                None
            } else {
                Some((utoff, tzif_abbrev(d, body + types_end + d[toff + 5] as int, body + chars_end, utoff)))
            }
        }
    }
}

proof fn lemma_before_nul(s: Seq<u8>, k: int)
    requires
        0 <= k <= s.len(),
        forall|j: int| 0 <= j < k ==> s[j] != 0,
        k == s.len() || s[k] == 0,
    ensures
        before_nul(s) == s.take(k),
    decreases k,
{
    if k > 0 {
        assert forall|j: int| 0 <= j < k - 1 implies s.drop_first()[j] != 0 by {
            assert(s.drop_first()[j] == s[j + 1]);
        }
        lemma_before_nul(s.drop_first(), k - 1);
        assert(s.take(k) == seq![s[0]] + s.drop_first().take(k - 1));
    } else {
        assert(s.take(0) == Seq::<u8>::empty());
    }
}

#[verifier::loop_isolation(false)]
fn tzif_abbrev_exec(d: &[u8], base: u64, desig: u64, end: u64, utoff: i32) -> (r: String)
    requires
        base <= end <= d.len(),
        -89999 <= utoff <= 93599,
    ensures
        r@ == tzif_abbrev(d@, base + desig, end as int, utoff as int),
{
    if desig <= end - base {
        let s = (base + desig) as usize;
        let e = end as usize;
        let mut k: usize = s;
        while k < e && d[k] != 0
            invariant
                s <= k <= e <= d.len(),
                forall|j: int| s <= j < k ==> d@[j] != 0,
            decreases e - k,
        {
            k += 1;
        }
        let ghost seg = d@.subrange(s as int, e as int);
        proof {
            assert forall|j: int| 0 <= j < k - s implies seg[j] != 0 by {
                assert(seg[j] == d@[s + j]);
            }
            lemma_before_nul(seg, k - s);
        }
        let mut out: Vec<char> = Vec::new();
        let mut i: usize = s;
        while i < k
            invariant
                s <= i <= k <= e <= d.len(),
                out@ == d@.subrange(s as int, i as int).map_values(|b: u8| b as char),
                forall|j: int| s <= j < i ==> d@[j] < 128,
            decreases k - i,
        {
            if d[i] >= 128 {
                proof {
                    assert(before_nul(seg)[i - s] >= 128);
                }
                return offset_abbrev(utoff);
            }
            out.push(d[i] as char);
            i += 1;
            assert(d@.subrange(s as int, i as int) == d@.subrange(s as int, i - 1).push(d@[i - 1]));
        }
        if k == s {
            return offset_abbrev(utoff);
        }
        assert(seg.take(k - s) == d@.subrange(s as int, k as int));
        string_from_chars(&out)
    } else {
        offset_abbrev(utoff)
    }
}

/// The label of a zone read from a TZif block is non-empty ASCII.
proof fn lemma_tzif_label_ascii(d: Seq<u8>, body: int, c: Counts, now: int, tw: int)
    ensures
        spec_tzif_lookup(d, body, c, now, tw) matches Some((off, ab)) ==> ab.len() > 0 && forall|i: int|
            0 <= i < ab.len() ==> (#[trigger] ab[i] as u32) < 128,
{
    if let Some((off, ab)) = spec_tzif_lookup(d, body, c, now, tw) {
        lemma_offset_abbrev_ascii(off);
        let trans_end = c.timecnt * tw;
        let idx_end = trans_end + c.timecnt;
        let types_end = idx_end + c.typecnt * 6;
        let chars_end = types_end + c.charcnt;
        let ti = tzif_type_scan(d, body, c.timecnt as int, tw, now, 0, 0);
        let toff = body + idx_end + ti * 6;
        let start = body + types_end + d[toff + 5] as int;
        let end = body + chars_end;
        if start <= end {
            let piece = before_nul(d.subrange(start, end));
            if piece.len() > 0 && forall|k: int| 0 <= k < piece.len() ==> #[trigger] piece[k] < 128 {
                assert forall|i: int| 0 <= i < ab.len() implies (#[trigger] ab[i] as u32) < 128 by {
                    assert(ab[i] == piece[i] as char);
                    assert(piece[i] < 128);
                }
            }
        }
    }
}

/// Offset and label in force at `now`, from the data block that starts at
/// `body` in `d` with counts `c` and `tw`-byte times.
#[verifier::loop_isolation(false)]
fn tzif_lookup(c: &Counts, d: &[u8], body: usize, now: i64, tw: usize) -> (r: Option<TimeZone>)
    requires
        body <= d.len(),
        c.small(),
        tw == 4 || tw == 8,
    ensures
        match spec_tzif_lookup(d@, body as int, *c, now as int, tw as int) {
            Some((off, ab)) => r matches Some(tz) && tz.offset_secs == off && tz.abbrev@ == ab,
            None => r is None,
        },
        r matches Some(tz) ==> -89999 <= tz.offset_secs <= 93599 && tz.abbrev@.len() > 0 && forall|i: int|
            0 <= i < tz.abbrev@.len() ==> (#[trigger] tz.abbrev@[i] as u32) < 128,
{
    assert(c.timecnt * tw <= 0xFFFF_FFFF * 8) by (nonlinear_arith)
        requires
            c.timecnt < 0x1_0000_0000,
            tw <= 8,
    ;
    let tw64 = tw as u64;
    let trans_end: u64 = c.timecnt * tw64;
    let idx_end: u64 = trans_end + c.timecnt;
    let types_end: u64 = idx_end + c.typecnt * 6;
    let chars_end: u64 = types_end + c.charcnt;
    if ((d.len() - body) as u64) < chars_end {
        return None;
    }
    let mut type_idx: u64 = 0;
    let mut i: u64 = 0;
    let mut done = false;
    let ghost timecnt = c.timecnt as int;
    let ghost goal = tzif_type_scan(d@, body as int, timecnt, tw as int, now as int, 0, 0);
    while !done && i < c.timecnt
        invariant
            i <= c.timecnt,
            body + chars_end <= d.len(),
            trans_end == c.timecnt * tw,
            idx_end == trans_end + c.timecnt,
            c.small(),
            tw == 4 || tw == 8,
            type_idx < 256,
            done ==> goal == type_idx,
            !done ==> goal == tzif_type_scan(d@, body as int, timecnt, tw as int, now as int, i as int, type_idx as int),
        decreases c.timecnt - i, if done { 0int } else { 1int },
    {
        assert(i * tw + tw <= c.timecnt * tw) by (nonlinear_arith)
            requires
                i < c.timecnt,
                tw >= 0,
        ;
        assert(i * tw + tw <= d.len() - body);
        let start = body + (i as usize) * tw;
        let t = be_signed_at(d, start, tw);
        if t <= now {
            type_idx = d[body + trans_end as usize + i as usize] as u64;
            i += 1;
        } else {
            done = true;
        }
    }
    if type_idx >= c.typecnt {
        return None;
    }
    let toff = body + (idx_end as usize) + (type_idx as usize) * 6;
    let utoff64 = be_signed_at(d, toff, 4);
    if !(-89999 <= utoff64 && utoff64 <= 93599) {
        return None;
    }
    let utoff = utoff64 as i32;
    let desig = d[toff + 5] as u64;
    let abbrev = tzif_abbrev_exec(d, body as u64 + types_end, desig, body as u64 + chars_end, utoff);
    proof {
        lemma_tzif_label_ascii(d@, body as int, *c, now as int, tw as int);
    }
    Some(TimeZone { offset_secs: utoff, abbrev })
}

/// Offset and label in force at `now` according to the TZif file `d`: the
/// 64-bit block of a version 2+ file, the 32-bit block otherwise.
pub open spec fn spec_parse_tzif(d: Seq<u8>, now: int) -> Option<(int, Seq<char>)> {
    match spec_tzif_header(d, 0) {
        None => None,
        Some(c) => if d[4] >= 50 {
            let second = 44 + c.spec_block_len(4);
            if second > d.len() {
                None
            } else {
                match spec_tzif_header(d, second) {
                    None => None,
                    Some(c2) => spec_tzif_lookup(d, second + 44, c2, now, 8),
                }
            }
        } else {
            spec_tzif_lookup(d, 44, c, now, 4)
        },
    }
}

/// Parses a TZif zone file (RFC 8536) and picks the local time type in
/// force at `now` (UTC seconds). Malformed input gives `None`.
pub fn parse_tzif(data: &[u8], now: i64) -> (r: Option<TimeZone>)
    ensures
        match spec_parse_tzif(data@, now as int) {
            Some((off, ab)) => r matches Some(tz) && tz.offset_secs == off && tz.abbrev@ == ab,
            None => r is None,
        },
        r matches Some(tz) ==> -89999 <= tz.offset_secs <= 93599 && tz.abbrev@.len() > 0 && forall|i: int|
            0 <= i < tz.abbrev@.len() ==> (#[trigger] tz.abbrev@[i] as u32) < 128,
{
    let c = match tzif_header(data, 0) {
        Some(c) => c,
        None => return None,
    };
    let v1_len = c.block_len(4);
    if data[4] >= 50 {
        if v1_len > (data.len() - 44) as u64 {
            return None;
        }
        let second = 44 + v1_len as usize;
        let c2 = match tzif_header(data, second) {
            Some(c2) => c2,
            None => return None,
        };
        tzif_lookup(&c2, data, second + 44, now, 8)
    } else {
        tzif_lookup(&c, data, 44, now, 4)
    }
}

} // verus!
