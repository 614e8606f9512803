//! Plain text from HTML fragments of feeds and articles: tags removed (line
//! breaks kept), entities decoded, white space tidied, and lead excerpts.
use vstd::prelude::*;
use crate::strutil::{
    ascii_lower_seq, ascii_lowercase, chars_eq, chars_of, char_is_ascii_alphanumeric,
    char_is_white_space, find_char, find_char_in, is_ascii_alphanumeric, is_white_space,
    lemma_find_char, lemma_trim_end_prefix, slice_range, split_chars, split_on, string_from_chars,
    trim, trim_chars, trim_end, trim_end_chars,
};

verus! {

/// The most characters an in-app excerpt may hold before it is cut.
pub const EXCERPT_CHARS: usize = 200;

/// `str::replace(pat, rep)`: leftmost non-overlapping occurrences of `pat`
/// replaced by `rep`.
pub open spec fn replace_all(s: Seq<char>, pat: Seq<char>, rep: Seq<char>) -> Seq<char>
    recommends
        pat.len() > 0,
    decreases s.len(),
{
    if pat.len() == 0 || s.len() < pat.len() {
        s
    } else if s.take(pat.len() as int) == pat {
        rep + replace_all(s.skip(pat.len() as int), pat, rep)
    } else {
        seq![s[0]] + replace_all(s.drop_first(), pat, rep)
    }
}

pub fn matches_at(s: &[char], i: usize, pat: &[char]) -> (b: bool)
    requires
        i <= s.len(),
    ensures
        b == (i + pat.len() <= s.len() && s@.skip(i as int).take(pat.len() as int) == pat@),
{
    if pat.len() > s.len() - i {
        return false;
    }
    let mut k: usize = 0;
    while k < pat.len()
        invariant
            k <= pat.len(),
            i + pat.len() <= s.len(),
            forall|j: int| 0 <= j < k ==> s@[i + j] == pat@[j],
        decreases pat.len() - k,
    {
        if s[i + k] != pat[k] {
            assert(s@.skip(i as int).take(pat.len() as int)[k as int] != pat@[k as int]);
            return false;
        }
        k += 1;
    }
    assert(s@.skip(i as int).take(pat.len() as int) == pat@);
    true
}

pub fn replace_chars(s: &[char], pat: &[char], rep: &[char]) -> (r: Vec<char>)
    requires
        pat.len() > 0,
    ensures
        r@ == replace_all(s@, pat@, rep@),
{
    let mut out: Vec<char> = Vec::new();
    let mut i: usize = 0;
    assert(s@.skip(0) == s@);
    while i < s.len()
        invariant
            i <= s.len(),
            pat.len() > 0,
            replace_all(s@, pat@, rep@) == out@ + replace_all(s@.skip(i as int), pat@, rep@),
        decreases s.len() - i,
    {
        let ghost rest = s@.skip(i as int);
        if matches_at(s, i, pat) {
            let mut k: usize = 0;
            let ghost before = out@;
            while k < rep.len()
                invariant
                    k <= rep.len(),
                    out@ == before + rep@.take(k as int),
                decreases rep.len() - k,
            {
                out.push(rep[k]);
                k += 1;
                assert(rep@.take(k as int) == rep@.take(k - 1).push(rep@[k - 1]));
            }
            assert(rep@.take(rep.len() as int) == rep@);
            assert(rest.skip(pat.len() as int) == s@.skip(i + pat.len()));
            assert(out@ + replace_all(s@.skip(i + pat.len()), pat@, rep@) == before + (rep@
                + replace_all(rest.skip(pat.len() as int), pat@, rep@)));
            i = i + pat.len();
        } else {
            assert(rest.drop_first() == s@.skip(i + 1));
            assert(rest[0] == s@[i as int]);
            let ghost before = out@;
            out.push(s[i]);
            assert(out@ + replace_all(s@.skip(i + 1), pat@, rep@) == before + (seq![rest[0]]
                + replace_all(rest.drop_first(), pat@, rep@)));
            i = i + 1;
        }
    }
    assert(s@.skip(i as int) == Seq::<char>::empty());
    out
}

/// The entity decodings applied in order; `&amp;` comes last so that an
/// escaped entity such as `&amp;lt;` is decoded once, to `&lt;`.
pub open spec fn entity_table() -> Seq<(Seq<char>, Seq<char>)> {
    seq![
        (seq!['&', 'n', 'b', 's', 'p', ';'], seq![' ']),
        (seq!['&', 'q', 'u', 'o', 't', ';'], seq!['"']),
        (seq!['&', '#', '3', '9', ';'], seq!['\'']),
        (seq!['&', 'a', 'p', 'o', 's', ';'], seq!['\'']),
        (seq!['&', 'm', 'i', 'd', 'd', 'o', 't', ';'], seq!['\u{b7}']),
        (seq!['&', 'l', 't', ';'], seq!['<']),
        (seq!['&', 'g', 't', ';'], seq!['>']),
        (seq!['&', 'a', 'm', 'p', ';'], seq!['&']),
    ]
}

/// `s` after replacing with the first `k` rows of the entity table, in order.
pub open spec fn unescape_first(s: Seq<char>, k: nat) -> Seq<char>
    decreases k,
{
    if k == 0 {
        s
    } else {
        let row = entity_table()[k - 1];
        replace_all(unescape_first(s, (k - 1) as nat), row.0, row.1)
    }
}

pub open spec fn spec_unescape_entities(s: Seq<char>) -> Seq<char> {
    unescape_first(s, 8)
}

fn entity_rows() -> (rows: Vec<(Vec<char>, Vec<char>)>)
    ensures
        rows.len() == 8,
        forall|k: int| 0 <= k < 8 ==> #[trigger] rows[k].0@ == entity_table()[k].0 && rows[k].1@ == entity_table()[k].1,
{
    let rows = vec![
        (vec!['&', 'n', 'b', 's', 'p', ';'], vec![' ']),
        (vec!['&', 'q', 'u', 'o', 't', ';'], vec!['"']),
        (vec!['&', '#', '3', '9', ';'], vec!['\'']),
        (vec!['&', 'a', 'p', 'o', 's', ';'], vec!['\'']),
        (vec!['&', 'm', 'i', 'd', 'd', 'o', 't', ';'], vec!['\u{b7}']),
        (vec!['&', 'l', 't', ';'], vec!['<']),
        (vec!['&', 'g', 't', ';'], vec!['>']),
        (vec!['&', 'a', 'm', 'p', ';'], vec!['&']),
    ];
    assert(rows[0].0@ == entity_table()[0].0);
    assert(rows[1].0@ == entity_table()[1].0);
    assert(rows[2].0@ == entity_table()[2].0);
    assert(rows[3].0@ == entity_table()[3].0);
    assert(rows[4].0@ == entity_table()[4].0);
    assert(rows[5].0@ == entity_table()[5].0);
    assert(rows[6].0@ == entity_table()[6].0);
    assert(rows[7].0@ == entity_table()[7].0);
    assert(rows[0].1@ == entity_table()[0].1);
    assert(rows[1].1@ == entity_table()[1].1);
    assert(rows[2].1@ == entity_table()[2].1);
    assert(rows[3].1@ == entity_table()[3].1);
    assert(rows[4].1@ == entity_table()[4].1);
    assert(rows[5].1@ == entity_table()[5].1);
    assert(rows[6].1@ == entity_table()[6].1);
    assert(rows[7].1@ == entity_table()[7].1);
    rows
}

/// Decodes `&nbsp; &quot; &#39; &apos; &middot; &lt; &gt; &amp;`.
pub fn unescape_entities(s: &str) -> (r: String)
    ensures
        r@ == spec_unescape_entities(s@),
{
    let v = chars_of(s);
    let r = unescape_chars(&v);
    string_from_chars(&r)
}

pub fn unescape_chars(s: &[char]) -> (r: Vec<char>)
    ensures
        r@ == spec_unescape_entities(s@),
{
    let rows = entity_rows();
    let mut cur = slice_range(s, 0, s.len());
    let mut k: usize = 0;
    assert(s@.subrange(0, s@.len() as int) == s@);
    while k < 8
        invariant
            k <= 8,
            rows.len() == 8,
            forall|j: int| 0 <= j < 8 ==> #[trigger] rows[j].0@ == entity_table()[j].0 && rows[j].1@ == entity_table()[j].1,
            cur@ == unescape_first(s@, k as nat),
        decreases 8 - k,
    {
        assert(rows[k as int].0@ == entity_table()[k as int].0);
        assert(entity_table()[k as int].0.len() > 0);
        cur = replace_chars(&cur, &rows[k].0, &rows[k].1);
        k += 1;
    }
    cur
}


/// A tag's text with its leading `/` characters removed.
pub open spec fn drop_slashes(t: Seq<char>) -> Seq<char>
    decreases t.len(),
{
    if t.len() > 0 && t[0] == '/' {
        drop_slashes(t.drop_first())
    } else {
        t
    }
}

/// The longest prefix of ASCII letters and digits.
pub open spec fn alnum_prefix(t: Seq<char>) -> Seq<char>
    decreases t.len(),
{
    if t.len() > 0 && is_ascii_alphanumeric(t[0]) {
        seq![t[0]] + alnum_prefix(t.drop_first())
    } else {
        Seq::empty()
    }
}

/// The text between `<` and `>` names a line break: after any leading `/`,
/// its name (letters and digits) is `br` in any case.
pub open spec fn is_br_tag(tag: Seq<char>) -> bool {
    ascii_lower_seq(alnum_prefix(drop_slashes(tag))) == seq!['b', 'r']
}

/// `s` with each `<`…`>` span removed (an unclosed one runs to the end),
/// a line break tag leaving a `\n` in its place.
pub open spec fn strip_tags(s: Seq<char>) -> Seq<char>
    decreases s.len(),
{
    if s.len() == 0 {
        Seq::empty()
    } else if s[0] != '<' {
        seq![s[0]] + strip_tags(s.drop_first())
    } else {
        let rest = s.drop_first();
        match find_char(rest, '>') {
            Some(j) => if 0 <= j < rest.len() {
                (if is_br_tag(rest.take(j)) { seq!['\n'] } else { Seq::empty() }) + strip_tags(
                    rest.skip(j + 1),
                )
            } else {
                Seq::empty()
            },
            None => if is_br_tag(rest) {
                seq!['\n']
            } else {
                Seq::empty()
            },
        }
    }
}

fn is_br_tag_chars(t: &[char]) -> (b: bool)
    ensures
        b == is_br_tag(t@),
{
    let mut p: usize = 0;
    assert(t@.skip(0) == t@);
    while p < t.len() && t[p] == '/'
        invariant
            p <= t.len(),
            drop_slashes(t@) == drop_slashes(t@.skip(p as int)),
        decreases t.len() - p,
    {
        assert(t@.skip(p as int).drop_first() == t@.skip(p + 1));
        p += 1;
    }
    let mut name: Vec<char> = Vec::new();
    let mut q: usize = p;
    while q < t.len() && char_is_ascii_alphanumeric(t[q])
        invariant
            p <= q <= t.len(),
            alnum_prefix(t@.skip(p as int)) == name@ + alnum_prefix(t@.skip(q as int)),
        decreases t.len() - q,
    {
        assert(t@.skip(q as int).drop_first() == t@.skip(q + 1));
        assert(t@.skip(q as int)[0] == t@[q as int]);
        name.push(t[q]);
        q += 1;
    }
    assert(alnum_prefix(t@.skip(q as int)) == Seq::<char>::empty());
    assert(name@ + Seq::<char>::empty() == name@);
    let lower = ascii_lowercase(&name);
    let br: Vec<char> = vec!['b', 'r'];
    chars_eq(&lower, &br)
}

pub fn strip_tag_chars(s: &[char]) -> (r: Vec<char>)
    ensures
        r@ == strip_tags(s@),
{
    let mut out: Vec<char> = Vec::new();
    let mut i: usize = 0;
    assert(s@.skip(0) == s@);
    while i < s.len()
        invariant
            i <= s.len(),
            strip_tags(s@) == out@ + strip_tags(s@.skip(i as int)),
        decreases s.len() - i,
    {
        let ghost rest = s@.skip(i as int);
        assert(rest[0] == s@[i as int]);
        if s[i] != '<' {
            assert(rest.drop_first() == s@.skip(i + 1));
            out.push(s[i]);
            i += 1;
        } else {
            let ghost after = rest.drop_first();
            assert(after == s@.skip(i + 1));
            proof {
                lemma_find_char(after, '>');
            }
            match find_char_in(s, i + 1, '>') {
                Some(j) => {
                    let tag = slice_range(s, i + 1, j);
                    assert(tag@ == after.take(j - i - 1));
                    assert(after.skip(j - i - 1 + 1) == s@.skip(j + 1));
                    if is_br_tag_chars(&tag) {
                        out.push('\n');
                    }
                    i = j + 1;
                },
                None => {
                    let tag = slice_range(s, i + 1, s.len());
                    assert(tag@ == after);
                    if is_br_tag_chars(&tag) {
                        out.push('\n');
                    }
                    assert(s@.skip(s.len() as int) == Seq::<char>::empty());
                    i = s.len();
                },
            }
        }
    }
    assert(s@.skip(i as int) == Seq::<char>::empty());
    out
}

/// The runs of non-white-space characters of `s`, joined by single spaces
/// (`split_whitespace` then `join(" ")`). `started`: a word was already
/// written; `pending`: white space followed it.
pub open spec fn collapse_from(s: Seq<char>, started: bool, pending: bool) -> Seq<char>
    decreases s.len(),
{
    if s.len() == 0 {
        Seq::empty()
    } else if is_white_space(s[0]) {
        collapse_from(s.drop_first(), started, started)
    } else {
        (if pending { seq![' '] } else { Seq::empty() }) + seq![s[0]] + collapse_from(
            s.drop_first(),
            true,
            false,
        )
    }
}

pub open spec fn collapse_spaces(s: Seq<char>) -> Seq<char> {
    collapse_from(s, false, false)
}

fn collapse_chars(s: &[char]) -> (r: Vec<char>)
    ensures
        r@ == collapse_spaces(s@),
{
    let mut out: Vec<char> = Vec::new();
    let mut started = false;
    let mut pending = false;
    let mut i: usize = 0;
    assert(s@.skip(0) == s@);
    while i < s.len()
        invariant
            i <= s.len(),
            collapse_spaces(s@) == out@ + collapse_from(s@.skip(i as int), started, pending),
        decreases s.len() - i,
    {
        let ghost rest = s@.skip(i as int);
        assert(rest[0] == s@[i as int]);
        assert(rest.drop_first() == s@.skip(i + 1));
        if char_is_white_space(s[i]) {
            pending = started;
        } else {
            if pending {
                out.push(' ');
            }
            out.push(s[i]);
            started = true;
            pending = false;
        }
        i += 1;
    }
    assert(s@.skip(i as int) == Seq::<char>::empty());
    out
}

/// The lines kept, each collapsed, with every run of blank lines shortened
/// to one. `prev_blank`: the last line kept was blank.
pub open spec fn tidy_lines(lines: Seq<Seq<char>>, prev_blank: bool) -> Seq<Seq<char>>
    decreases lines.len(),
{
    if lines.len() == 0 {
        Seq::empty()
    } else {
        let c = collapse_spaces(lines[0]);
        let blank = c.len() == 0;
        if blank && prev_blank {
            tidy_lines(lines.drop_first(), prev_blank)
        } else {
            seq![c] + tidy_lines(lines.drop_first(), blank)
        }
    }
}

/// The lines joined by `\n`.
pub open spec fn join_lines(ls: Seq<Seq<char>>) -> Seq<char>
    decreases ls.len(),
{
    if ls.len() == 0 {
        Seq::empty()
    } else if ls.len() == 1 {
        ls[0]
    } else {
        join_lines(ls.drop_last()) + seq!['\n'] + ls.last()
    }
}

pub open spec fn spec_normalize_whitespace(s: Seq<char>) -> Seq<char> {
    trim(join_lines(tidy_lines(split_on(s, '\n'), false)))
}

proof fn lemma_tidy_split(a: Seq<Seq<char>>, b: Seq<Seq<char>>, lines: Seq<Seq<char>>, pb: bool)
    requires
        lines.len() > 0,
    ensures
        tidy_lines(lines, pb) == (if collapse_spaces(lines[0]).len() == 0 && pb {
            tidy_lines(lines.drop_first(), pb)
        } else {
            seq![collapse_spaces(lines[0])] + tidy_lines(
                lines.drop_first(),
                collapse_spaces(lines[0]).len() == 0,
            )
        }),
{
}

/// Collapses white space inside each line, shortens runs of blank lines to
/// one, and trims the whole.
pub fn normalize_whitespace(s: &str) -> (r: String)
    ensures
        r@ == spec_normalize_whitespace(s@),
{
    let v = chars_of(s);
    let r = normalize_chars(&v);
    string_from_chars(&r)
}

pub fn normalize_chars(s: &[char]) -> (r: Vec<char>)
    ensures
        r@ == spec_normalize_whitespace(s@),
{
    let lines = split_chars(s, '\n');
    let ghost all = split_on(s@, '\n');
    let ghost mut kept: Seq<Seq<char>> = Seq::empty();
    let mut joined: Vec<char> = Vec::new();
    let mut n_kept: usize = 0;
    let mut prev_blank = false;
    let mut k: usize = 0;
    assert(all.skip(0) == all);
    while k < lines.len()
        invariant
            k <= lines.len() == all.len(),
            forall|i: int| 0 <= i < lines.len() ==> #[trigger] lines[i]@ == all[i],
            tidy_lines(all, false) == kept + tidy_lines(all.skip(k as int), prev_blank),
            joined@ == join_lines(kept),
            n_kept == kept.len(),
            n_kept <= k,
        decreases lines.len() - k,
    {
        let ghost rest = all.skip(k as int);
        assert(rest[0] == all[k as int]);
        assert(rest.drop_first() == all.skip(k + 1));
        proof {
            lemma_tidy_split(kept, kept, rest, prev_blank);
        }
        let c = collapse_chars(&lines[k]);
        let blank = c.len() == 0;
        if !(blank && prev_blank) {
            let ghost before = kept;
            if n_kept > 0 {
                joined.push('\n');
            }
            let mut m: usize = 0;
            let ghost j0 = joined@;
            while m < c.len()
                invariant
                    m <= c.len(),
                    joined@ == j0 + c@.take(m as int),
                decreases c.len() - m,
            {
                joined.push(c[m]);
                m += 1;
                assert(c@.take(m as int) == c@.take(m - 1).push(c@[m - 1]));
            }
            assert(c@.take(c.len() as int) == c@);
            proof {
                kept = kept.push(c@);
                assert(kept.drop_last() == before);
                assert(kept.last() == c@);
                assert(seq![c@] + tidy_lines(rest.drop_first(), blank) == seq![c@] + tidy_lines(
                    rest.drop_first(),
                    blank,
                ));
                assert(before + (seq![c@] + tidy_lines(rest.drop_first(), blank)) == kept
                    + tidy_lines(rest.drop_first(), blank));
            }
            n_kept += 1;
            prev_blank = blank;
        }
        k += 1;
    }
    assert(all.skip(k as int) == Seq::<Seq<char>>::empty());
    assert(kept + Seq::<Seq<char>>::empty() == kept);
    trim_chars(&joined)
}

/// The index of the last white-space character of `s`.
pub open spec fn last_white_space(s: Seq<char>) -> Option<int>
    decreases s.len(),
{
    if s.len() == 0 {
        None
    } else if is_white_space(s.last()) {
        Some(s.len() - 1)
    } else {
        last_white_space(s.drop_last())
    }
}

/// The lead of `text`: itself when it has at most `max` characters;
/// otherwise its first `max` characters, cut back to before the last white
/// space (unless that is the first character), trailing white space
/// removed, and `…` appended.
pub open spec fn spec_lead_excerpt(text: Seq<char>, max: nat) -> Seq<char> {
    if text.len() <= max {
        text
    } else {
        let head = text.take(max as int);
        let cut = match last_white_space(head) {
            Some(p) => if p > 0 {
                head.take(p)
            } else {
                head
            },
            None => head,
        };
        trim_end(cut).push('\u{2026}')
    }
}

/// `trim_end` leaves no white space at the end.
proof fn lemma_trim_end_clean(s: Seq<char>)
    ensures
        trim_end(s).len() > 0 ==> !is_white_space(trim_end(s).last()),
    decreases s.len(),
{
    if s.len() > 0 && is_white_space(s.last()) {
        lemma_trim_end_clean(s.drop_last());
    }
}

/// An excerpt has at most `max` characters and the ellipsis; a cut one has
/// no white space before the ellipsis.
pub proof fn lemma_lead_excerpt_len(text: Seq<char>, max: nat)
    ensures
        spec_lead_excerpt(text, max).len() <= max + 1,
        text.len() > max && spec_lead_excerpt(text, max).len() >= 2 ==> !is_white_space(
            spec_lead_excerpt(text, max).drop_last().last(),
        ),
{
    if text.len() > max {
        let head = text.take(max as int);
        lemma_last_white_space(head);
        let cut = match last_white_space(head) {
            Some(p) => if p > 0 {
                head.take(p)
            } else {
                head
            },
            None => head,
        };
        lemma_trim_end_prefix(cut);
        lemma_trim_end_clean(cut);
        assert(spec_lead_excerpt(text, max).drop_last() == trim_end(cut));
    }
}

proof fn lemma_last_white_space(s: Seq<char>)
    ensures
        match last_white_space(s) {
            Some(p) => 0 <= p < s.len() && is_white_space(s[p]),
            None => true,
        },
    decreases s.len(),
{
    if s.len() > 0 && !is_white_space(s.last()) {
        lemma_last_white_space(s.drop_last());
    }
}

pub fn lead_excerpt(text: &str, max_chars: usize) -> (r: String)
    ensures
        r@ == spec_lead_excerpt(text@, max_chars as nat),
        text@.len() <= max_chars ==> r@ == text@,
        text@.len() > max_chars ==> r@.len() <= max_chars + 1 && r@.last() == '\u{2026}'
            && text@.take(r@.len() - 1) == r@.drop_last(),
        text@.len() > max_chars && r@.len() >= 2 ==> !is_white_space(r@.drop_last().last()),
{
    let v = chars_of(text);
    let r = lead_excerpt_chars(&v, max_chars);
    string_from_chars(&r)
}

pub fn lead_excerpt_chars(text: &[char], max_chars: usize) -> (r: Vec<char>)
    ensures
        r@ == spec_lead_excerpt(text@, max_chars as nat),
        text@.len() <= max_chars ==> r@ == text@,
        text@.len() > max_chars ==> r@.len() <= max_chars + 1 && r@.last() == '\u{2026}'
            && text@.take(r@.len() - 1) == r@.drop_last(),
        text@.len() > max_chars && r@.len() >= 2 ==> !is_white_space(r@.drop_last().last()),
{
    if text.len() <= max_chars {
        return slice_range(text, 0, text.len());
    }
    let ghost head = text@.take(max_chars as int);
    let mut p: usize = max_chars;
    assert(head.take(max_chars as int) == head);
    while p > 0 && !char_is_white_space(text[p - 1])
        invariant
            p <= max_chars < text.len(),
            head == text@.take(max_chars as int),
            last_white_space(head) == last_white_space(head.take(p as int)),
        decreases p,
    {
        assert(head.take(p as int).drop_last() == head.take(p - 1));
        p -= 1;
    }
    let end: usize = if p > 1 {
        assert(head.take(p as int).last() == text@[p - 1]);
        assert(last_white_space(head) == Some(p - 1));
        p - 1
    } else {
        proof {
            if p == 1 {
                assert(head.take(1).last() == text@[0]);
            }
        }
        max_chars
    };
    let cut = slice_range(text, 0, end);
    assert(cut@ == head.take(end as int));
    let mut r = trim_end_chars(&cut);
    proof {
        lemma_trim_end_prefix(cut@);
    }
    proof {
        lemma_lead_excerpt_len(text@, max_chars as nat);
    }
    r.push('\u{2026}');
    assert(r@.drop_last() == trim_end(cut@));
    r
}

/// Plain text of an HTML fragment: tags removed (line break tags leave a
/// line break), entities decoded, white space tidied.
pub open spec fn spec_strip_html_to_text(html: Seq<char>) -> Seq<char> {
    spec_normalize_whitespace(spec_unescape_entities(strip_tags(html)))
}

pub fn strip_html_to_text(html: &str) -> (r: String)
    ensures
        r@ == spec_strip_html_to_text(html@),
{
    let v = chars_of(html);
    let stripped = strip_tag_chars(&v);
    let unescaped = unescape_chars(&stripped);
    let r = normalize_chars(&unescaped);
    string_from_chars(&r)
}

} // verus!
