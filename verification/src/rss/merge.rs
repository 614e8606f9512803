//! Merging the items of several feeds: duplicates dropped by a normalised
//! link (or the title when there is no link), newest first.
use vstd::prelude::*;
use crate::error::Error;
use crate::model::NewsItem;
use crate::strutil::{
    chars_eq, chars_of, chars_split_once, chars_starts_with, slice_range, split_chars, split_on,
    split_once, starts_with, string_from_chars,
};

verus! {

/// The pieces joined with `sep` between them (`[T]::join`).
pub open spec fn join_sep(parts: Seq<Seq<char>>, sep: char) -> Seq<char>
    decreases parts.len(),
{
    if parts.len() == 0 {
        Seq::empty()
    } else if parts.len() == 1 {
        parts[0]
    } else {
        join_sep(parts.drop_last(), sep) + seq![sep] + parts.last()
    }
}

pub open spec fn utm_prefix() -> Seq<char> {
    seq!['u', 't', 'm', '_']
}

/// The query parameters that are not `utm_` tracking parameters, in order.
pub open spec fn kept_params(parts: Seq<Seq<char>>) -> Seq<Seq<char>>
    decreases parts.len(),
{
    if parts.len() == 0 {
        Seq::empty()
    } else {
        kept_params(parts.drop_last()) + (if starts_with(parts.last(), utm_prefix()) {
            Seq::empty()
        } else {
            seq![parts.last()]
        })
    }
}

/// A link with its `utm_` parameters removed; the rest of the query, which
/// may hold the article id, stays.
pub open spec fn spec_dedup_url_key(url: Seq<char>) -> Seq<char> {
    match split_once(url, '?') {
        None => url,
        Some((path, query)) => {
            let kept = kept_params(split_on(query, '&'));
            if kept.len() == 0 {
                path
            } else {
                path + seq!['?'] + join_sep(kept, '&')
            }
        },
    }
}

pub fn dedup_url_key(url: &str) -> (r: String)
    ensures
        r@ == spec_dedup_url_key(url@),
{
    let v = chars_of(url);
    let r = dedup_url_key_chars(&v);
    string_from_chars(&r)
}

pub fn dedup_url_key_chars(url: &[char]) -> (r: Vec<char>)
    ensures
        r@ == spec_dedup_url_key(url@),
{
    let (path, query) = match chars_split_once(url, '?') {
        None => {
            return slice_range(url, 0, url.len());
        },
        Some(pq) => pq,
    };
    let parts = split_chars(&query, '&');
    let ghost all = split_on(query@, '&');
    let utm: Vec<char> = vec!['u', 't', 'm', '_'];
    let mut joined: Vec<char> = Vec::new();
    let ghost mut kept: Seq<Seq<char>> = Seq::empty();
    let mut n_kept: usize = 0;
    let mut i: usize = 0;
    while i < parts.len()
        invariant
            i <= parts.len() == all.len(),
            forall|k: int| 0 <= k < parts.len() ==> #[trigger] parts[k]@ == all[k],
            utm@ == utm_prefix(),
            kept == kept_params(all.take(i as int)),
            joined@ == join_sep(kept, '&'),
            n_kept == kept.len(),
            n_kept <= i,
        decreases parts.len() - i,
    {
        assert(all.take(i + 1).drop_last() == all.take(i as int));
        assert(all.take(i + 1).last() == parts[i as int]@);
        if !chars_starts_with(&parts[i], &utm) {
            let ghost before = kept;
            if n_kept > 0 {
                joined.push('&');
            }
            let mut m: usize = 0;
            let ghost j0 = joined@;
            while m < parts[i].len()
                invariant
                    i < parts.len(),
                    m <= parts[i as int].len(),
                    joined@ == j0 + parts[i as int]@.take(m as int),
                decreases parts[i as int].len() - m,
            {
                joined.push(parts[i][m]);
                m += 1;
                assert(parts[i as int]@.take(m as int) == parts[i as int]@.take(m - 1).push(
                    parts[i as int]@[m - 1],
                ));
            }
            assert(parts[i as int]@.take(parts[i as int].len() as int) == parts[i as int]@);
            proof {
                kept = kept.push(parts[i as int]@);
                assert(kept.drop_last() == before);
            }
            n_kept += 1;
        } else {
            assert(kept + Seq::<Seq<char>>::empty() == kept);
        }
        i += 1;
    }
    assert(all.take(parts.len() as int) == all);
    if n_kept == 0 {
        path
    } else {
        let mut r = path;
        r.push('?');
        let mut m: usize = 0;
        let ghost r0 = r@;
        while m < joined.len()
            invariant
                m <= joined.len(),
                r@ == r0 + joined@.take(m as int),
            decreases joined.len() - m,
        {
            r.push(joined[m]);
            m += 1;
            assert(joined@.take(m as int) == joined@.take(m - 1).push(joined@[m - 1]));
        }
        assert(joined@.take(joined.len() as int) == joined@);
        r
    }
}

/// The key that tells two items apart: the normalised link, or the title
/// when there is no link.
pub open spec fn item_key(it: NewsItem) -> Seq<char> {
    if it.url@.len() == 0 {
        seq!['t', ':'] + it.title@
    } else {
        seq!['u', ':'] + spec_dedup_url_key(it.url@)
    }
}

pub fn item_key_chars(it: &NewsItem) -> (r: Vec<char>)
    ensures
        r@ == item_key(*it),
{
    let url = chars_of(it.url.as_str());
    let mut r: Vec<char> = Vec::new();
    let rest = if url.len() == 0 {
        r.push('t');
        r.push(':');
        chars_of(it.title.as_str())
    } else {
        r.push('u');
        r.push(':');
        dedup_url_key_chars(&url)
    };
    let mut m: usize = 0;
    let ghost r0 = r@;
    while m < rest.len()
        invariant
            m <= rest.len(),
            r@ == r0 + rest@.take(m as int),
        decreases rest.len() - m,
    {
        r.push(rest[m]);
        m += 1;
        assert(rest@.take(m as int) == rest@.take(m - 1).push(rest@[m - 1]));
    }
    assert(rest@.take(rest.len() as int) == rest@);
    r
}

/// The items of all feeds, feed by feed.
pub open spec fn flatten(ps: Seq<Seq<NewsItem>>) -> Seq<NewsItem>
    decreases ps.len(),
{
    if ps.len() == 0 {
        Seq::empty()
    } else {
        flatten(ps.drop_last()) + ps.last()
    }
}

/// Each item whose key no earlier item had, in order.
pub open spec fn first_occurrences(s: Seq<NewsItem>) -> Seq<NewsItem>
    decreases s.len(),
{
    if s.len() == 0 {
        Seq::empty()
    } else {
        first_occurrences(s.drop_last()) + (if exists|j: int|
            0 <= j < s.len() - 1 && #[trigger] item_key(s[j]) == item_key(s.last()) {
            Seq::empty()
        } else {
            seq![s.last()]
        })
    }
}

/// Lexicographic order of texts (the order of `String`).
pub open spec fn text_lt(a: Seq<char>, b: Seq<char>) -> bool
    decreases a.len(),
{
    if b.len() == 0 {
        false
    } else if a.len() == 0 {
        true
    } else if a[0] != b[0] {
        a[0] < b[0]
    } else {
        text_lt(a.drop_first(), b.drop_first())
    }
}

pub proof fn lemma_text_lt_irreflexive(a: Seq<char>)
    ensures
        !text_lt(a, a),
    decreases a.len(),
{
    if a.len() > 0 {
        lemma_text_lt_irreflexive(a.drop_first());
    }
}

pub proof fn lemma_text_lt_transitive(a: Seq<char>, b: Seq<char>, c: Seq<char>)
    requires
        text_lt(a, b),
        text_lt(b, c),
    ensures
        text_lt(a, c),
    decreases a.len(),
{
    if a.len() > 0 && b.len() > 0 && c.len() > 0 {
        if a[0] == b[0] && b[0] == c[0] {
            lemma_text_lt_transitive(a.drop_first(), b.drop_first(), c.drop_first());
        }
    }
}

pub proof fn lemma_text_lt_total(a: Seq<char>, b: Seq<char>)
    ensures
        text_lt(a, b) || a == b || text_lt(b, a),
    decreases a.len(),
{
    if a.len() > 0 && b.len() > 0 && a[0] == b[0] {
        lemma_text_lt_total(a.drop_first(), b.drop_first());
        if a.drop_first() == b.drop_first() {
            assert(a == seq![a[0]] + a.drop_first());
            assert(b == seq![b[0]] + b.drop_first());
        }
    } else if a.len() == 0 && b.len() == 0 {
        assert(a == b);
    }
}

pub proof fn lemma_text_lt_asymmetric(a: Seq<char>, b: Seq<char>)
    requires
        text_lt(a, b),
    ensures
        !text_lt(b, a),
{
    if text_lt(b, a) {
        lemma_text_lt_transitive(a, b, a);
        lemma_text_lt_irreflexive(a);
    }
}

/// `x` placed after every item at least as new and before the first older
/// one, so that items of equal date keep their order.
pub open spec fn insert_newest_first(sorted: Seq<NewsItem>, x: NewsItem) -> Seq<NewsItem>
    decreases sorted.len(),
{
    if sorted.len() == 0 {
        seq![x]
    } else if text_lt(sorted[0].published@, x.published@) {
        seq![x] + sorted
    } else {
        seq![sorted[0]] + insert_newest_first(sorted.drop_first(), x)
    }
}

/// The stable sort by publication time, newest first (`sort_by` on the
/// reversed comparison).
pub open spec fn sort_newest_first(s: Seq<NewsItem>) -> Seq<NewsItem>
    decreases s.len(),
{
    if s.len() == 0 {
        Seq::empty()
    } else {
        insert_newest_first(sort_newest_first(s.drop_last()), s.last())
    }
}

pub open spec fn spec_merge_feeds(ps: Seq<Seq<NewsItem>>) -> Seq<NewsItem> {
    sort_newest_first(first_occurrences(flatten(ps)))
}

/// Inserting at the first older item is inserting at that index.
proof fn lemma_insert_at(sorted: Seq<NewsItem>, x: NewsItem, p: int)
    requires
        0 <= p <= sorted.len(),
        forall|k: int| 0 <= k < p ==> !text_lt(#[trigger] sorted[k].published@, x.published@),
        p < sorted.len() ==> text_lt(sorted[p].published@, x.published@),
    ensures
        insert_newest_first(sorted, x) == sorted.insert(p, x),
    decreases sorted.len(),
{
    if sorted.len() == 0 {
        assert(sorted.insert(p, x) == seq![x]);
    } else if p == 0 {
        assert(sorted.insert(0, x) == seq![x] + sorted);
    } else {
        let t = sorted.drop_first();
        assert forall|k: int| 0 <= k < p - 1 implies !text_lt(#[trigger] t[k].published@, x.published@) by {
            assert(t[k] == sorted[k + 1]);
        }
        if p - 1 < t.len() {
            assert(t[p - 1] == sorted[p]);
        }
        lemma_insert_at(t, x, p - 1);
        assert(seq![sorted[0]] + t.insert(p - 1, x) == sorted.insert(p, x));
    }
}

pub open spec fn newest_first(s: Seq<NewsItem>) -> bool {
    forall|i: int, j: int| 0 <= i < j < s.len() ==> !text_lt(#[trigger] s[i].published@, #[trigger] s[j].published@)
}

proof fn lemma_insert_keeps_order(sorted: Seq<NewsItem>, x: NewsItem, p: int)
    requires
        newest_first(sorted),
        0 <= p <= sorted.len(),
        forall|k: int| 0 <= k < p ==> !text_lt(#[trigger] sorted[k].published@, x.published@),
        p < sorted.len() ==> text_lt(sorted[p].published@, x.published@),
    ensures
        newest_first(sorted.insert(p, x)),
{
    let t = sorted.insert(p, x);
    assert forall|i: int, j: int| 0 <= i < j < t.len() implies !text_lt(
        #[trigger] t[i].published@,
        #[trigger] t[j].published@,
    ) by {
        if i < p && j == p {
            assert(t[i] == sorted[i]);
        } else if i == p && j > p {
            let y = sorted[j - 1];
            assert(t[j] == y);
            if j - 1 == p {
                lemma_text_lt_irreflexive(y.published@);
            }
            assert(!text_lt(sorted[p].published@, y.published@));
            lemma_text_lt_total(sorted[p].published@, y.published@);
            if y.published@ != sorted[p].published@ {
                lemma_text_lt_transitive(y.published@, sorted[p].published@, x.published@);
                lemma_text_lt_asymmetric(y.published@, x.published@);
            } else {
                lemma_text_lt_asymmetric(sorted[p].published@, x.published@);
            }
        } else {
            let a = if i < p { i } else { i - 1 };
            let b = if j < p { j } else { j - 1 };
            assert(t[i] == sorted[a]);
            assert(t[j] == sorted[b]);
        }
    }
}

fn published_lt(a: &NewsItem, b: &NewsItem) -> (r: bool)
    ensures
        r == text_lt(a.published@, b.published@),
{
    let x = chars_of(a.published.as_str());
    let y = chars_of(b.published.as_str());
    let mut i: usize = 0;
    assert(x@.skip(0) == x@);
    assert(y@.skip(0) == y@);
    while i < x.len() && i < y.len() && x[i] == y[i]
        invariant
            i <= x.len(),
            i <= y.len(),
            text_lt(x@, y@) == text_lt(x@.skip(i as int), y@.skip(i as int)),
        decreases x.len() - i,
    {
        assert(x@.skip(i as int).drop_first() == x@.skip(i + 1));
        assert(y@.skip(i as int).drop_first() == y@.skip(i + 1));
        i += 1;
    }
    if i == y.len() {
        false
    } else if i == x.len() {
        true
    } else {
        x[i] < y[i]
    }
}

/// Some item of `s` has key `k`.
pub open spec fn has_key(s: Seq<NewsItem>, k: Seq<char>) -> bool {
    exists|j: int| 0 <= j < s.len() && item_key(#[trigger] s[j]) == k
}

proof fn lemma_has_key_push(s: Seq<NewsItem>, x: NewsItem, k: Seq<char>)
    ensures
        has_key(s.push(x), k) == (has_key(s, k) || item_key(x) == k),
{
    let t = s.push(x);
    if has_key(t, k) {
        let j = choose|j: int| 0 <= j < t.len() && item_key(#[trigger] t[j]) == k;
        if j < s.len() {
            assert(t[j] == s[j]);
        }
    }
    if has_key(s, k) {
        let j = choose|j: int| 0 <= j < s.len() && item_key(#[trigger] s[j]) == k;
        assert(t[j] == s[j]);
    }
    if item_key(x) == k {
        assert(t[s.len() as int] == x);
    }
}

proof fn lemma_first_occurrences_step(s: Seq<NewsItem>, x: NewsItem)
    ensures
        first_occurrences(s.push(x)) == first_occurrences(s) + (if has_key(s, item_key(x)) {
            Seq::<NewsItem>::empty()
        } else {
            seq![x]
        }),
{
    let t = s.push(x);
    assert(t.drop_last() == s);
    assert(t.last() == x);
    if has_key(s, item_key(x)) {
        let j = choose|j: int| 0 <= j < s.len() && item_key(#[trigger] s[j]) == item_key(x);
        assert(t[j] == s[j]);
    }
    if exists|j: int| 0 <= j < t.len() - 1 && #[trigger] item_key(t[j]) == item_key(t.last()) {
        let j = choose|j: int| 0 <= j < t.len() - 1 && #[trigger] item_key(t[j]) == item_key(t.last());
        assert(t[j] == s[j]);
    }
}

/// The items of all feeds, feed by feed.
pub fn flatten_feeds(per_feed: &Vec<Vec<NewsItem>>) -> (r: Vec<NewsItem>)
    ensures
        r@ == flatten(per_feed@.map_values(|v: Vec<NewsItem>| v@)),
{
    let ghost ps = per_feed@.map_values(|v: Vec<NewsItem>| v@);
    let mut out: Vec<NewsItem> = Vec::new();
    let mut f: usize = 0;
    while f < per_feed.len()
        invariant
            f <= per_feed.len(),
            ps == per_feed@.map_values(|v: Vec<NewsItem>| v@),
            out@ == flatten(ps.take(f as int)),
        decreases per_feed.len() - f,
    {
        assert(ps.take(f + 1).drop_last() == ps.take(f as int));
        assert(ps.take(f + 1).last() == per_feed[f as int]@);
        let ghost before = out@;
        let mut k: usize = 0;
        while k < per_feed[f].len()
            invariant
                f < per_feed.len(),
                k <= per_feed[f as int].len(),
                out@ == before + per_feed[f as int]@.take(k as int),
            decreases per_feed[f as int].len() - k,
        {
            out.push(per_feed[f][k].clone());
            k += 1;
            assert(per_feed[f as int]@.take(k as int) == per_feed[f as int]@.take(k - 1).push(
                per_feed[f as int]@[k - 1],
            ));
        }
        assert(per_feed[f as int]@.take(k as int) == per_feed[f as int]@);
        f += 1;
    }
    assert(ps.take(per_feed.len() as int) == ps);
    out
}

/// The first item of each key, in order.
pub fn first_items(items: &Vec<NewsItem>) -> (r: Vec<NewsItem>)
    ensures
        r@ == first_occurrences(items@),
{
    let mut unique: Vec<NewsItem> = Vec::new();
    let mut keys: Vec<Vec<char>> = Vec::new();
    let mut i: usize = 0;
    while i < items.len()
        invariant
            i <= items.len(),
            unique@ == first_occurrences(items@.take(i as int)),
            keys.len() == unique.len(),
            forall|m: int| 0 <= m < keys.len() ==> #[trigger] keys[m]@ == item_key(unique@[m]),
            forall|k: Seq<char>| #[trigger] has_key(unique@, k) == has_key(items@.take(i as int), k),
        decreases items.len() - i,
    {
        let x = &items[i];
        let key = item_key_chars(x);
        let mut seen = false;
        let mut m: usize = 0;
        while m < keys.len()
            invariant
                m <= keys.len() == unique.len(),
                forall|q: int| 0 <= q < keys.len() ==> #[trigger] keys[q]@ == item_key(unique@[q]),
                seen <==> exists|q: int| 0 <= q < m && item_key(#[trigger] unique@[q]) == key@,
            decreases keys.len() - m,
        {
            if chars_eq(&keys[m], &key) {
                seen = true;
            }
            m += 1;
        }
        let ghost pre = items@.take(i as int);
        proof {
            assert(seen == has_key(unique@, key@));
            assert(items@.take(i + 1) == pre.push(*x));
            lemma_first_occurrences_step(pre, *x);
        }
        if !seen {
            let ghost u0 = unique@;
            unique.push(x.clone());
            keys.push(key);
            proof {
                assert(unique@ == u0.push(*x));
                assert forall|k: Seq<char>| #[trigger] has_key(unique@, k) == has_key(
                    items@.take(i + 1),
                    k,
                ) by {
                    lemma_has_key_push(u0, *x, k);
                    lemma_has_key_push(pre, *x, k);
                }
            }
        } else {
            proof {
                assert(first_occurrences(pre) + Seq::<NewsItem>::empty() == first_occurrences(pre));
                assert forall|k: Seq<char>| #[trigger] has_key(unique@, k) == has_key(
                    items@.take(i + 1),
                    k,
                ) by {
                    lemma_has_key_push(pre, *x, k);
                }
            }
        }
        i += 1;
    }
    assert(items@.take(items.len() as int) == items@);
    unique
}

/// Sorts newest first, stably.
pub fn sort_by_published(items: &Vec<NewsItem>) -> (r: Vec<NewsItem>)
    ensures
        r@ == sort_newest_first(items@),
{
    let mut out: Vec<NewsItem> = Vec::new();
    let mut i: usize = 0;
    while i < items.len()
        invariant
            i <= items.len(),
            out@ == sort_newest_first(items@.take(i as int)),
        decreases items.len() - i,
    {
        let x = items[i].clone();
        let mut p: usize = 0;
        while p < out.len() && !published_lt(&out[p], &x)
            invariant
                p <= out.len(),
                forall|q: int| 0 <= q < p ==> !text_lt(#[trigger] out@[q].published@, x.published@),
            decreases out.len() - p,
        {
            p += 1;
        }
        proof {
            lemma_insert_at(out@, x, p as int);
            assert(items@.take(i + 1).drop_last() == items@.take(i as int));
            assert(items@.take(i + 1).last() == x);
        }
        out.insert(p, x);
        i += 1;
    }
    assert(items@.take(items.len() as int) == items@);
    out
}

/// Merges the items of the feeds that answered: the first item of each key
/// stays, and the result is sorted newest first; items of equal date, and
/// undated items (which sort last), keep their order.
pub fn merge_feeds(per_feed: Vec<Vec<NewsItem>>) -> (r: Vec<NewsItem>)
    ensures
        r@ == spec_merge_feeds(per_feed@.map_values(|v: Vec<NewsItem>| v@)),
{
    let all = flatten_feeds(&per_feed);
    let unique = first_items(&all);
    sort_by_published(&unique)
}

/// The news list from the feeds that answered (a feed that failed is simply
/// absent): an error when none answered, the merged items otherwise, even
/// when they are none.
pub fn finish(per_feed: Vec<Vec<NewsItem>>) -> (r: Result<Vec<NewsItem>, Error>)
    ensures
        per_feed@.len() == 0 ==> (r matches Err(Error::Data(m)) && m@ == "all news feeds failed"@),
        per_feed@.len() > 0 ==> (r matches Ok(v) && v@ == spec_merge_feeds(
            per_feed@.map_values(|v: Vec<NewsItem>| v@),
        )),
{
    if per_feed.len() == 0 {
        return Err(Error::Data("all news feeds failed".to_string()));
    }
    Ok(merge_feeds(per_feed))
}

/// No two items share a key.
pub open spec fn keys_distinct(s: Seq<NewsItem>) -> bool {
    forall|i: int, j: int| 0 <= i < j < s.len() ==> item_key(#[trigger] s[i]) != item_key(#[trigger] s[j])
}

/// Where `insert_newest_first` puts `x`.
spec fn insert_pos(sorted: Seq<NewsItem>, x: NewsItem) -> int
    decreases sorted.len(),
{
    if sorted.len() == 0 {
        0
    } else if text_lt(sorted[0].published@, x.published@) {
        0
    } else {
        1 + insert_pos(sorted.drop_first(), x)
    }
}

proof fn lemma_insert_pos(sorted: Seq<NewsItem>, x: NewsItem)
    ensures
        0 <= insert_pos(sorted, x) <= sorted.len(),
        forall|k: int| 0 <= k < insert_pos(sorted, x) ==> !text_lt(#[trigger] sorted[k].published@, x.published@),
        insert_pos(sorted, x) < sorted.len() ==> text_lt(sorted[insert_pos(sorted, x)].published@, x.published@),
    decreases sorted.len(),
{
    if sorted.len() > 0 && !text_lt(sorted[0].published@, x.published@) {
        let t = sorted.drop_first();
        lemma_insert_pos(t, x);
        assert forall|k: int| 0 <= k < insert_pos(sorted, x) implies !text_lt(#[trigger] sorted[k].published@, x.published@) by {
            if k > 0 {
                assert(sorted[k] == t[k - 1]);
            }
        }
        if insert_pos(sorted, x) < sorted.len() {
            assert(sorted[insert_pos(sorted, x)] == t[insert_pos(t, x)]);
        }
    }
}

proof fn lemma_sort_newest_first(s: Seq<NewsItem>)
    ensures
        newest_first(sort_newest_first(s)),
        sort_newest_first(s).len() == s.len(),
        forall|k: Seq<char>| #[trigger] has_key(sort_newest_first(s), k) == has_key(s, k),
        forall|y: NewsItem| #[trigger] sort_newest_first(s).contains(y) == s.contains(y),
        keys_distinct(s) ==> keys_distinct(sort_newest_first(s)),
    decreases s.len(),
{
    if s.len() > 0 {
        let init = s.drop_last();
        let x = s.last();
        lemma_sort_newest_first(init);
        let sorted = sort_newest_first(init);
        lemma_insert_pos(sorted, x);
        let p = insert_pos(sorted, x);
        lemma_insert_at(sorted, x, p);
        lemma_insert_keeps_order(sorted, x, p);
        let t = sorted.insert(p, x);
        assert(s == init.push(x));
        assert forall|k: Seq<char>| #[trigger] has_key(t, k) == has_key(s, k) by {
            lemma_has_key_push(init, x, k);
            if has_key(t, k) {
                let j = choose|j: int| 0 <= j < t.len() && item_key(#[trigger] t[j]) == k;
                if j < p {
                    assert(t[j] == sorted[j]);
                } else if j > p {
                    assert(t[j] == sorted[j - 1]);
                }
            }
            if has_key(sorted, k) {
                let j = choose|j: int| 0 <= j < sorted.len() && item_key(#[trigger] sorted[j]) == k;
                if j < p {
                    assert(t[j] == sorted[j]);
                } else {
                    assert(t[j + 1] == sorted[j]);
                }
            }
            if item_key(x) == k {
                assert(t[p] == x);
            }
        }
        assert forall|y: NewsItem| #[trigger] t.contains(y) == s.contains(y) by {
            if t.contains(y) {
                let j = choose|j: int| 0 <= j < t.len() && t[j] == y;
                if j < p {
                    assert(t[j] == sorted[j]);
                    assert(sorted.contains(y));
                    let q = choose|q: int| 0 <= q < init.len() && init[q] == y;
                    assert(s[q] == y);
                } else if j > p {
                    assert(t[j] == sorted[j - 1]);
                    assert(sorted.contains(y));
                    let q = choose|q: int| 0 <= q < init.len() && init[q] == y;
                    assert(s[q] == y);
                } else {
                    assert(s[s.len() - 1] == y);
                }
            }
            if s.contains(y) {
                let q = choose|q: int| 0 <= q < s.len() && s[q] == y;
                if q < init.len() {
                    assert(init[q] == y);
                    assert(init.contains(y));
                    assert(sorted.contains(y));
                    let j = choose|j: int| 0 <= j < sorted.len() && sorted[j] == y;
                    if j < p {
                        assert(t[j] == y);
                    } else {
                        assert(t[j + 1] == y);
                    }
                } else {
                    assert(t[p] == y);
                }
            }
        }
        if keys_distinct(s) {
            assert(keys_distinct(init)) by {
                assert forall|i: int, j: int| 0 <= i < j < init.len() implies item_key(#[trigger] init[i]) != item_key(#[trigger] init[j]) by {
                    assert(init[i] == s[i] && init[j] == s[j]);
                }
            }
            assert(!has_key(init, item_key(x))) by {
                if has_key(init, item_key(x)) {
                    let j = choose|j: int| 0 <= j < init.len() && item_key(#[trigger] init[j]) == item_key(x);
                    assert(init[j] == s[j]);
                    assert(s[s.len() - 1] == x);
                }
            }
            assert forall|i: int, j: int| 0 <= i < j < t.len() implies item_key(#[trigger] t[i]) != item_key(#[trigger] t[j]) by {
                if i == p {
                    assert(t[j] == sorted[j - 1]);
                    assert(!has_key(sorted, item_key(x)));
                } else if j == p {
                    assert(t[i] == sorted[i]);
                    assert(!has_key(sorted, item_key(x)));
                } else {
                    let a = if i < p { i } else { i - 1 };
                    let b = if j < p { j } else { j - 1 };
                    assert(t[i] == sorted[a]);
                    assert(t[j] == sorted[b]);
                }
            }
        }
    }
}

proof fn lemma_first_occurrences(s: Seq<NewsItem>)
    ensures
        keys_distinct(first_occurrences(s)),
        forall|k: Seq<char>| #[trigger] has_key(first_occurrences(s), k) == has_key(s, k),
        forall|y: NewsItem| #[trigger] first_occurrences(s).contains(y) ==> s.contains(y),
    decreases s.len(),
{
    if s.len() > 0 {
        let init = s.drop_last();
        let x = s.last();
        assert(s == init.push(x));
        lemma_first_occurrences(init);
        lemma_first_occurrences_step(init, x);
        let f = first_occurrences(init);
        assert forall|k: Seq<char>| #[trigger] has_key(first_occurrences(s), k) == has_key(s, k) by {
            lemma_has_key_push(init, x, k);
            if !has_key(init, item_key(x)) {
                lemma_has_key_push(f, x, k);
                assert(first_occurrences(s) == f.push(x));
            } else {
                assert(first_occurrences(s) == f);
            }
        }
        assert forall|y: NewsItem| #[trigger] first_occurrences(s).contains(y) implies s.contains(y) by {
            let fs = first_occurrences(s);
            let j = choose|j: int| 0 <= j < fs.len() && fs[j] == y;
            if j < f.len() {
                assert(fs[j] == f[j]);
                assert(f.contains(y));
                let q = choose|q: int| 0 <= q < init.len() && init[q] == y;
                assert(s[q] == y);
            } else {
                assert(s[s.len() - 1] == y);
            }
        }
        if !has_key(init, item_key(x)) {
            let fs = f.push(x);
            assert(first_occurrences(s) == fs);
            assert forall|i: int, j: int| 0 <= i < j < fs.len() implies item_key(#[trigger] fs[i]) != item_key(#[trigger] fs[j]) by {
                if j == f.len() {
                    assert(fs[i] == f[i]);
                    assert(!has_key(f, item_key(x)));
                } else {
                    assert(fs[i] == f[i] && fs[j] == f[j]);
                }
            }
        } else {
            assert(first_occurrences(s) == f + Seq::<NewsItem>::empty());
            assert(f + Seq::<NewsItem>::empty() == f);
        }
    }
}

/// The merged list runs newest first: no item is older than one after it.
pub proof fn law_merged_news_is_newest_first(ps: Seq<Seq<NewsItem>>)
    ensures
        newest_first(spec_merge_feeds(ps)),
{
    lemma_sort_newest_first(first_occurrences(flatten(ps)));
}

/// The merged list holds each key once, and every item of every feed is
/// represented by an item with its key; nothing that no feed gave appears.
pub proof fn law_merged_news_keeps_each_story_once(ps: Seq<Seq<NewsItem>>)
    ensures
        keys_distinct(spec_merge_feeds(ps)),
        forall|k: Seq<char>| #[trigger] has_key(spec_merge_feeds(ps), k) == has_key(flatten(ps), k),
        forall|y: NewsItem| #[trigger] spec_merge_feeds(ps).contains(y) ==> flatten(ps).contains(y),
{
    let all = flatten(ps);
    lemma_first_occurrences(all);
    lemma_sort_newest_first(first_occurrences(all));
}


/// Two items are the same story exactly when their links agree once the
/// `utm_` parameters are dropped; titles count only between items without a
/// link, and an item with a link is never taken for one without.
pub proof fn law_item_key_is_the_link(a: NewsItem, b: NewsItem)
    ensures
        a.url@.len() > 0 && b.url@.len() > 0 ==> (item_key(a) == item_key(b) <==> spec_dedup_url_key(a.url@)
            == spec_dedup_url_key(b.url@)),
        a.url@.len() == 0 && b.url@.len() == 0 ==> (item_key(a) == item_key(b) <==> a.title@ == b.title@),
        a.url@.len() > 0 && b.url@.len() == 0 ==> item_key(a) != item_key(b),
{
    let ka = item_key(a);
    let kb = item_key(b);
    if ka == kb {
        assert(ka[0] == kb[0]);
        assert(ka.skip(2) == kb.skip(2));
        if a.url@.len() > 0 {
            assert(ka.skip(2) == spec_dedup_url_key(a.url@));
        } else {
            assert(ka.skip(2) == a.title@);
        }
        if b.url@.len() > 0 {
            assert(kb.skip(2) == spec_dedup_url_key(b.url@));
        } else {
            assert(kb.skip(2) == b.title@);
        }
    }
}

/// The merged news keeps one item per link (the link without its `utm_`
/// parameters): no two items with a link share it, and every item of every
/// feed that has a link is represented by an item with the same link —
/// two articles with different links are both kept, whatever their titles.
pub proof fn law_merged_news_one_per_link(ps: Seq<Seq<NewsItem>>)
    ensures
        forall|i: int, j: int|
            0 <= i < j < spec_merge_feeds(ps).len() && (#[trigger] spec_merge_feeds(ps)[i]).url@.len() > 0
                && (#[trigger] spec_merge_feeds(ps)[j]).url@.len() > 0 ==> spec_dedup_url_key(
                spec_merge_feeds(ps)[i].url@,
            ) != spec_dedup_url_key(spec_merge_feeds(ps)[j].url@),
        forall|x: NewsItem|
            #[trigger] flatten(ps).contains(x) && x.url@.len() > 0 ==> exists|k: int|
                0 <= k < spec_merge_feeds(ps).len() && spec_merge_feeds(ps)[k].url@.len() > 0
                    && spec_dedup_url_key(#[trigger] spec_merge_feeds(ps)[k].url@) == spec_dedup_url_key(x.url@),
{
    let out = spec_merge_feeds(ps);
    law_merged_news_keeps_each_story_once(ps);
    assert forall|i: int, j: int|
        0 <= i < j < out.len() && (#[trigger] out[i]).url@.len() > 0 && (#[trigger] out[j]).url@.len() > 0 implies spec_dedup_url_key(
        out[i].url@,
    ) != spec_dedup_url_key(out[j].url@) by {
        law_item_key_is_the_link(out[i], out[j]);
    }
    assert forall|x: NewsItem| #[trigger] flatten(ps).contains(x) && x.url@.len() > 0 implies exists|k: int|
        0 <= k < out.len() && out[k].url@.len() > 0 && spec_dedup_url_key(#[trigger] out[k].url@)
            == spec_dedup_url_key(x.url@) by {
        let all = flatten(ps);
        let j = choose|j: int| 0 <= j < all.len() && all[j] == x;
        assert(has_key(all, item_key(x)));
        assert(has_key(out, item_key(x)));
        let k = choose|k: int| 0 <= k < out.len() && item_key(#[trigger] out[k]) == item_key(x);
        law_item_key_is_the_link(x, out[k]);
        law_item_key_is_the_link(out[k], x);
    }
}


/// The query parameters kept in a link's key are its parameters without the
/// `utm_` ones, in order.
proof fn lemma_kept_params_filter(parts: Seq<Seq<char>>)
    ensures
        kept_params(parts) == parts.filter(|p: Seq<char>| !starts_with(p, utm_prefix())),
    decreases parts.len(),
{
    let pred = |p: Seq<char>| !starts_with(p, utm_prefix());
    reveal(Seq::filter);
    if parts.len() > 0 {
        lemma_kept_params_filter(parts.drop_last());
        assert(parts.filter(pred) == if pred(parts.last()) {
            parts.drop_last().filter(pred).push(parts.last())
        } else {
            parts.drop_last().filter(pred)
        });
        if starts_with(parts.last(), utm_prefix()) {
            assert(kept_params(parts) == kept_params(parts.drop_last()));
        } else {
            assert(kept_params(parts) == kept_params(parts.drop_last()).push(parts.last()));
        }
    }
}

/// A link's key drops its `utm_` tracking parameters and nothing else: a
/// link without a query is its own key; with a query, the key is the part
/// before the first `?`, followed (after a `?`) by the parameters that do
/// not start with `utm_`, in order, joined by `&` — so a link whose
/// parameters are all `utm_` ones has the key of the bare link.
pub proof fn law_link_key_drops_tracking(url: Seq<char>)
    ensures
        split_once(url, '?') is None ==> spec_dedup_url_key(url) == url,
        split_once(url, '?') matches Some((path, query)) ==> {
            let kept = split_on(query, '&').filter(|p: Seq<char>| !starts_with(p, utm_prefix()));
            &&& kept.len() == 0 ==> spec_dedup_url_key(url) == path
            &&& kept.len() > 0 ==> spec_dedup_url_key(url) == path + seq!['?'] + join_sep(kept, '&')
            &&& (forall|i: int|
                0 <= i < split_on(query, '&').len() ==> starts_with(
                    #[trigger] split_on(query, '&')[i],
                    utm_prefix(),
                )) ==> spec_dedup_url_key(url) == path
        },
{
    if let Some((path, query)) = split_once(url, '?') {
        let parts = split_on(query, '&');
        lemma_kept_params_filter(parts);
        let kept = parts.filter(|p: Seq<char>| !starts_with(p, utm_prefix()));
        parts.filter_lemma(|p: Seq<char>| !starts_with(p, utm_prefix()));
        if forall|i: int| 0 <= i < parts.len() ==> starts_with(#[trigger] parts[i], utm_prefix()) {
            if kept.len() > 0 {
                assert(!starts_with(kept[0], utm_prefix()));
                assert(kept.contains(kept[0]));
                parts.lemma_filter_contains_rev(|p: Seq<char>| !starts_with(p, utm_prefix()), kept[0]);
                let j = choose|j: int| 0 <= j < parts.len() && parts[j] == kept[0];
                assert(starts_with(parts[j], utm_prefix()));
            }
        }
    }
}

} // verus!
