//! The publishers' feeds and the reading of one feed's XML into news items.
use vstd::prelude::*;
use crate::error::{concat_text, Error};
use crate::model::NewsItem;
use crate::rss::parse::{normalized_date_chars, spec_normalized_date};
use crate::strutil::{chars_eq, chars_of, string_from_chars, trim, trim_chars};
use crate::text::{
    lead_excerpt_chars, lemma_lead_excerpt_len, normalize_chars, spec_lead_excerpt, spec_strip_html_to_text,
    strip_tag_chars, unescape_chars, EXCERPT_CHARS,
};

verus! {

/// A publisher's feed: where it is, the name shown as the source, and the
/// categories kept from it (all when empty).
pub struct Feed {
    pub url: String,
    pub label: String,
    pub categories: Vec<String>,
}

/// The built-in feeds: two already limited to baseball, two filtered by category.
pub fn default_feeds() -> (r: Vec<Feed>)
    ensures
        r.len() == 4,
        r[0].url@ == "https://www.sportschosun.com/rss/index_bs.htm"@,
        r[0].label@ == "스포츠조선"@,
        r[0].categories.len() == 0,
        r[1].url@ == "https://www.spotvnews.co.kr/rss/S1N2.xml"@,
        r[1].label@ == "스포티비뉴스"@,
        r[1].categories.len() == 0,
        r[2].url@ == "https://isplus.com/rss"@,
        r[2].label@ == "일간스포츠"@,
        r[2].categories.len() == 2,
        r[2].categories[0]@ == "프로야구"@,
        r[2].categories[1]@ == "메이저리그"@,
        r[3].url@ == "https://www.khan.co.kr/rss/rssdata/kh_sports.xml"@,
        r[3].label@ == "스포츠경향"@,
        r[3].categories.len() == 1,
        r[3].categories[0]@ == "야구"@,
{
    broadcast use vstd::string::group_string_axioms;
    vec![
        Feed {
            url: "https://www.sportschosun.com/rss/index_bs.htm".to_string(),
            label: "스포츠조선".to_string(),
            categories: Vec::new(),
        },
        Feed {
            url: "https://www.spotvnews.co.kr/rss/S1N2.xml".to_string(),
            label: "스포티비뉴스".to_string(),
            categories: Vec::new(),
        },
        Feed {
            url: "https://isplus.com/rss".to_string(),
            label: "일간스포츠".to_string(),
            categories: vec!["프로야구".to_string(), "메이저리그".to_string()],
        },
        Feed {
            url: "https://www.khan.co.kr/rss/rssdata/kh_sports.xml".to_string(),
            label: "스포츠경향".to_string(),
            categories: vec!["야구".to_string()],
        },
    ]
}

/// One node of a parsed XML document, in document order: whether it is an
/// element or a text node, its local name (elements), its text (text
/// nodes), and the index of its parent.
pub struct XmlNode {
    pub element: bool,
    pub text_node: bool,
    pub name: String,
    pub text: String,
    pub parent: Option<usize>,
}

pub type XmlNodeView = (bool, bool, Seq<char>, Seq<char>, Option<usize>);

pub open spec fn node_view(n: XmlNode) -> XmlNodeView {
    (n.element, n.text_node, n.name@, n.text@, n.parent)
}

pub open spec fn nodes_view(v: Seq<XmlNode>) -> Seq<XmlNodeView> {
    v.map_values(|n: XmlNode| node_view(n))
}

/// The nodes of the XML document `xml` as roxmltree parses it (all nodes,
/// root first, in document order), or none when it is not well-formed XML.
pub uninterp spec fn xml_document(xml: Seq<char>) -> Option<Seq<XmlNodeView>>;

/// `roxmltree::Document::parse`, its nodes listed by `descendants()`: each
/// node's kind, local tag name, `text()` and parent id. The contract claims
/// that the result is the named document, and, from the parser's source,
/// that a node's parent comes before it (ids are handed out in creation
/// order, a parent before its children).
#[verifier::external_body]
fn parse_xml(xml: &str) -> (r: Result<Vec<XmlNode>, String>)
    ensures
        match xml_document(xml@) {
            Some(ns) => r matches Ok(v) && nodes_view(v@) == ns,
            None => r is Err,
        },
        r matches Ok(v) ==> forall|i: int| 0 <= i < v.len() ==> (#[trigger] v[i].parent matches Some(p) ==> p < i),
{
    let doc = match roxmltree::Document::parse(xml) {
        Ok(d) => d,
        Err(e) => return Err(e.to_string()),
    };
    let mut out = Vec::new();
    for n in doc.descendants() {
        out.push(XmlNode {
            element: n.is_element(),
            text_node: n.is_text(),
            name: n.tag_name().name().to_string(),
            text: n.text().unwrap_or("").to_string(),
            parent: n.parent().map(|p| p.id().get_usize()),
        });
    }
    Ok(out)
}

/// Node `d` lies in the subtree of node `a` (itself included).
pub open spec fn in_subtree(ns: Seq<XmlNodeView>, d: int, a: int) -> bool
    decreases d + 1,
{
    if d < 0 || d >= ns.len() {
        false
    } else if d == a {
        true
    } else {
        match ns[d].4 {
            Some(p) => if (p as int) < d {
                in_subtree(ns, p as int, a)
            } else {
                false
            },
            None => false,
        }
    }
}

/// The text of the text nodes from index `from` on that lie under `a`, in order.
pub open spec fn texts_under(ns: Seq<XmlNodeView>, a: int, from: int) -> Seq<char>
    decreases ns.len() - from,
{
    if from < 0 || from >= ns.len() {
        Seq::empty()
    } else {
        (if ns[from].1 && in_subtree(ns, from, a) {
            ns[from].3
        } else {
            Seq::empty()
        }) + texts_under(ns, a, from + 1)
    }
}

/// Index (from `from` on) of the first child element of `e` named `local`.
pub open spec fn child_named(ns: Seq<XmlNodeView>, e: int, local: Seq<char>, from: int) -> Option<int>
    decreases ns.len() - from,
{
    if from < 0 || from >= ns.len() {
        None
    } else if ns[from].4 == Some(e as usize) && ns[from].0 && ns[from].2 == local {
        Some(from)
    } else {
        child_named(ns, e, local, from + 1)
    }
}

/// The text under the first child element of `e` named `local` (namespace
/// ignored), CDATA and mixed content joined; empty when there is none.
pub open spec fn spec_child_text(ns: Seq<XmlNodeView>, e: int, local: Seq<char>) -> Seq<char> {
    match child_named(ns, e, local, 0) {
        Some(c) => texts_under(ns, c, 0),
        None => Seq::empty(),
    }
}

fn node_in_subtree(ns: &Vec<XmlNode>, d: usize, a: usize) -> (b: bool)
    requires
        d < ns.len(),
    ensures
        b == in_subtree(nodes_view(ns@), d as int, a as int),
{
    let ghost v = nodes_view(ns@);
    let mut cur: usize = d;
    loop
        invariant
            cur < ns.len(),
            v == nodes_view(ns@),
            in_subtree(v, d as int, a as int) == in_subtree(v, cur as int, a as int),
        decreases cur,
    {
        assert(v[cur as int] == node_view(ns@[cur as int]));
        if cur == a {
            return true;
        }
        match ns[cur].parent {
            Some(p) => {
                if p < cur {
                    cur = p;
                } else {
                    return false;
                }
            },
            None => {
                return false;
            },
        }
    }
}

fn find_child(ns: &Vec<XmlNode>, e: usize, local: &[char]) -> (r: Option<usize>)
    ensures
        match child_named(nodes_view(ns@), e as int, local@, 0) {
            Some(c) => r matches Some(x) && x as int == c && x < ns.len(),
            None => r is None,
        },
{
    let ghost v = nodes_view(ns@);
    let mut c: usize = 0;
    while c < ns.len()
        invariant
            c <= ns.len(),
            v == nodes_view(ns@),
            child_named(v, e as int, local@, 0) == child_named(v, e as int, local@, c as int),
        decreases ns.len() - c,
    {
        assert(v[c as int] == node_view(ns@[c as int]));
        let name = chars_of(ns[c].name.as_str());
        if ns[c].parent == Some(e) && ns[c].element && chars_eq(&name, local) {
            return Some(c);
        }
        c += 1;
    }
    None
}

fn child_text_chars(ns: &Vec<XmlNode>, e: usize, local: &[char]) -> (r: Vec<char>)
    ensures
        r@ == spec_child_text(nodes_view(ns@), e as int, local@),
{
    let ghost v = nodes_view(ns@);
    let c = match find_child(ns, e, local) {
        Some(c) => c,
        None => {
            return Vec::new();
        },
    };
    let mut out: Vec<char> = Vec::new();
    let mut d: usize = 0;
    while d < ns.len()
        invariant
            d <= ns.len(),
            c < ns.len(),
            v == nodes_view(ns@),
            texts_under(v, c as int, 0) == out@ + texts_under(v, c as int, d as int),
        decreases ns.len() - d,
    {
        assert(v[d as int] == node_view(ns@[d as int]));
        if ns[d].text_node && node_in_subtree(ns, d, c) {
            let t = chars_of(ns[d].text.as_str());
            let mut k: usize = 0;
            let ghost o0 = out@;
            while k < t.len()
                invariant
                    k <= t.len(),
                    out@ == o0 + t@.take(k as int),
                decreases t.len() - k,
            {
                out.push(t[k]);
                k += 1;
                assert(t@.take(k as int) == t@.take(k - 1).push(t@[k - 1]));
            }
            assert(t@.take(t.len() as int) == t@);
        }
        d += 1;
    }
    assert(texts_under(v, c as int, d as int) == Seq::<char>::empty());
    out
}

pub type NewsView = (Seq<char>, Seq<char>, Seq<char>, Seq<char>, Seq<char>);

pub open spec fn news_view(it: NewsItem) -> NewsView {
    (it.title@, it.source@, it.url@, it.summary@, it.published@)
}

pub open spec fn tag_item() -> Seq<char> { seq!['i', 't', 'e', 'm'] }
pub open spec fn tag_title() -> Seq<char> { seq!['t', 'i', 't', 'l', 'e'] }
pub open spec fn tag_category() -> Seq<char> { seq!['c', 'a', 't', 'e', 'g', 'o', 'r', 'y'] }
pub open spec fn tag_description() -> Seq<char> { seq!['d', 'e', 's', 'c', 'r', 'i', 'p', 't', 'i', 'o', 'n'] }
pub open spec fn tag_pub_date() -> Seq<char> { seq!['p', 'u', 'b', 'D', 'a', 't', 'e'] }
pub open spec fn tag_date() -> Seq<char> { seq!['d', 'a', 't', 'e'] }
pub open spec fn tag_link() -> Seq<char> { seq!['l', 'i', 'n', 'k'] }

/// The news item of the `item` element `e`: none without a title, or when
/// categories are given and its category is not among them. The date is
/// `pubDate`, or `date` (Dublin Core) when that is blank.
pub open spec fn spec_item_of(
    ns: Seq<XmlNodeView>,
    e: int,
    label: Seq<char>,
    cats: Seq<Seq<char>>,
) -> Option<NewsView> {
    let title = spec_strip_html_to_text(spec_child_text(ns, e, tag_title()));
    if title.len() == 0 {
        None
    } else if cats.len() > 0 && !cats.contains(spec_child_text(ns, e, tag_category())) {
        None
    } else {
        let summary = spec_lead_excerpt(
            spec_strip_html_to_text(spec_child_text(ns, e, tag_description())),
            EXCERPT_CHARS as nat,
        );
        let p = spec_child_text(ns, e, tag_pub_date());
        let raw = if trim(p).len() == 0 {
            spec_child_text(ns, e, tag_date())
        } else {
            p
        };
        Some(
            (
                title,
                label,
                trim(spec_child_text(ns, e, tag_link())),
                summary,
                spec_normalized_date(raw),
            ),
        )
    }
}

/// The items of the first `n` nodes that are `item` elements, in document order.
pub open spec fn spec_feed_items(
    ns: Seq<XmlNodeView>,
    label: Seq<char>,
    cats: Seq<Seq<char>>,
    n: int,
) -> Seq<NewsView>
    decreases n,
{
    if n <= 0 || n > ns.len() {
        Seq::empty()
    } else {
        spec_feed_items(ns, label, cats, n - 1) + (if ns[n - 1].0 && ns[n - 1].2 == tag_item() {
            match spec_item_of(ns, n - 1, label, cats) {
                Some(v) => seq![v],
                None => Seq::empty(),
            }
        } else {
            Seq::empty()
        })
    }
}

fn strip_html_chars(s: &[char]) -> (r: Vec<char>)
    ensures
        r@ == spec_strip_html_to_text(s@),
{
    let a = strip_tag_chars(s);
    let b = unescape_chars(&a);
    normalize_chars(&b)
}

fn item_of(ns: &Vec<XmlNode>, e: usize, label: &str, cats: &[&str]) -> (r: Option<NewsItem>)
    ensures
        match spec_item_of(nodes_view(ns@), e as int, label@, cats@.map_values(|k: &str| k@)) {
            Some(v) => r matches Some(it) && news_view(it) == v,
            None => r is None,
        },
{
    let ghost cv = cats@.map_values(|k: &str| k@);
    let title_tag: Vec<char> = vec!['t', 'i', 't', 'l', 'e'];
    let title = strip_html_chars(&child_text_chars(ns, e, &title_tag));
    if title.len() == 0 {
        return None;
    }
    if cats.len() > 0 {
        let cat_tag: Vec<char> = vec!['c', 'a', 't', 'e', 'g', 'o', 'r', 'y'];
        let cat = child_text_chars(ns, e, &cat_tag);
        let mut found = false;
        let mut i: usize = 0;
        while i < cats.len()
            invariant
                i <= cats.len(),
                cv == cats@.map_values(|k: &str| k@),
                found <==> exists|j: int| 0 <= j < i && cv[j] == cat@,
            decreases cats.len() - i,
        {
            let k = chars_of(cats[i]);
            assert(cv[i as int] == cats@[i as int]@);
            if chars_eq(&k, &cat) {
                found = true;
            }
            i += 1;
        }
        if !found {
            return None;
        }
        assert(cv.contains(cat@));
    }
    let desc_tag: Vec<char> = vec!['d', 'e', 's', 'c', 'r', 'i', 'p', 't', 'i', 'o', 'n'];
    let summary = lead_excerpt_chars(&strip_html_chars(&child_text_chars(ns, e, &desc_tag)), EXCERPT_CHARS);
    let pub_tag: Vec<char> = vec!['p', 'u', 'b', 'D', 'a', 't', 'e'];
    let p = child_text_chars(ns, e, &pub_tag);
    let raw = if trim_chars(&p).len() == 0 {
        let date_tag: Vec<char> = vec!['d', 'a', 't', 'e'];
        child_text_chars(ns, e, &date_tag)
    } else {
        p
    };
    let link_tag: Vec<char> = vec!['l', 'i', 'n', 'k'];
    let url = trim_chars(&child_text_chars(ns, e, &link_tag));
    let published = normalized_date_chars(&raw);
    Some(NewsItem {
        title: string_from_chars(&title),
        source: label.to_string(),
        url: string_from_chars(&url),
        summary: string_from_chars(&summary),
        published: string_from_chars(&published),
    })
}

/// The news items of a parsed feed.
pub fn feed_from_nodes(ns: &Vec<XmlNode>, label: &str, cats: &[&str]) -> (r: Vec<NewsItem>)
    ensures
        r@.map_values(|it: NewsItem| news_view(it)) == spec_feed_items(
            nodes_view(ns@),
            label@,
            cats@.map_values(|k: &str| k@),
            ns@.len() as int,
        ),
{
    let ghost v = nodes_view(ns@);
    let ghost cv = cats@.map_values(|k: &str| k@);
    let item_tag: Vec<char> = vec!['i', 't', 'e', 'm'];
    let mut out: Vec<NewsItem> = Vec::new();
    let mut e: usize = 0;
    while e < ns.len()
        invariant
            e <= ns.len(),
            v == nodes_view(ns@),
            cv == cats@.map_values(|k: &str| k@),
            item_tag@ == tag_item(),
            out@.map_values(|it: NewsItem| news_view(it)) == spec_feed_items(v, label@, cv, e as int),
        decreases ns.len() - e,
    {
        assert(v[e as int] == node_view(ns@[e as int]));
        let name = chars_of(ns[e].name.as_str());
        let ghost before = out@;
        if ns[e].element && chars_eq(&name, &item_tag) {
            match item_of(ns, e, label, cats) {
                Some(it) => {
                    out.push(it);
                    assert(out@.map_values(|it: NewsItem| news_view(it)) == before.map_values(
                        |it: NewsItem| news_view(it),
                    ).push(news_view(out@.last())));
                },
                None => {},
            }
        }
        proof {
            if out@ == before {
                let a = before.map_values(|it: NewsItem| news_view(it));
                assert(a + Seq::<NewsView>::empty() == a);
            }
        }
        e += 1;
    }
    out
}

/// The news items of a feed's XML; `label` is their source, and when
/// `keep_categories` is not empty only items of those categories stay.
/// XML that does not parse is an error.
pub fn feed_from_xml(xml: &str, label: &str, keep_categories: &[&str]) -> (r: Result<Vec<NewsItem>, Error>)
    ensures
        match xml_document(xml@) {
            Some(ns) => r matches Ok(items) && items@.map_values(|it: NewsItem| news_view(it))
                == spec_feed_items(ns, label@, keep_categories@.map_values(|k: &str| k@), ns.len() as int),
            None => r matches Err(Error::Data(_)),
        },
{
    match parse_xml(xml) {
        Ok(ns) => Ok(feed_from_nodes(&ns, label, keep_categories)),
        Err(msg) => Err(Error::Data(concat_text("rss parse error: ", msg.as_str()))),
    }
}


/// Every item a feed gives comes from an `item` element of the document:
/// it has a title, names the feed's label as its source, has a summary of
/// at most the excerpt length and the ellipsis, and, when categories are
/// given, its element's category is one of them. Its title is the plain
/// text of the element's `<title>` (tags removed, HTML entities decoded,
/// white space collapsed), its link the trimmed `<link>`, and its summary
/// the lead of the plain text of `<description>`.
pub proof fn law_feed_items_are_well_formed(
    ns: Seq<XmlNodeView>,
    label: Seq<char>,
    cats: Seq<Seq<char>>,
    n: int,
    k: int,
)
    requires
        0 <= k < spec_feed_items(ns, label, cats, n).len(),
    ensures
        ({
            let it = spec_feed_items(ns, label, cats, n)[k];
            &&& it.0.len() > 0
            &&& it.1 == label
            &&& it.3.len() <= EXCERPT_CHARS + 1
            &&& exists|e: int|
                0 <= e < ns.len() && ns[e].0 && ns[e].2 == tag_item() && #[trigger] spec_item_of(
                    ns,
                    e,
                    label,
                    cats,
                ) == Some(it) && (cats.len() > 0 ==> cats.contains(
                    spec_child_text(ns, e, tag_category()),
                )) && it.0 == spec_strip_html_to_text(spec_child_text(ns, e, tag_title()))
                    && it.2 == trim(spec_child_text(ns, e, tag_link())) && it.3 == spec_lead_excerpt(
                    spec_strip_html_to_text(spec_child_text(ns, e, tag_description())),
                    EXCERPT_CHARS as nat,
                )
        }),
    decreases n,
{
    let all = spec_feed_items(ns, label, cats, n);
    let prev = spec_feed_items(ns, label, cats, n - 1);
    if k < prev.len() {
        law_feed_items_are_well_formed(ns, label, cats, n - 1, k);
        assert(all[k] == prev[k]);
    } else {
        let e = n - 1;
        let it = spec_item_of(ns, e, label, cats)->0;
        assert(all[k] == it);
        lemma_lead_excerpt_len(
            spec_strip_html_to_text(spec_child_text(ns, e, tag_description())),
            EXCERPT_CHARS as nat,
        );
        assert(spec_item_of(ns, e, label, cats) == Some(all[k]));
    }
}

} // verus!
