use kbotop::model::NewsItem;
use kbotop::rss::feed::{default_feeds, feed_from_xml};
use kbotop::rss::merge::{dedup_url_key, finish, merge_feeds};
use kbotop::error::Error;

fn item(title: &str, url: &str, published: &str) -> NewsItem {
    NewsItem {
        title: title.into(),
        source: "s".into(),
        url: url.into(),
        summary: String::new(),
        published: published.into(),
    }
}

#[test]
fn merge_feeds_dedups_by_normalized_url() {
    let merged = merge_feeds(vec![
        vec![item("a", "https://x.kr/1?utm_source=khan_rss&utm_medium=rss", "20260724090000")],
        vec![item("a", "https://x.kr/1", "20260724090000"), item("b", "https://x.kr/2", "20260724080000")],
    ]);
    assert_eq!(merged.len(), 2, "같은 기사는 한 번만: {merged:?}");
    assert!(merged.iter().any(|i| i.title == "b"));
}

#[test]
fn merge_feeds_keeps_spotv_query_only_article_ids_distinct() {
    let merged = merge_feeds(vec![vec![
        item("스포티비-1", "https://www.spotvnews.co.kr/news/articleView.html?idxno=830362", "20260724090000"),
        item("스포티비-2", "https://www.spotvnews.co.kr/news/articleView.html?idxno=830363", "20260724080000"),
    ]]);
    assert_eq!(merged.len(), 2, "쿼리로만 구분되는 기사가 dedup에 사라지면 안 된다: {merged:?}");
}

#[test]
fn merge_feeds_dedups_khan_utm_tracking_params() {
    let merged = merge_feeds(vec![
        vec![item("경향", "https://www.khan.co.kr/article/202607241234?utm_source=khan_rss&utm_medium=rss", "20260724090000")],
        vec![item("경향", "https://www.khan.co.kr/article/202607241234", "20260724090000")],
    ]);
    assert_eq!(merged.len(), 1, "utm 파라미터만 다른 건 같은 기사: {merged:?}");
}

#[test]
fn merge_feeds_keeps_items_without_url() {
    let merged = merge_feeds(vec![vec![item("a", "", ""), item("b", "", "")]]);
    assert_eq!(merged.len(), 2);
}

#[test]
fn merge_feeds_sorts_newest_first_across_feeds() {
    let merged = merge_feeds(vec![
        vec![
            item("조선-오래된", "https://a.kr/1", "20260724080000"),
            item("조선-최신", "https://a.kr/2", "20260724100000"),
        ],
        vec![item("SPOTV-중간", "https://b.kr/1", "20260724090000")],
    ]);
    let titles: Vec<&str> = merged.iter().map(|i| i.title.as_str()).collect();
    assert_eq!(titles, vec!["조선-최신", "SPOTV-중간", "조선-오래된"]);
}

#[test]
fn merge_feeds_puts_undated_items_last_without_dropping() {
    let merged = merge_feeds(vec![vec![
        item("날짜없음", "https://a.kr/1", ""),
        item("날짜있음", "https://a.kr/2", "20260724100000"),
    ]]);
    assert_eq!(merged.len(), 2);
    assert_eq!(merged[0].title, "날짜있음");
    assert_eq!(merged[1].title, "날짜없음");
}

#[test]
fn finish_errs_when_every_feed_failed() {
    let result = finish(vec![]);
    assert!(result.is_err(), "all-feeds-failed must not be Ok: {result:?}");
}

#[test]
fn finish_oks_partial_success_with_succeeded_items() {
    let result = finish(vec![vec![item("a", "https://a.kr/1", "20260724100000")]]);
    let items = result.expect("partial success must be Ok");
    assert_eq!(items.len(), 1);
    assert_eq!(items[0].title, "a");
}

#[test]
fn finish_oks_empty_vec_when_live_feed_returned_zero_items() {
    let result = finish(vec![vec![]]);
    let items = result.expect("a live feed with zero items must still be Ok");
    assert!(items.is_empty());
}

#[test]
fn finish_error_names_the_failure() {
    assert_eq!(finish(vec![]), Err(Error::Data("all news feeds failed".to_string())));
}

#[test]
fn equal_dates_keep_their_feed_order() {
    let merged = merge_feeds(vec![
        vec![item("first", "https://a.kr/1", "20260724090000")],
        vec![item("second", "https://b.kr/1", "20260724090000")],
    ]);
    let titles: Vec<&str> = merged.iter().map(|i| i.title.as_str()).collect();
    assert_eq!(titles, vec!["first", "second"]);
}

#[test]
fn the_first_copy_of_a_story_is_the_one_kept() {
    let mut a = item("a", "https://x.kr/1", "20260724090000");
    a.source = "first".into();
    let mut b = item("a", "https://x.kr/1?utm_medium=rss", "20260724090000");
    b.source = "second".into();
    let merged = merge_feeds(vec![vec![a], vec![b]]);
    assert_eq!(merged.len(), 1);
    assert_eq!(merged[0].source, "first");
}

#[test]
fn dedup_url_key_drops_only_tracking_parameters() {
    assert_eq!(dedup_url_key("https://x.kr/a?idxno=1&utm_source=r"), "https://x.kr/a?idxno=1");
    assert_eq!(dedup_url_key("https://x.kr/a?utm_source=r&utm_medium=rss"), "https://x.kr/a");
    assert_eq!(dedup_url_key("https://x.kr/a"), "https://x.kr/a");
    assert_eq!(dedup_url_key("https://x.kr/a?b=1&c=2"), "https://x.kr/a?b=1&c=2");
}

#[test]
fn new_still_uses_the_builtin_four_feeds() {
    let feeds = default_feeds();
    assert_eq!(feeds.len(), 4);
    assert!(feeds.iter().any(|f| f.label == "스포츠조선"));
    assert!(feeds.iter().any(|f| f.label == "스포티비뉴스"));
    assert!(feeds.iter().any(|f| f.label == "일간스포츠"));
    assert!(feeds.iter().any(|f| f.label == "스포츠경향"));
    assert_eq!(feeds[2].categories, vec!["프로야구".to_string(), "메이저리그".to_string()]);
}

#[test]
fn feed_from_xml_caps_excerpt_length() {
    let long = "가".repeat(600);
    let xml = format!(
        r#"<?xml version="1.0"?><rss><channel><item><title>t</title><link>u</link><description>{long}</description></item></channel></rss>"#
    );
    let items = feed_from_xml(&xml, "l", &[]).unwrap();
    assert!(items[0].summary.chars().count() <= 201, "상한 초과: {}", items[0].summary.chars().count());
    assert!(items[0].summary.ends_with('…'));
}

#[test]
fn feed_from_xml_rejects_malformed_without_panic() {
    assert!(feed_from_xml("<rss><channel><item>", "l", &[]).is_err());
    assert!(feed_from_xml("", "l", &[]).is_err());
}

const FEED: &str = r#"<?xml version="1.0"?>
<rss xmlns:dc="http://purl.org/dc/elements/1.1/"><channel>
<item><title><![CDATA[김도영 <b>동점</b> 3점 홈런]]></title><link> https://example.com/a?x=1 </link>
<description><![CDATA[<p>9회말 동점 홈런을<br/>터뜨렸다.</p>]]></description><category>프로야구</category>
<dc:date>2026-07-24 09:18:39</dc:date></item>
<item><title></title><link>https://example.com/none</link></item>
<item><title>짧은 리드</title><link>https://example.com/b</link><description>짧은 리드 &amp;amp; 요약</description>
<category>축구</category><pubDate>Fri, 24 Jul 2026 00:18:39 GMT</pubDate></item>
</channel></rss>"#;

#[test]
fn feed_items_are_read_leniently() {
    let items = feed_from_xml(FEED, "테스트일보", &[]).unwrap();
    assert_eq!(items.len(), 2, "an item without a title is dropped");
    assert_eq!(items[0].title, "김도영 동점 3점 홈런");
    assert_eq!(items[0].source, "테스트일보");
    assert_eq!(items[0].url, "https://example.com/a?x=1");
    assert_eq!(items[0].summary, "9회말 동점 홈런을\n터뜨렸다.");
    assert_eq!(items[0].published, "20260724091839");
    assert_eq!(items[1].summary, "짧은 리드 & 요약");
    assert_eq!(items[1].published, "20260724091839");
}

#[test]
fn feed_items_can_be_limited_to_categories() {
    let items = feed_from_xml(FEED, "테스트일보", &["프로야구"]).unwrap();
    assert_eq!(items.len(), 1);
    assert_eq!(items[0].title, "김도영 동점 3점 홈런");
}
