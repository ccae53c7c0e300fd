use eam::extractor::ExtractOutcome;
use eam::kucoin::{
    decode_feed_json, extract_feed, extract_kucoin_html, feed_code_ok, find_embedded_state,
    map_items, KucoinFeed, KucoinItem, KucoinMonitor,
};

#[test]
fn monitor_holds_the_fixed_endpoints() {
    let m = KucoinMonitor::new();
    assert_eq!(m.base_url, "https://www.kucoin.com/api/v1/news/list");
    assert_eq!(
        m.api_url,
        "https://www.kucoin.com/_api/cms/articles?page=1&pageSize=20&category=listing&lang=en_US"
    );
}

#[test]
fn items_map_to_classified_announcements() {
    let items = vec![
        KucoinItem {
            id: "a1".to_owned(),
            title: "New Listing: Foobar (FOO)".to_owned(),
            summary: Some("Deposits open soon".to_owned()),
            published_at: 1686305476123, // milliseconds
            web_path: "https://www.kucoin.com/news/a1".to_owned(),
        },
        KucoinItem {
            id: "a2".to_owned(),
            title: "Scheduled maintenance".to_owned(),
            summary: None,
            published_at: 1686305476, // seconds
            web_path: "https://www.kucoin.com/news/a2".to_owned(),
        },
    ];
    let announcements = map_items(items);
    assert_eq!(announcements.len(), 2);
    assert_eq!(announcements[0].exchange, "KuCoin");
    assert_eq!(announcements[0].published_at, 1686305476);
    assert!(announcements[0].is_new_listing);
    assert_eq!(announcements[0].token_symbols, vec!["FOO".to_string()]);
    assert_eq!(announcements[1].content, "");
    assert_eq!(announcements[1].published_at, 1686305476);
    assert!(!announcements[1].is_new_listing);
}

#[test]
fn the_feed_code_decides_success() {
    let ok = KucoinFeed { code: "200000".to_owned(), items: vec![] };
    let err = KucoinFeed { code: "500000".to_owned(), items: vec![] };
    assert!(feed_code_ok(&ok));
    assert!(!feed_code_ok(&err));
}

#[test]
fn the_embedded_state_is_found_and_delimited() {
    let html = r#"<script>window.__INITIAL_STATE__ = {"a": 1}; rest</script>"#;
    assert_eq!(find_embedded_state(html).as_deref(), Some(r#"{"a": 1}"#));
    // The first closing `};` delimits the capture.
    let html2 = "window.__INITIAL_STATE__={\"x\":2}; tail };";
    assert_eq!(find_embedded_state(html2).as_deref(), Some("{\"x\":2}"));
    assert_eq!(find_embedded_state("no marker here"), None);
    assert_eq!(find_embedded_state("window.__INITIAL_STATE__ = 3;"), None);
    // A line break inside the object defeats the capture.
    assert_eq!(
        find_embedded_state("window.__INITIAL_STATE__ = {\"a\":\n1};"),
        None
    );
}

#[test]
fn the_page_state_recovers_articles() {
    let html = "<script>window.__INITIAL_STATE__ = {\"news\": {\"list\": {\"data\": [{\"id\": \"n1\", \"title\": \"will list Foo (FOO)\", \"publishDate\": \"1686305476\"},{\"id\": \"n2\", \"title\": \"maintenance\", \"publishDate\": \"1686305477\"},{\"title\": \"missing id, skipped\", \"publishDate\": \"1\"}]}}};</script>";
    let feed = extract_kucoin_html(html);
    assert_eq!(feed.code, "200000");
    assert_eq!(feed.items.len(), 2);
    assert_eq!(feed.items[0].id, "n1");
    assert_eq!(feed.items[0].web_path, "https://www.kucoin.com/news/n1");
    assert_eq!(feed.items[0].published_at, 1686305476);
    assert!(feed.items[0].summary.is_none());
    assert_eq!(feed.items[1].id, "n2");
}

#[test]
fn pages_without_a_state_give_an_empty_feed() {
    let feed = extract_kucoin_html("<html><body>blocked</body></html>");
    assert_eq!(feed.code, "200000");
    assert!(feed.items.is_empty());
}

#[test]
fn the_feed_json_decodes_strictly() {
    let body = "{\"code\": \"200000\", \"data\": {\"items\": [{\"id\": \"a\", \"title\": \"new listing (AAA)\", \"summary\": \"s\", \"publishedStartAt\": 1686305476123, \"webPath\": \"/news/a\"}]}}";
    let feed = decode_feed_json(body).unwrap();
    assert_eq!(feed.code, "200000");
    assert_eq!(feed.items.len(), 1);
    assert_eq!(feed.items[0].id, "a");
    assert_eq!(feed.items[0].summary.as_deref(), Some("s"));
    assert_eq!(feed.items[0].published_at, 1686305476123);
    assert!(decode_feed_json("not json").is_err());
    assert!(decode_feed_json("{\"data\": {\"items\": []}}").is_err());
    assert!(decode_feed_json("{\"code\": \"200000\"}").is_err());
}

#[test]
fn responses_extract_through_decode_or_page_state() {
    let body = "{\"code\": \"200000\", \"data\": {\"items\": []}}";
    match extract_feed("application/json", body) {
        ExtractOutcome::Structured(feed) => assert_eq!(feed.code, "200000"),
        _ => panic!("expected the structured result"),
    }
    let html = "<html>window.__INITIAL_STATE__ = {\"news\":{\"list\":{\"data\":[]}}};</html>";
    match extract_feed("text/html", html) {
        ExtractOutcome::Fallback(feed) => {
            assert_eq!(feed.code, "200000");
            assert!(feed.items.is_empty());
        },
        _ => panic!("expected the fallback result"),
    }
}
