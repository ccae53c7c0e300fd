//! The KuCoin source: its endpoints, the mapping of feed items to canonical
//! announcements, and the markup fallback that recovers the feed from the
//! state object embedded in the page.

use vstd::prelude::*;

use vstd::string::StringExecFns;

use crate::announcement::Announcement;
use crate::extractor::{extract_response, ExtractOutcome};
use crate::text::{
    chars_of, matches_at, matches_at_exec, space_run, space_run_exec, string_of_chars, sub_chars,
};

verus! {

/// The KuCoin endpoints.
pub struct KucoinMonitor {
    /// The news listing endpoint.
    pub base_url: String,
    /// The article query endpoint the monitor polls.
    pub api_url: String,
}

impl KucoinMonitor {
    /// Builds the monitor with its fixed endpoints.
    pub fn new() -> (r: Self)
        ensures
            r.base_url@ == "https://www.kucoin.com/api/v1/news/list"@,
            r.api_url@
                == "https://www.kucoin.com/_api/cms/articles?page=1&pageSize=20&category=listing&lang=en_US"@,
    {
        KucoinMonitor {
            base_url: "https://www.kucoin.com/api/v1/news/list".to_owned(),
            api_url:
                "https://www.kucoin.com/_api/cms/articles?page=1&pageSize=20&category=listing&lang=en_US".to_owned(),
        }
    }
}

/// One item of the KuCoin feed, as plain values.
pub struct KucoinItem {
    /// Feed-local identifier.
    pub id: String,
    /// Title of the notice.
    pub title: String,
    /// Optional summary; the announcement content.
    pub summary: Option<String>,
    /// Publication instant: epoch seconds, or milliseconds when too large
    /// to be seconds.
    pub published_at: i64,
    /// Path of the notice page.
    pub web_path: String,
}

/// The decoded KuCoin feed: the API status code and the items.
pub struct KucoinFeed {
    /// The API's own status code; `200000` is success.
    pub code: String,
    /// The feed items.
    pub items: Vec<KucoinItem>,
}

/// The publication instant of an item, in epoch seconds.
pub open spec fn item_instant(ts: i64) -> int {
    if ts > 9999999999 {
        ts as int / 1000
    } else {
        ts as int
    }
}

/// The canonical announcement derived from one feed item.
pub open spec fn announcement_of_item(a: Announcement, it: KucoinItem) -> bool {
    &&& a.id == it.id
    &&& a.title == it.title
    &&& a.content@ == match it.summary {
        Some(s) => s@,
        None => Seq::<char>::empty(),
    }
    &&& a.url == it.web_path
    &&& a.exchange@ == "KuCoin"@
    &&& a.published_at == item_instant(it.published_at)
    &&& a.classified()
}

/// The API succeeded: its code is `200000`.
pub fn feed_code_ok(feed: &KucoinFeed) -> (r: bool)
    ensures
        r == (feed.code@ == "200000"@),
{
    let ok = "200000".to_owned();
    feed.code.eq(&ok)
}

/// Maps the feed items to canonical announcements, classifying each.
pub fn map_items(items: Vec<KucoinItem>) -> (r: Vec<Announcement>)
    ensures
        r@.len() == items@.len(),
        forall|i: int| 0 <= i < r@.len() ==> announcement_of_item(r@[i], items@[i]),
{
    let mut r: Vec<Announcement> = Vec::new();
    let mut items = items;
    let ghost all = items@;
    let total = items.len();
    let mut i: usize = 0;
    while items.len() > 0
        invariant
            total == all.len(),
            i + items@.len() == all.len(),
            items@ =~= all.subrange(i as int, all.len() as int),
            r@.len() == i,
            forall|k: int| 0 <= k < i ==> announcement_of_item(r@[k], all[k]),
        decreases items@.len(),
    {
        let it = items.remove(0);
        proof {
            assert(it == all[i as int]);
        }
        let content = match it.summary {
            Some(s) => s,
            None => String::new(),
        };
        let published_at: i64 = if it.published_at > 9999999999 {
            it.published_at / 1000
        } else {
            it.published_at
        };
        let mut a = Announcement::new(
            it.id,
            it.title,
            content,
            it.web_path,
            "KuCoin".to_owned(),
            published_at,
        );
        a.analyze_for_new_listing();
        r.push(a);
        proof {
            assert(items@ =~= all.subrange(i + 1 as int, all.len() as int));
        }
        i = i + 1;
    }
    r
}

/// The literal that introduces the embedded state object.
pub open spec fn state_marker() -> Seq<char> {
    "window.__INITIAL_STATE__"@
}

/// The marker occurs at `i` and nowhere earlier.
pub open spec fn first_marker_at(s: Seq<char>, i: int) -> bool {
    matches_at(s, state_marker(), i) && forall|j: int|
        0 <= j < i ==> !matches_at(s, state_marker(), j)
}

/// `q` closes the state object opened at `p`: the first `};` after `p`.
pub open spec fn state_end_at(s: Seq<char>, p: int, q: int) -> bool {
    &&& p < q
    &&& q + 1 < s.len()
    &&& s[q] == '}'
    &&& s[q + 1] == ';'
    &&& forall|j: int| p < j < q ==> !(#[trigger] s[j] == '}' && j + 1 < s.len() && s[j + 1] == ';')
}

/// The JSON text of the state assignment that starts at marker end `p0`:
/// optional whitespace, `=`, optional whitespace, then an object closed by
/// the first `};`, with no newline inside.
pub open spec fn state_json_after(s: Seq<char>, p0: int) -> Option<Seq<char>> {
    let p1 = p0 + space_run(s, p0) as int;
    if p1 < s.len() && s[p1] == '=' {
        let p2 = p1 + 1 + space_run(s, p1 + 1) as int;
        if p2 < s.len() && s[p2] == '{' {
            if exists|q: int| state_end_at(s, p2, q) {
                let q = choose|q: int| state_end_at(s, p2, q);
                if forall|k: int| p2 < k < q ==> s[k] != '\n' {
                    Some(s.subrange(p2, q + 1))
                } else {
                    None
                }
            } else {
                None
            }
        } else {
            None
        }
    } else {
        None
    }
}

/// The embedded state JSON of a page: the assignment after the first
/// marker occurrence.
pub open spec fn embedded_state(s: Seq<char>) -> Option<Seq<char>> {
    if exists|i: int| first_marker_at(s, i) {
        let i = choose|i: int| first_marker_at(s, i);
        state_json_after(s, i + state_marker().len())
    } else {
        None
    }
}

/// Finds the embedded state JSON of a page, if the page holds the
/// assignment.
pub fn find_embedded_state(html: &str) -> (r: Option<String>)
    ensures
        r matches Some(j) ==> embedded_state(html@) == Some(j@),
        r is None ==> embedded_state(html@) is None,
{
    let s = chars_of(html);
    let len = s.len();
    let marker = chars_of("window.__INITIAL_STATE__");
    let mlen = marker.len();
    proof {
        reveal_strlit("window.__INITIAL_STATE__");
    }
    if len < mlen {
        proof {
            assert(forall|i: int| !matches_at(s@, state_marker(), i));
            assert(forall|i: int| !first_marker_at(s@, i));
        }
        return None;
    }
    // Find the first marker occurrence.
    let mut pos: usize = 0;
    let mut found = false;
    let mut i: usize = 0;
    while i <= len - mlen && !found
        invariant
            len == s@.len(),
            mlen == state_marker().len(),
            marker@ == state_marker(),
            1 <= mlen <= len,
            i <= len - mlen + 1,
            found ==> pos == i - 1 && first_marker_at(s@, pos as int),
            !found ==> (forall|j: int| 0 <= j < i ==> !matches_at(s@, state_marker(), j)),
        decreases len - mlen + 1 - i + (if found {
            0int
        } else {
            1int
        }),
    {
        if matches_at_exec(&s, &marker, i) {
            pos = i;
            found = true;
        }
        i = i + 1;
    }
    if !found {
        proof {
            assert(forall|j: int| matches_at(s@, state_marker(), j) ==> j + mlen <= len);
            assert(forall|j: int| !first_marker_at(s@, j));
        }
        return None;
    }
    proof {
        let w = choose|k: int| first_marker_at(s@, k);
        assert(first_marker_at(s@, pos as int));
        assert(matches_at(s@, state_marker(), pos as int));
        assert(w == pos);
    }
    let p0 = pos + mlen;
    let p1 = p0 + space_run_exec(&s, p0);
    if p1 >= len || s[p1] != '=' {
        return None;
    }
    let p2 = p1 + 1 + space_run_exec(&s, p1 + 1);
    if p2 >= len || s[p2] != '{' {
        return None;
    }
    // Scan for the first `};`, failing on a newline.
    let mut q: usize = p2 + 1;
    while q < len && !(s[q] == '}' && q + 1 < len && s[q + 1] == ';')
        invariant
            len == s@.len(),
            p2 < q <= len,
            forall|j: int| p2 < j < q ==> !(#[trigger] s@[j] == '}' && j + 1 < s@.len() && s@[j + 1] == ';'),
        decreases len - q,
    {
        q = q + 1;
    }
    if q >= len {
        proof {
            assert(forall|k: int| !state_end_at(s@, p2 as int, k));
        }
        return None;
    }
    proof {
        assert(state_end_at(s@, p2 as int, q as int));
        let w = choose|k: int| state_end_at(s@, p2 as int, k);
        assert(w == q);
    }
    // The capture never spans a line break.
    let mut has_newline = false;
    let mut k: usize = p2 + 1;
    while k < q
        invariant
            q < s@.len(),
            p2 < k <= q,
            !has_newline ==> (forall|j: int| p2 < j < k ==> s@[j] != '\n'),
            has_newline ==> (exists|j: int| p2 < j < q && s@[j] == '\n'),
        decreases q - k,
    {
        if s[k] == '\n' {
            proof {
                assert(p2 < k < q && s@[k as int] == '\n');
            }
            has_newline = true;
        }
        k = k + 1;
    }
    if has_newline {
        proof {
            let j = choose|j: int| p2 < j < q && s@[j] == '\n';
            assert(!(forall|jj: int| p2 < jj < q ==> s@[jj] != '\n')) by {
                assert(p2 < j < q && s@[j] == '\n');
            }
        }
        return None;
    }
    let capture = sub_chars(&s, p2, q + 1);
    Some(string_of_chars(&capture))
}

/// An empty successful feed.
fn empty_feed() -> (r: KucoinFeed)
    ensures
        r.code@ == "200000"@,
        r.items@.len() == 0,
{
    KucoinFeed { code: "200000".to_owned(), items: Vec::new() }
}

/// The JSON document type of serde_json, declared so that values of it can
/// pass through verified code; it is opaque here.
#[verifier::external_type_specification]
#[verifier::external_body]
pub struct ExJsonValue(serde_json::Value);

/// Relies on `serde_json::from_str::<Value>`: parses one JSON document.
/// Whether the text parses is not stated: every caller handles both
/// outcomes.
#[verifier::external_body]
fn parse_json_value(s: &str) -> (r: Option<serde_json::Value>) {
    serde_json::from_str::<serde_json::Value>(s).ok()
}

/// Relies on `serde_json::Value::get`: looks up one key of a JSON object.
#[verifier::external_body]
fn json_get<'a>(v: &'a serde_json::Value, key: &str) -> (r: Option<&'a serde_json::Value>) {
    v.get(key)
}

/// Relies on `serde_json::Value::as_str`: the string content of a JSON
/// string.
#[verifier::external_body]
fn json_as_str<'a>(v: &'a serde_json::Value) -> (r: Option<&'a str>) {
    v.as_str()
}

/// Relies on `serde_json::Value::as_array`: the elements of a JSON array.
#[verifier::external_body]
fn json_as_array<'a>(v: &'a serde_json::Value) -> (r: Option<&'a Vec<serde_json::Value>>) {
    v.as_array()
}

/// Relies on `serde_json::Value::as_i64`: the value of a JSON integer.
#[verifier::external_body]
fn json_as_i64(v: &serde_json::Value) -> (r: Option<i64>) {
    v.as_i64()
}

/// Reads one article of the embedded state: id, title and publish date from
/// its JSON object, the URL derived from the id, no summary.
fn article_to_item(article: &serde_json::Value) -> (r: Option<KucoinItem>)
    ensures
        r matches Some(it) ==> {
            &&& it.summary is None
            &&& it.web_path@ == "https://www.kucoin.com/news/"@ + it.id@
            &&& it.published_at >= 0
        },
{
    let id = match json_get(article, "id") {
        Some(v) => match json_as_str(v) {
            Some(s) => s.to_owned(),
            None => {
                return None;
            },
        },
        None => {
            return None;
        },
    };
    let title = match json_get(article, "title") {
        Some(v) => match json_as_str(v) {
            Some(s) => s.to_owned(),
            None => {
                return None;
            },
        },
        None => {
            return None;
        },
    };
    let publish_date = match json_get(article, "publishDate") {
        Some(v) => match json_as_str(v) {
            Some(s) => s.to_owned(),
            None => {
                return None;
            },
        },
        None => {
            return None;
        },
    };
    let date_chars = chars_of(publish_date.as_str());
    let published_at = match crate::digits::parse_uint(&date_chars, 0x7fffffffffffffff) {
        Some(v) => v as i64,
        None => {
            return None;
        },
    };
    let mut web_path = String::new();
    web_path.append("https://www.kucoin.com/news/");
    web_path.append(id.as_str());
    proof {
        assert(web_path@ =~= "https://www.kucoin.com/news/"@ + id@);
    }
    Some(KucoinItem { id, title, summary: None, published_at, web_path })
}

/// Recovers the feed from a page: the articles under `news.list.data` of
/// the embedded state; an empty successful feed when nothing can be
/// recovered.
pub fn extract_kucoin_html(html: &str) -> (r: KucoinFeed)
    ensures
        r.code@ == "200000"@,
        embedded_state(html@) is None ==> r.items@.len() == 0,
        forall|i: int|
            0 <= i < r.items@.len() ==> {
                &&& (#[trigger] r.items@[i]).summary is None
                &&& r.items@[i].web_path@ == "https://www.kucoin.com/news/"@ + r.items@[i].id@
                &&& r.items@[i].published_at >= 0
            },
{
    let json = match find_embedded_state(html) {
        Some(j) => j,
        None => {
            return empty_feed();
        },
    };
    let state = match parse_json_value(json.as_str()) {
        Some(v) => v,
        None => {
            return empty_feed();
        },
    };
    let news = match json_get(&state, "news") {
        Some(v) => v,
        None => {
            return empty_feed();
        },
    };
    let list = match json_get(news, "list") {
        Some(v) => v,
        None => {
            return empty_feed();
        },
    };
    let data = match json_get(list, "data") {
        Some(v) => v,
        None => {
            return empty_feed();
        },
    };
    let articles = match json_as_array(data) {
        Some(a) => a,
        None => {
            return empty_feed();
        },
    };
    let mut items: Vec<KucoinItem> = Vec::new();
    let mut i: usize = 0;
    while i < articles.len()
        invariant
            i <= articles@.len(),
            forall|k: int|
                0 <= k < items@.len() ==> {
                    &&& (#[trigger] items@[k]).summary is None
                    &&& items@[k].web_path@ == "https://www.kucoin.com/news/"@ + items@[k].id@
                    &&& items@[k].published_at >= 0
                },
        decreases articles@.len() - i,
    {
        match article_to_item(&articles[i]) {
            Some(it) => {
                items.push(it);
            },
            None => {},
        }
        i = i + 1;
    }
    KucoinFeed { code: "200000".to_owned(), items }
}

/// Strict structured decode of the feed JSON: the top-level `code`, and the
/// `data.items` articles with their fields.  The values are read from the
/// document; nothing further is stated of them.
pub fn decode_feed_json(body: &str) -> (r: Result<KucoinFeed, String>) {
    let state = match parse_json_value(body) {
        Some(v) => v,
        None => {
            return Err("the body is not a JSON document".to_owned());
        },
    };
    let code = match json_get(&state, "code") {
        Some(v) => match json_as_str(v) {
            Some(s) => s.to_owned(),
            None => {
                return Err("the code field is not a string".to_owned());
            },
        },
        None => {
            return Err("the code field is missing".to_owned());
        },
    };
    let data = match json_get(&state, "data") {
        Some(v) => v,
        None => {
            return Err("the data field is missing".to_owned());
        },
    };
    let raw_items = match json_get(data, "items") {
        Some(v) => match json_as_array(v) {
            Some(a) => a,
            None => {
                return Err("the items field is not an array".to_owned());
            },
        },
        None => {
            return Err("the items field is missing".to_owned());
        },
    };
    let mut items: Vec<KucoinItem> = Vec::new();
    let mut i: usize = 0;
    while i < raw_items.len()
        invariant
            i <= raw_items@.len(),
        decreases raw_items@.len() - i,
    {
        let raw = &raw_items[i];
        let id = match json_get(raw, "id") {
            Some(v) => match json_as_str(v) {
                Some(s) => s.to_owned(),
                None => {
                    return Err("an item id is not a string".to_owned());
                },
            },
            None => {
                return Err("an item id is missing".to_owned());
            },
        };
        let title = match json_get(raw, "title") {
            Some(v) => match json_as_str(v) {
                Some(s) => s.to_owned(),
                None => {
                    return Err("an item title is not a string".to_owned());
                },
            },
            None => {
                return Err("an item title is missing".to_owned());
            },
        };
        let summary = match json_get(raw, "summary") {
            Some(v) => match json_as_str(v) {
                Some(s) => Some(s.to_owned()),
                None => None,
            },
            None => None,
        };
        let published_at = match json_get(raw, "publishedStartAt") {
            Some(v) => match json_as_i64(v) {
                Some(ts) => ts,
                None => {
                    return Err("an item publication instant is not an integer".to_owned());
                },
            },
            None => {
                return Err("an item publication instant is missing".to_owned());
            },
        };
        let web_path = match json_get(raw, "webPath") {
            Some(v) => match json_as_str(v) {
                Some(s) => s.to_owned(),
                None => {
                    return Err("an item path is not a string".to_owned());
                },
            },
            None => {
                return Err("an item path is missing".to_owned());
            },
        };
        items.push(KucoinItem { id, title, summary, published_at, web_path });
        i = i + 1;
    }
    Ok(KucoinFeed { code, items })
}

/// Extracts the KuCoin feed from a response: the strict structured decode,
/// with the page-state recovery as the registered markup fallback.
pub fn extract_feed(content_type: &str, body: &str) -> (r: ExtractOutcome<KucoinFeed>)
    ensures
        !(r matches ExtractOutcome::Failed(_)),
        r matches ExtractOutcome::Fallback(f) ==> f.code@ == "200000"@,
{
    let decode = |b: &str| -> Result<KucoinFeed, String> { decode_feed_json(b) };
    let fallback = |b: &str| -> (f: KucoinFeed)
        ensures
            f.code@ == "200000"@,
        { extract_kucoin_html(b) };
    extract_response(content_type, body, decode, Some(fallback))
}

} // verus!
