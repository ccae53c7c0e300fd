//! The browser-like request headers sent with every fetch, as plain
//! name/value pairs; the driver turns them into its HTTP client's header
//! map.

use vstd::prelude::*;

verus! {

/// The fixed pairs common to every request, in order.
pub open spec fn common_header_views() -> Seq<(Seq<char>, Seq<char>)> {
    seq![
        (
            "user-agent"@,
            "Mozilla/5.0 (Windows NT 10.0; Win64; x64) AppleWebKit/537.36 (KHTML, like Gecko) Chrome/116.0.0.0 Safari/537.36"@,
        ),
        (
            "accept"@,
            "text/html,application/xhtml+xml,application/xml;q=0.9,image/avif,image/webp,image/apng,*/*;q=0.8,application/signed-exchange;v=b3;q=0.7"@,
        ),
        ("accept-language"@, "en-US,en;q=0.9"@),
        ("accept-encoding"@, "gzip, deflate, br"@),
        ("connection"@, "keep-alive"@),
        ("cache-control"@, "max-age=0"@),
    ]
}

/// The header pairs of a request: the fixed pairs, then the content type
/// and the host when given.
pub open spec fn header_views(ct: Option<Seq<char>>, host: Option<Seq<char>>) -> Seq<
    (Seq<char>, Seq<char>),
> {
    common_header_views() + (match ct {
        Some(v) => seq![("content-type"@, v)],
        None => Seq::empty(),
    }) + (match host {
        Some(v) => seq![("host"@, v)],
        None => Seq::empty(),
    })
}

/// Builds the browser-like header pairs of one request.
pub fn browser_header_pairs(content_type: Option<&str>, host: Option<&str>) -> (r: Vec<
    (String, String),
>)
    ensures
        r@.map_values(|p: (String, String)| (p.0@, p.1@)) == header_views(
            match content_type {
                Some(v) => Some(v@),
                None => None,
            },
            match host {
                Some(v) => Some(v@),
                None => None,
            },
        ),
{
    let mut r: Vec<(String, String)> = Vec::new();
    r.push(
        (
            "user-agent".to_owned(),
            "Mozilla/5.0 (Windows NT 10.0; Win64; x64) AppleWebKit/537.36 (KHTML, like Gecko) Chrome/116.0.0.0 Safari/537.36".to_owned(),
        ),
    );
    r.push(
        (
            "accept".to_owned(),
            "text/html,application/xhtml+xml,application/xml;q=0.9,image/avif,image/webp,image/apng,*/*;q=0.8,application/signed-exchange;v=b3;q=0.7".to_owned(),
        ),
    );
    r.push(("accept-language".to_owned(), "en-US,en;q=0.9".to_owned()));
    r.push(("accept-encoding".to_owned(), "gzip, deflate, br".to_owned()));
    r.push(("connection".to_owned(), "keep-alive".to_owned()));
    r.push(("cache-control".to_owned(), "max-age=0".to_owned()));
    match content_type {
        Some(v) => {
            r.push(("content-type".to_owned(), v.to_owned()));
        },
        None => {},
    }
    match host {
        Some(v) => {
            r.push(("host".to_owned(), v.to_owned()));
        },
        None => {},
    }
    proof {
        assert(r@.map_values(|p: (String, String)| (p.0@, p.1@)) =~= header_views(
            match content_type {
                Some(v) => Some(v@),
                None => None,
            },
            match host {
                Some(v) => Some(v@),
                None => None,
            },
        ));
    }
    r
}

} // verus!
