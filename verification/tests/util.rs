use eam::digits::{parse_uint, u64_to_string};
use eam::error::SourceError;
use eam::extractor::DecodeFailure;
use eam::headers::browser_header_pairs;
use eam::text::{chars_of, split_single, string_of_chars};

#[test]
fn decimal_rendering_is_exact() {
    assert_eq!(u64_to_string(0), "0");
    assert_eq!(u64_to_string(7), "7");
    assert_eq!(u64_to_string(65535), "65535");
    assert_eq!(u64_to_string(u64::MAX), "18446744073709551615");
}

#[test]
fn digit_strings_parse_up_to_the_bound() {
    assert_eq!(parse_uint(&chars_of("0"), u64::MAX), Some(0));
    assert_eq!(parse_uint(&chars_of("65535"), 65535), Some(65535));
    assert_eq!(parse_uint(&chars_of("65536"), 65535), None);
    assert_eq!(parse_uint(&chars_of("00042"), u64::MAX), Some(42));
    assert_eq!(parse_uint(&chars_of("18446744073709551615"), u64::MAX), Some(u64::MAX));
    assert_eq!(parse_uint(&chars_of("18446744073709551616"), u64::MAX), None);
    assert_eq!(parse_uint(&chars_of(""), u64::MAX), None);
    assert_eq!(parse_uint(&chars_of("12a"), u64::MAX), None);
    assert_eq!(parse_uint(&chars_of("-1"), u64::MAX), None);
}

#[test]
fn splitting_needs_exactly_one_separator() {
    let parts = split_single(&chars_of("name:60"), ':').unwrap();
    assert_eq!(string_of_chars(&parts.0), "name");
    assert_eq!(string_of_chars(&parts.1), "60");
    assert!(split_single(&chars_of("a:b:c"), ':').is_none());
    assert!(split_single(&chars_of("abc"), ':').is_none());
    let edge = split_single(&chars_of(":x"), ':').unwrap();
    assert_eq!(string_of_chars(&edge.0), "");
    assert_eq!(string_of_chars(&edge.1), "x");
}

#[test]
fn browser_headers_include_the_optional_pairs_in_order() {
    let base = browser_header_pairs(None, None);
    assert_eq!(base.len(), 6);
    assert_eq!(base[0].0, "user-agent");
    assert_eq!(base[5], ("cache-control".to_owned(), "max-age=0".to_owned()));
    let full = browser_header_pairs(Some("application/json"), Some("www.example.test"));
    assert_eq!(full.len(), 8);
    assert_eq!(full[6], ("content-type".to_owned(), "application/json".to_owned()));
    assert_eq!(full[7], ("host".to_owned(), "www.example.test".to_owned()));
    let host_only = browser_header_pairs(None, Some("h"));
    assert_eq!(host_only.len(), 7);
    assert_eq!(host_only[6].0, "host");
}

#[test]
fn errors_describe_their_kind_and_detail() {
    assert_eq!(
        SourceError::Transport("timed out".to_owned()).describe(),
        "transport failure: timed out"
    );
    assert_eq!(
        SourceError::RateLimitedOrBlocked { status: 429, excerpt: "slow down".to_owned() }
            .describe(),
        "rate limited: slow down"
    );
    assert_eq!(
        SourceError::RateLimitedOrBlocked { status: 403, excerpt: "denied".to_owned() }.describe(),
        "blocked: denied"
    );
    assert_eq!(
        SourceError::Decode(DecodeFailure {
            error: "bad json".to_owned(),
            excerpt: "…".to_owned()
        })
        .describe(),
        "decode failure: bad json"
    );
    assert_eq!(
        SourceError::SourceSemantic("code 500000".to_owned()).describe(),
        "source reported an error: code 500000"
    );
}
