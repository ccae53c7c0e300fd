use eam::extractor::{body_excerpt, content_type_is_markup, extract_response, ExtractOutcome};

fn ok_decode(body: &str) -> Result<u64, String> {
    body.trim().parse::<u64>().map_err(|e| e.to_string())
}

#[test]
fn structured_decode_wins_and_fallback_is_not_invoked() {
    let mut fallback_calls = 0u32;
    let r = extract_response(
        "application/json",
        "42",
        ok_decode,
        Some(|_: &str| {
            fallback_calls += 1;
            0u64
        }),
    );
    match r {
        ExtractOutcome::Structured(v) => assert_eq!(v, 42),
        _ => panic!("expected the structured result"),
    }
    assert_eq!(fallback_calls, 0);
}

#[test]
fn markup_content_type_skips_decode_and_invokes_fallback_once() {
    let mut decode_calls = 0u32;
    let mut fallback_calls = 0u32;
    let r = extract_response(
        "text/html; charset=utf-8",
        "42",
        |_: &str| {
            decode_calls += 1;
            Ok(0u64)
        },
        Some(|_: &str| {
            fallback_calls += 1;
            7u64
        }),
    );
    match r {
        ExtractOutcome::Fallback(v) => assert_eq!(v, 7),
        _ => panic!("expected the fallback result"),
    }
    assert_eq!(decode_calls, 0);
    assert_eq!(fallback_calls, 1);
}

#[test]
fn failed_decode_invokes_fallback_once_even_for_an_empty_result() {
    let mut fallback_calls = 0u32;
    let r = extract_response(
        "application/json",
        "not a number",
        |_: &str| -> Result<Vec<u64>, String> { Err("invalid body".to_owned()) },
        Some(|_: &str| {
            fallback_calls += 1;
            Vec::<u64>::new()
        }),
    );
    match r {
        ExtractOutcome::Fallback(v) => assert!(v.is_empty()),
        _ => panic!("expected the fallback result"),
    }
    assert_eq!(fallback_calls, 1);
}

#[test]
fn without_fallback_the_decode_error_surfaces_with_an_excerpt() {
    let body: String = "x".repeat(500);
    let r = extract_response(
        "application/json",
        body.as_str(),
        ok_decode,
        None::<fn(&str) -> u64>,
    );
    match r {
        ExtractOutcome::Failed(failure) => {
            assert_eq!(failure.excerpt.chars().count(), 200);
            assert!(!failure.error.is_empty());
        },
        _ => panic!("expected a failure"),
    }
}

#[test]
fn markup_without_fallback_fails_without_decoding() {
    let r = extract_response(
        "text/html",
        "<html></html>",
        |_: &str| -> Result<u64, String> { panic!("the decode must not run") },
        None::<fn(&str) -> u64>,
    );
    match r {
        ExtractOutcome::Failed(failure) => {
            assert_eq!(failure.excerpt, "<html></html>");
        },
        _ => panic!("expected a failure"),
    }
}

#[test]
fn markup_detection_is_a_substring_match() {
    assert!(content_type_is_markup("text/html"));
    assert!(content_type_is_markup("text/html; charset=utf-8"));
    assert!(!content_type_is_markup("application/json"));
    assert!(!content_type_is_markup(""));
}

#[test]
fn excerpts_cap_at_two_hundred_characters() {
    assert_eq!(body_excerpt("short"), "short");
    let long: String = "ab".repeat(150);
    assert_eq!(body_excerpt(long.as_str()).chars().count(), 200);
}
