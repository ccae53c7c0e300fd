use eam::classifier::analyze;

#[test]
fn listing_title_with_symbol() {
    let (is_new_listing, symbols) = analyze("New Listing: Foobar (FOO)", "");
    assert!(is_new_listing);
    assert_eq!(symbols, vec!["FOO".to_string()]);
}

#[test]
fn maintenance_is_not_a_listing() {
    let (is_new_listing, symbols) = analyze("Scheduled maintenance", "downtime expected");
    assert!(!is_new_listing);
    assert!(symbols.is_empty());
}

#[test]
fn symbols_in_order_without_duplicates() {
    let (is_new_listing, symbols) =
        analyze("[BTC] trading pair added", "Also supports (ETH) and (BTC)");
    assert!(is_new_listing);
    assert_eq!(symbols, vec!["BTC".to_string(), "ETH".to_string()]);
}

#[test]
fn analyze_is_deterministic() {
    let title = "Exchange will list Example (EXM) soon";
    let content = "Deposits open for [EXM] and (abc123)";
    let first = analyze(title, content);
    let second = analyze(title, content);
    assert_eq!(first, second);
    assert!(first.0);
    assert_eq!(
        first.1,
        vec!["EXM".to_string(), "ABC123".to_string()]
    );
}

#[test]
fn lowercase_symbols_are_uppercased() {
    let (is_new_listing, symbols) = analyze("New token (doge) now available", "");
    assert!(is_new_listing);
    assert_eq!(symbols, vec!["DOGE".to_string()]);
}

#[test]
fn symbol_extraction_skipped_without_listing_intent() {
    let (is_new_listing, symbols) = analyze("Routine report (BTC)", "numbers (ETH)");
    assert!(!is_new_listing);
    assert!(symbols.is_empty());
}

#[test]
fn cjk_keyword_detected() {
    let (is_new_listing, symbols) = analyze("上线 (NEW1)", "");
    assert!(is_new_listing);
    assert_eq!(symbols, vec!["NEW1".to_string()]);
}

#[test]
fn symbol_length_bounds() {
    // One character is too short, eleven characters is too long.
    let (is_new_listing, symbols) =
        analyze("new listing (A) (ABCDEFGHIJK) (AB) (ABCDEFGHIJ)", "");
    assert!(is_new_listing);
    assert_eq!(symbols, vec!["AB".to_string(), "ABCDEFGHIJ".to_string()]);
}

#[test]
fn mismatched_bracket_styles_accepted() {
    // The scanner accepts either closing delimiter for either opening one.
    let (is_new_listing, symbols) = analyze("will list (XYZ]", "");
    assert!(is_new_listing);
    assert_eq!(symbols, vec!["XYZ".to_string()]);
}

#[test]
fn keyword_match_is_case_insensitive() {
    let (is_new_listing, _) = analyze("NOW AVAILABLE: trading", "");
    assert!(is_new_listing);
    let (is_new_listing2, _) = analyze("", "Deposits Open tomorrow");
    assert!(is_new_listing2);
}

#[test]
fn empty_inputs_are_not_a_listing() {
    let (is_new_listing, symbols) = analyze("", "");
    assert!(!is_new_listing);
    assert!(symbols.is_empty());
}

#[test]
fn nested_open_bracket_restarts_scan() {
    let (is_new_listing, symbols) = analyze("listing ((FOO)", "");
    assert!(is_new_listing);
    assert_eq!(symbols, vec!["FOO".to_string()]);
}
