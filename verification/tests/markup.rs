use eam::markup::div_texts;

#[test]
fn marked_blocks_are_scanned_in_order_and_trimmed() {
    let html = "<div class=\"article-title bold\"> First Notice </div>\
                <div class=\"article-date\">2023-06-09</div>\
                <div class=\"article-title\">Second</div>";
    assert_eq!(
        div_texts(html, "class=\"article-title"),
        vec!["First Notice".to_string(), "Second".to_string()]
    );
    assert_eq!(div_texts(html, "class=\"article-date"), vec!["2023-06-09".to_string()]);
}

#[test]
fn a_block_without_a_closing_tag_ends_the_scan() {
    let html = "<div class=\"x\">kept</div><div class=\"x\">no close";
    assert_eq!(div_texts(html, "class=\"x"), vec!["kept".to_string()]);
    assert_eq!(div_texts("nothing here", "class=\"x"), Vec::<String>::new());
}

#[test]
fn an_empty_block_yields_an_empty_text() {
    let html = "<div class=\"x\">   </div>";
    assert_eq!(div_texts(html, "class=\"x"), vec![String::new()]);
}
