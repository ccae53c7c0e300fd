use eam::announcement::Announcement;
use eam::supervisor::{process_tick, summarize_tick, TickLog, TickOutcome};
use eam::supervisor::{advance, UnitEvent, UnitPhase};

fn fresh(title: &str, content: &str) -> Announcement {
    Announcement::new(
        "id-1".to_owned(),
        title.to_owned(),
        content.to_owned(),
        "https://example.test/notice/1".to_owned(),
        "Example".to_owned(),
        1686305476,
    )
}

#[test]
fn new_announcements_default_to_not_a_listing() {
    let a = fresh("New Listing: Foobar (FOO)", "");
    assert!(!a.is_new_listing);
    assert!(a.token_symbols.is_empty());
    assert_eq!(a.exchange, "Example");
    assert_eq!(a.published_at, 1686305476);
}

#[test]
fn analysis_derives_the_listing_fields() {
    let mut a = fresh("New Listing: Foobar (FOO)", "");
    a.analyze_for_new_listing();
    assert!(a.is_new_listing);
    assert_eq!(a.token_symbols, vec!["FOO".to_string()]);
    let mut b = fresh("Scheduled maintenance", "downtime expected");
    b.analyze_for_new_listing();
    assert!(!b.is_new_listing);
    assert!(b.token_symbols.is_empty());
}

#[test]
fn category_override_forces_the_flag_and_derives_symbols() {
    let mut a = fresh("Quiet title (ABC)", "no keyword here");
    a.analyze_for_new_listing();
    assert!(!a.is_new_listing);
    a.apply_category_override(&vec!["New asset listings".to_owned()]);
    assert!(a.is_new_listing);
    assert_eq!(a.token_symbols, vec!["ABC".to_string()]);
}

#[test]
fn category_override_without_a_listing_category_changes_nothing() {
    let mut a = fresh("Quiet title (ABC)", "no keyword here");
    a.analyze_for_new_listing();
    a.apply_category_override(&vec!["engineering".to_owned(), "markets".to_owned()]);
    assert!(!a.is_new_listing);
    assert!(a.token_symbols.is_empty());
}

#[test]
fn tick_summaries_count_and_locate_listings() {
    let mut batch = Vec::new();
    for (i, title) in ["nothing", "will list Foo (FOO)", "also nothing", "new listing (BAR)"]
        .iter()
        .enumerate()
    {
        let mut a = fresh(title, "");
        a.id = format!("id-{i}");
        a.analyze_for_new_listing();
        batch.push(a);
    }
    let summary = summarize_tick(&batch);
    assert_eq!(summary.total, 4);
    assert_eq!(summary.new_listings, 2);
    assert_eq!(summary.listing_indices, vec![1, 3]);
}

#[test]
fn a_failed_tick_is_logged_and_only_that_tick_ends() {
    let log = process_tick(TickOutcome::FetchFailed("connection reset".to_owned()));
    match log {
        TickLog::Failure(detail) => assert_eq!(detail, "connection reset"),
        _ => panic!("expected a failure log"),
    }
    // The unit's cycle closes the same way after any outcome.
    let mut phase = UnitPhase::WaitingForTick;
    phase = advance(phase, UnitEvent::TickArrived);
    assert_eq!(phase, UnitPhase::Fetching);
    phase = advance(phase, UnitEvent::FetchFinished);
    assert_eq!(phase, UnitPhase::Reporting);
    phase = advance(phase, UnitEvent::ReportLogged);
    assert_eq!(phase, UnitPhase::WaitingForTick);
}

#[test]
fn a_successful_tick_is_summarized() {
    let mut a = fresh("will list Foo (FOO)", "");
    a.analyze_for_new_listing();
    let log = process_tick(TickOutcome::Fetched(vec![a]));
    match log {
        TickLog::Summary(s) => {
            assert_eq!(s.total, 1);
            assert_eq!(s.new_listings, 1);
            assert_eq!(s.listing_indices, vec![0]);
        },
        _ => panic!("expected a summary log"),
    }
}
