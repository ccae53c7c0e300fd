//! Per-source supervision: the single repeated cycle of one polling unit —
//! wait for the tick, fetch, report, wait again — and the report of one
//! tick.  A fetch failure is reported and the cycle closes exactly as on
//! success: no outcome stops a unit's loop, and each unit runs on its own
//! interval, independent of every other unit.

use vstd::prelude::*;

use crate::announcement::Announcement;

verus! {

/// Number of listing announcements in a batch.
pub open spec fn listing_count(s: Seq<Announcement>) -> int
    decreases s.len(),
{
    if s.len() == 0 {
        0
    } else {
        listing_count(s.drop_last()) + if s.last().is_new_listing {
            1int
        } else {
            0int
        }
    }
}

/// The aggregate log of one successful tick.
pub struct TickSummary {
    /// How many announcements the fetch returned.
    pub total: usize,
    /// How many of them are new listings.
    pub new_listings: usize,
    /// The positions of the listings, in order: each is logged with its
    /// title, symbols and URL.
    pub listing_indices: Vec<usize>,
}

/// Summarizes a fetched batch: the counts, and the positions of the flagged
/// listings in order.
pub fn summarize_tick(announcements: &Vec<Announcement>) -> (r: TickSummary)
    ensures
        r.total == announcements@.len(),
        r.new_listings == listing_count(announcements@),
        r.listing_indices@.len() == listing_count(announcements@),
        forall|k: int|
            0 <= k < r.listing_indices@.len() ==> r.listing_indices@[k] < announcements@.len()
                && announcements@[r.listing_indices@[k] as int].is_new_listing,
        forall|k1: int, k2: int|
            0 <= k1 < k2 < r.listing_indices@.len() ==> r.listing_indices@[k1]
                < r.listing_indices@[k2],
        forall|j: int|
            0 <= j < announcements@.len() && announcements@[j].is_new_listing
                ==> r.listing_indices@.contains(j as usize),
{
    let total = announcements.len();
    let mut listing_indices: Vec<usize> = Vec::new();
    let mut i: usize = 0;
    proof {
        assert(announcements@.subrange(0, 0) =~= Seq::<Announcement>::empty());
    }
    while i < total
        invariant
            total == announcements@.len(),
            i <= total,
            listing_indices@.len() == listing_count(announcements@.subrange(0, i as int)),
            forall|k: int|
                0 <= k < listing_indices@.len() ==> listing_indices@[k] < i
                    && announcements@[listing_indices@[k] as int].is_new_listing,
            forall|k1: int, k2: int|
                0 <= k1 < k2 < listing_indices@.len() ==> listing_indices@[k1]
                    < listing_indices@[k2],
            forall|j: int|
                0 <= j < i && announcements@[j].is_new_listing ==> listing_indices@.contains(
                    j as usize,
                ),
        decreases total - i,
    {
        proof {
            assert(announcements@.subrange(0, i + 1 as int).drop_last() =~= announcements@.subrange(
                0,
                i as int,
            ));
            assert(announcements@.subrange(0, i + 1 as int).last() == announcements@[i as int]);
        }
        if announcements[i].is_new_listing {
            let ghost pre = listing_indices@;
            listing_indices.push(i);
            proof {
                assert forall|j: usize| pre.contains(j) implies listing_indices@.contains(j) by {
                    let k = choose|k: int| 0 <= k < pre.len() && pre[k] == j;
                    assert(listing_indices@[k] == j);
                };
                assert(listing_indices@[listing_indices@.len() - 1] == i as usize);
                assert(listing_indices@.contains(i as usize));
            }
        }
        i = i + 1;
    }
    proof {
        assert(announcements@.subrange(0, total as int) =~= announcements@);
    }
    let new_listings = listing_indices.len();
    TickSummary { total, new_listings, listing_indices }
}

/// What one tick's fetch produced.
pub enum TickOutcome {
    /// The adapter returned a batch of announcements.
    Fetched(Vec<Announcement>),
    /// The adapter's fetch failed; the error detail to log.
    FetchFailed(String),
}

/// What a unit logs for one tick.
pub enum TickLog {
    /// A successful tick: the aggregate counts and the flagged listings.
    Summary(TickSummary),
    /// A failed tick: the exchange keeps polling; only this detail is
    /// logged.
    Failure(String),
}

/// Turns a tick's outcome into its log record.  Every outcome yields a log
/// and the unit continues: a fetch failure terminates only the current tick.
pub fn process_tick(outcome: TickOutcome) -> (r: TickLog)
    ensures
        match outcome {
            TickOutcome::Fetched(batch) => r matches TickLog::Summary(s) && {
                &&& s.total == batch@.len()
                &&& s.new_listings == listing_count(batch@)
            },
            TickOutcome::FetchFailed(e) => r == TickLog::Failure(e),
        },
{
    match outcome {
        TickOutcome::Fetched(batch) => TickLog::Summary(summarize_tick(&batch)),
        TickOutcome::FetchFailed(e) => TickLog::Failure(e),
    }
}

/// The phase of one polling unit inside its cycle.
#[derive(Clone, Copy, Debug, PartialEq, Eq, Structural)]
pub enum UnitPhase {
    /// Waiting for the next tick of its own interval.
    WaitingForTick,
    /// The adapter's fetch is running.
    Fetching,
    /// The tick's outcome — success or failure — is being logged.
    Reporting,
}

/// What happens to one polling unit.
#[derive(Clone, Copy, Debug, PartialEq, Eq, Structural)]
pub enum UnitEvent {
    /// The unit's own interval ticked.
    TickArrived,
    /// The fetch finished, in success or failure.
    FetchFinished,
    /// The tick's log record was written.
    ReportLogged,
}

/// The cycle of one unit: waiting, fetching, reporting, waiting again.  An
/// event out of protocol leaves the phase unchanged; no phase is terminal.
pub open spec fn spec_advance(phase: UnitPhase, event: UnitEvent) -> UnitPhase {
    match (phase, event) {
        (UnitPhase::WaitingForTick, UnitEvent::TickArrived) => UnitPhase::Fetching,
        (UnitPhase::Fetching, UnitEvent::FetchFinished) => UnitPhase::Reporting,
        (UnitPhase::Reporting, UnitEvent::ReportLogged) => UnitPhase::WaitingForTick,
        _ => phase,
    }
}

/// Advances one unit's phase on an event.
pub fn advance(phase: UnitPhase, event: UnitEvent) -> (r: UnitPhase)
    ensures
        r == spec_advance(phase, event),
{
    match (phase, event) {
        (UnitPhase::WaitingForTick, UnitEvent::TickArrived) => UnitPhase::Fetching,
        (UnitPhase::Fetching, UnitEvent::FetchFinished) => UnitPhase::Reporting,
        (UnitPhase::Reporting, UnitEvent::ReportLogged) => UnitPhase::WaitingForTick,
        (p, _) => p,
    }
}

/// Law: the cycle closes whatever the fetch produced.  Once a fetch
/// finishes — in success or in failure alike — the unit reports and is back
/// waiting for its own next tick; no outcome ends the loop or changes what
/// phase comes next.
pub proof fn lemma_tick_cycle_closes()
    ensures
        spec_advance(
            spec_advance(
                spec_advance(UnitPhase::WaitingForTick, UnitEvent::TickArrived),
                UnitEvent::FetchFinished,
            ),
            UnitEvent::ReportLogged,
        ) == UnitPhase::WaitingForTick,
{
}

} // verus!
