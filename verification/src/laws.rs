//! The laws of the orchestration core, each proved over the transcript
//! model: every route is visited exactly once and in the mapping's fixed
//! order; a conflict never materializes anything and never aborts the run; a
//! failure stops the run at once; the replay is bounded and its slow-update
//! warnings are exactly the updates over the threshold.

use vstd::prelude::*;
use crate::events::EventKind;
use crate::events::LogEvent;
use crate::events::event_kind;
use crate::events::events_of_kind;
use crate::events::lemma_events_of_kind_add;
use crate::events::lemma_events_of_kind_none;
use crate::driver::spec_first_failure_from;
use crate::driver::spec_route_events;
use crate::driver::spec_route_fails;
use crate::driver::spec_routes_from;
use crate::hmr::HmrOutcome;
use crate::hmr::spec_first_hmr_failure_from;
use crate::hmr::spec_hmr_events_from;
use crate::hmr::spec_is_slow;
use crate::hmr::spec_replay_limit;
use crate::route::Route;
use crate::route::spec_names_unique;

verus! {

/// Selecting a kind out of a one-event transcript keeps or drops that event.
pub proof fn lemma_events_of_kind_singleton(e: LogEvent, k: EventKind)
    ensures
        events_of_kind(seq![e], k) == if event_kind(e) == k {
            seq![e]
        } else {
            Seq::<LogEvent>::empty()
        },
{
    assert(seq![e].drop_first() =~= Seq::<LogEvent>::empty());
    assert(events_of_kind(Seq::<LogEvent>::empty(), k) == Seq::<LogEvent>::empty());
    if event_kind(e) == k {
        assert(events_of_kind(seq![e], k) =~= seq![e]);
    } else {
        assert(events_of_kind(seq![e], k) =~= Seq::<LogEvent>::empty());
    }
}

/// One route's turn announces exactly that route, once: whatever the route
/// is and however its unit of work went, the started events of its turn are
/// the single announcement of its name.
pub proof fn lemma_route_turn_announces_once(name: String, r: Route, ok: bool, g: u64)
    ensures
        events_of_kind(spec_route_events(name, r, ok, g), EventKind::Started) == seq![
            LogEvent::RouteStarted { name },
        ],
{
    let turn = spec_route_events(name, r, ok, g);
    assert(turn.len() >= 1 && turn[0] == (LogEvent::RouteStarted { name }));
    assert(forall|j: int| 1 <= j < turn.len() ==> event_kind(turn[j]) != EventKind::Started);
    assert(turn =~= seq![turn[0]] + turn.drop_first());
    lemma_events_of_kind_add(seq![turn[0]], turn.drop_first(), EventKind::Started);
    lemma_events_of_kind_singleton(turn[0], EventKind::Started);
    assert(forall|j: int|
        0 <= j < turn.drop_first().len() ==> event_kind(turn.drop_first()[j])
            != EventKind::Started);
    lemma_events_of_kind_none(turn.drop_first(), EventKind::Started);
    assert(events_of_kind(turn, EventKind::Started) =~= seq![LogEvent::RouteStarted { name }]);
}

/// A conflicting route's turn materializes nothing and cannot fail the run:
/// the conflict is warned about, and the run goes on.
pub proof fn lemma_conflict_route_harmless(name: String, r: Route, ok: bool, g: u64)
    requires
        r is Conflict,
    ensures
        !spec_route_fails(r, ok),
        events_of_kind(spec_route_events(name, r, ok, g), EventKind::Materialized) == Seq::<
            LogEvent,
        >::empty(),
{
    let turn = spec_route_events(name, r, ok, g);
    assert(forall|j: int| 0 <= j < turn.len() ==> event_kind(turn[j]) != EventKind::Materialized);
    lemma_events_of_kind_none(turn, EventKind::Materialized);
}

/// A failing entry reported by the route phase is a real entry whose unit of
/// work fails: in range, and never a conflict.
pub proof fn lemma_first_failure_is_a_failure(
    entries: Seq<(String, Route)>,
    results: Seq<bool>,
    i: int,
)
    requires
        0 <= i,
    ensures
        spec_first_failure_from(entries, results, i) matches Some(k) ==> i <= k < entries.len()
            && spec_route_fails(entries[k].1, results[k]),
    decreases entries.len() - i,
{
    if i < entries.len() && !spec_route_fails(entries[i].1, results[i]) {
        lemma_first_failure_is_a_failure(entries, results, i + 1);
    }
}

/// A conflicting entry never aborts the run by itself: it is never the
/// route phase's failing entry.
pub proof fn lemma_run_never_aborted_by_conflict(
    entries: Seq<(String, Route)>,
    results: Seq<bool>,
    k: int,
)
    requires
        0 <= k < entries.len(),
        entries[k].1 is Conflict,
    ensures
        spec_first_failure_from(entries, results, 0) != Some(k),
{
    lemma_first_failure_is_a_failure(entries, results, 0);
}

/// A mapping of conflicting routes only never materializes an endpoint and
/// never aborts, whatever the engine reported: the whole phase runs to the
/// end with warnings alone.
pub proof fn lemma_all_conflicts_harmless(
    entries: Seq<(String, Route)>,
    results: Seq<bool>,
    gc_trues: Seq<u64>,
    i: int,
)
    requires
        results.len() == entries.len(),
        gc_trues.len() == entries.len(),
        0 <= i <= entries.len(),
        forall|m: int| i <= m < entries.len() ==> entries[m].1 is Conflict,
    ensures
        spec_first_failure_from(entries, results, i) is None,
        events_of_kind(spec_routes_from(entries, results, gc_trues, i), EventKind::Materialized)
            == Seq::<LogEvent>::empty(),
    decreases entries.len() - i,
{
    if i == entries.len() {
        assert(events_of_kind(
            spec_routes_from(entries, results, gc_trues, i),
            EventKind::Materialized,
        ) =~= Seq::<LogEvent>::empty());
    } else {
        let turn = spec_route_events(entries[i].0, entries[i].1, results[i], gc_trues[i]);
        lemma_conflict_route_harmless(entries[i].0, entries[i].1, results[i], gc_trues[i]);
        lemma_all_conflicts_harmless(entries, results, gc_trues, i + 1);
        lemma_events_of_kind_add(
            turn,
            spec_routes_from(entries, results, gc_trues, i + 1),
            EventKind::Materialized,
        );
        assert(events_of_kind(
            spec_routes_from(entries, results, gc_trues, i),
            EventKind::Materialized,
        ) =~= Seq::<LogEvent>::empty());
    }
}

/// The position one past the last entry the route phase visits: the whole
/// mapping when no unit of work fails, else the failing entry itself.
pub open spec fn spec_visit_end(entries: Seq<(String, Route)>, results: Seq<bool>, i: int) -> int {
    match spec_first_failure_from(entries, results, i) {
        None => entries.len() as int,
        Some(k) => k + 1,
    }
}

/// The route phase from entry `i` on announces exactly the entries it
/// visits, one each, in the mapping's order: every entry up to and including
/// the first failing one, or every entry when none fails.
pub proof fn lemma_route_phase_announcements(
    entries: Seq<(String, Route)>,
    results: Seq<bool>,
    gc_trues: Seq<u64>,
    i: int,
)
    requires
        results.len() == entries.len(),
        gc_trues.len() == entries.len(),
        0 <= i <= entries.len(),
    ensures
        events_of_kind(spec_routes_from(entries, results, gc_trues, i), EventKind::Started).len()
            == spec_visit_end(entries, results, i) - i,
        forall|j: int|
            0 <= j < spec_visit_end(entries, results, i) - i ==> #[trigger] events_of_kind(
                spec_routes_from(entries, results, gc_trues, i),
                EventKind::Started,
            )[j] == (LogEvent::RouteStarted { name: entries[i + j].0 }),
    decreases entries.len() - i,
{
    lemma_first_failure_is_a_failure(entries, results, i);
    if i == entries.len() {
        assert(events_of_kind(spec_routes_from(entries, results, gc_trues, i), EventKind::Started)
            =~= Seq::<LogEvent>::empty());
    } else {
        let turn = spec_route_events(entries[i].0, entries[i].1, results[i], gc_trues[i]);
        lemma_route_turn_announces_once(entries[i].0, entries[i].1, results[i], gc_trues[i]);
        if spec_route_fails(entries[i].1, results[i]) {
            assert(spec_routes_from(entries, results, gc_trues, i) == turn);
            assert(spec_visit_end(entries, results, i) == i + 1);
        } else {
            lemma_route_phase_announcements(entries, results, gc_trues, i + 1);
            lemma_events_of_kind_add(
                turn,
                spec_routes_from(entries, results, gc_trues, i + 1),
                EventKind::Started,
            );
            assert(spec_first_failure_from(entries, results, i) == spec_first_failure_from(
                entries,
                results,
                i + 1,
            ));
        }
    }
}

/// Law: when every unit of work succeeds, the run visits every entry of the
/// mapping exactly once, announcing the keys in the mapping's own fixed
/// order.
pub proof fn lemma_visits_every_route_once(
    entries: Seq<(String, Route)>,
    results: Seq<bool>,
    gc_trues: Seq<u64>,
)
    requires
        results.len() == entries.len(),
        gc_trues.len() == entries.len(),
        spec_first_failure_from(entries, results, 0) is None,
    ensures
        events_of_kind(spec_routes_from(entries, results, gc_trues, 0), EventKind::Started).len()
            == entries.len(),
        forall|j: int|
            0 <= j < entries.len() ==> #[trigger] events_of_kind(
                spec_routes_from(entries, results, gc_trues, 0),
                EventKind::Started,
            )[j] == (LogEvent::RouteStarted { name: entries[j].0 }),
{
    lemma_route_phase_announcements(entries, results, gc_trues, 0);
}

/// Law: a failing unit of work at entry `k` stops the run there. The entries
/// announced are exactly the first `k + 1`, and — the mapping's keys being
/// unique — no later entry's key ever appears in an announcement.
pub proof fn lemma_failure_stops_later_routes(
    entries: Seq<(String, Route)>,
    results: Seq<bool>,
    gc_trues: Seq<u64>,
    k: int,
)
    requires
        results.len() == entries.len(),
        gc_trues.len() == entries.len(),
        spec_first_failure_from(entries, results, 0) == Some(k),
        spec_names_unique(entries),
    ensures
        events_of_kind(spec_routes_from(entries, results, gc_trues, 0), EventKind::Started).len()
            == k + 1,
        forall|j: int|
            0 <= j <= k ==> #[trigger] events_of_kind(
                spec_routes_from(entries, results, gc_trues, 0),
                EventKind::Started,
            )[j] == (LogEvent::RouteStarted { name: entries[j].0 }),
        forall|m: int, j: int|
            #![trigger events_of_kind(spec_routes_from(entries, results, gc_trues, 0), EventKind::Started)[j], entries[m]]
            k < m < entries.len() && 0 <= j <= k ==> events_of_kind(
                spec_routes_from(entries, results, gc_trues, 0),
                EventKind::Started,
            )[j] != (LogEvent::RouteStarted { name: entries[m].0 }),
{
    lemma_first_failure_is_a_failure(entries, results, 0);
    lemma_route_phase_announcements(entries, results, gc_trues, 0);
}

/// The slow-update warnings a replay from position `i` on is expected to
/// emit: one per completed update whose duration crossed the threshold, in
/// replay order, none after a failure.
pub open spec fn spec_slow_warnings_from(
    idents: Seq<String>,
    outcomes: Seq<HmrOutcome>,
    i: int,
) -> Seq<LogEvent>
    decreases spec_replay_limit(idents.len()) - i,
{
    if i < 0 || i >= spec_replay_limit(idents.len()) {
        Seq::empty()
    } else {
        match outcomes[i] {
            HmrOutcome::Completed { millis } => {
                let rest = spec_slow_warnings_from(idents, outcomes, i + 1);
                if spec_is_slow(millis) {
                    seq![LogEvent::SlowUpdateWarning { ident: idents[i], millis }] + rest
                } else {
                    rest
                }
            }
            HmrOutcome::Failed => Seq::empty(),
        }
    }
}

/// Law: the replay's slow-update warnings are exactly one warning — naming
/// the identifier and its duration — per update over the threshold, and none
/// for an update at or under it.
pub proof fn lemma_slow_update_warnings(idents: Seq<String>, outcomes: Seq<HmrOutcome>, i: int)
    requires
        0 <= i,
    ensures
        events_of_kind(spec_hmr_events_from(idents, outcomes, i), EventKind::SlowWarned)
            == spec_slow_warnings_from(idents, outcomes, i),
    decreases spec_replay_limit(idents.len()) - i,
{
    let t = spec_hmr_events_from(idents, outcomes, i);
    if i >= spec_replay_limit(idents.len()) {
        assert(events_of_kind(t, EventKind::SlowWarned) =~= Seq::<LogEvent>::empty());
    } else {
        match outcomes[i] {
            HmrOutcome::Completed { millis } => {
                let head: Seq<LogEvent> = if spec_is_slow(millis) {
                    seq![
                        LogEvent::HmrUpdateApplied { ident: idents[i] },
                        LogEvent::SlowUpdateWarning { ident: idents[i], millis },
                    ]
                } else {
                    seq![LogEvent::HmrUpdateApplied { ident: idents[i] }]
                };
                lemma_slow_update_warnings(idents, outcomes, i + 1);
                lemma_events_of_kind_add(
                    head,
                    spec_hmr_events_from(idents, outcomes, i + 1),
                    EventKind::SlowWarned,
                );
                if spec_is_slow(millis) {
                    assert(head.drop_first() =~= seq![
                        LogEvent::SlowUpdateWarning { ident: idents[i], millis },
                    ]);
                    lemma_events_of_kind_singleton(
                        LogEvent::SlowUpdateWarning { ident: idents[i], millis },
                        EventKind::SlowWarned,
                    );
                    assert(events_of_kind(head, EventKind::SlowWarned) =~= seq![
                        LogEvent::SlowUpdateWarning { ident: idents[i], millis },
                    ]);
                } else {
                    lemma_events_of_kind_singleton(
                        LogEvent::HmrUpdateApplied { ident: idents[i] },
                        EventKind::SlowWarned,
                    );
                }
                assert(events_of_kind(t, EventKind::SlowWarned) =~= spec_slow_warnings_from(
                    idents,
                    outcomes,
                    i,
                ));
            }
            HmrOutcome::Failed => {
                lemma_events_of_kind_singleton(
                    LogEvent::HmrAborted { ident: idents[i] },
                    EventKind::SlowWarned,
                );
            }
        }
    }
}

/// The replay from position `i` on applies at most the remaining identifiers
/// within the limit; when no update fails, it applies exactly those, in
/// order.
pub proof fn lemma_replay_applications(idents: Seq<String>, outcomes: Seq<HmrOutcome>, i: int)
    requires
        0 <= i <= spec_replay_limit(idents.len()),
    ensures
        spec_first_hmr_failure_from(idents, outcomes, i) is None ==> ({
            &&& events_of_kind(spec_hmr_events_from(idents, outcomes, i), EventKind::Applied).len()
                == spec_replay_limit(idents.len()) - i
            &&& forall|j: int|
                0 <= j < spec_replay_limit(idents.len()) - i ==> #[trigger] events_of_kind(
                    spec_hmr_events_from(idents, outcomes, i),
                    EventKind::Applied,
                )[j] == (LogEvent::HmrUpdateApplied { ident: idents[i + j] })
        }),
        events_of_kind(spec_hmr_events_from(idents, outcomes, i), EventKind::Applied).len()
            <= spec_replay_limit(idents.len()) - i,
    decreases spec_replay_limit(idents.len()) - i,
{
    let t = spec_hmr_events_from(idents, outcomes, i);
    if i == spec_replay_limit(idents.len()) {
        assert(events_of_kind(t, EventKind::Applied) =~= Seq::<LogEvent>::empty());
    } else {
        match outcomes[i] {
            HmrOutcome::Completed { millis } => {
                let head: Seq<LogEvent> = if spec_is_slow(millis) {
                    seq![
                        LogEvent::HmrUpdateApplied { ident: idents[i] },
                        LogEvent::SlowUpdateWarning { ident: idents[i], millis },
                    ]
                } else {
                    seq![LogEvent::HmrUpdateApplied { ident: idents[i] }]
                };
                lemma_replay_applications(idents, outcomes, i + 1);
                lemma_events_of_kind_add(
                    head,
                    spec_hmr_events_from(idents, outcomes, i + 1),
                    EventKind::Applied,
                );
                lemma_events_of_kind_singleton(
                    LogEvent::HmrUpdateApplied { ident: idents[i] },
                    EventKind::Applied,
                );
                if spec_is_slow(millis) {
                    assert(head.drop_first() =~= seq![
                        LogEvent::SlowUpdateWarning { ident: idents[i], millis },
                    ]);
                    lemma_events_of_kind_singleton(
                        LogEvent::SlowUpdateWarning { ident: idents[i], millis },
                        EventKind::Applied,
                    );
                    assert(events_of_kind(head, EventKind::Applied) =~= seq![
                        LogEvent::HmrUpdateApplied { ident: idents[i] },
                    ]);
                }
            }
            HmrOutcome::Failed => {
                lemma_events_of_kind_singleton(
                    LogEvent::HmrAborted { ident: idents[i] },
                    EventKind::Applied,
                );
            }
        }
    }
}

/// Law: the replay is bounded. However long the identifier sequence and
/// whatever the outcomes, at most `HMR_REPLAY_CAP` updates are applied; and
/// when none fails, the applied updates are exactly the sequence's first
/// `min(length, HMR_REPLAY_CAP)` identifiers, in order.
pub proof fn lemma_replay_is_bounded_prefix(idents: Seq<String>, outcomes: Seq<HmrOutcome>)
    ensures
        events_of_kind(spec_hmr_events_from(idents, outcomes, 0), EventKind::Applied).len()
            <= spec_replay_limit(idents.len()),
        events_of_kind(spec_hmr_events_from(idents, outcomes, 0), EventKind::Applied).len()
            <= crate::hmr::HMR_REPLAY_CAP,
        spec_first_hmr_failure_from(idents, outcomes, 0) is None ==> ({
            &&& events_of_kind(spec_hmr_events_from(idents, outcomes, 0), EventKind::Applied).len()
                == spec_replay_limit(idents.len())
            &&& forall|j: int|
                0 <= j < spec_replay_limit(idents.len()) ==> #[trigger] events_of_kind(
                    spec_hmr_events_from(idents, outcomes, 0),
                    EventKind::Applied,
                )[j] == (LogEvent::HmrUpdateApplied { ident: idents[j] })
        }),
{
    lemma_replay_applications(idents, outcomes, 0);
}

} // verus!
