//! The route-build orchestrator and the whole benchmark run.
//!
//! The run visits the route mapping's entries in their fixed order. Every
//! route is announced, its endpoints are materialized as one unit of work
//! (a conflict is warned about instead), its completion is logged, and a
//! reclaim-convergence sequence follows. A failing unit aborts the run at
//! once — fail-fast — and nothing after it is processed. When all routes
//! succeed, the bounded hot-module-reload replay runs.
//!
//! The engine's behaviour enters as data: one success flag per route's unit
//! of work, one reclaiming-pass count per convergence sequence, one outcome
//! per replayed update. The functions here turn those outcomes into the
//! run's exact transcript.

use vstd::prelude::*;
use crate::events::LogEvent;
use crate::gc::push_gc_passes;
use crate::gc::spec_gc_events;
use crate::hmr::HmrOutcome;
use crate::hmr::replay_hmr;
use crate::hmr::spec_first_hmr_failure_from;
use crate::hmr::spec_hmr_events_from;
use crate::hmr::spec_replay_limit;
use crate::route::Route;
use crate::route::RouteTable;
use crate::route::route_endpoints;
use crate::route::spec_route_endpoints;

verus! {

/// How one benchmark run ended: every phase completed, or the run was
/// aborted by the named route's unit of work, or by the named identifier's
/// update.
#[derive(PartialEq, Eq, Debug)]
pub enum RunStatus {
    Completed,
    RouteFailed { name: String },
    HmrFailed { ident: String },
}

/// A route's unit of work fails the run exactly when the route materializes
/// endpoints and the engine reported failure; a conflict never does.
pub open spec fn spec_route_fails(r: Route, ok: bool) -> bool {
    !(r is Conflict) && !ok
}

/// The transcript of one route's turn: its announcement; then either the
/// conflict warning, or every endpoint materialized in order, or the abort;
/// a completed turn ends with its log line and a reclaim-convergence
/// sequence.
pub open spec fn spec_route_events(name: String, r: Route, ok: bool, gc_true_passes: u64) -> Seq<
    LogEvent,
> {
    if r is Conflict {
        seq![
            LogEvent::RouteStarted { name },
            LogEvent::ConflictWarning { name },
            LogEvent::RouteFinished { name },
        ] + spec_gc_events(gc_true_passes)
    } else if ok {
        seq![LogEvent::RouteStarted { name }] + Seq::new(
            spec_route_endpoints(r).len(),
            |j: int| LogEvent::EndpointMaterialized { endpoint: spec_route_endpoints(r)[j] },
        ) + seq![LogEvent::RouteFinished { name }] + spec_gc_events(gc_true_passes)
    } else {
        seq![LogEvent::RouteStarted { name }, LogEvent::RunAborted { name }]
    }
}

/// The route-phase transcript from entry `i` on: each entry's turn in order,
/// stopping right after the first failing unit of work.
pub open spec fn spec_routes_from(
    entries: Seq<(String, Route)>,
    results: Seq<bool>,
    gc_trues: Seq<u64>,
    i: int,
) -> Seq<LogEvent>
    decreases entries.len() - i,
{
    if i < 0 || i >= entries.len() {
        Seq::empty()
    } else {
        let turn = spec_route_events(entries[i].0, entries[i].1, results[i], gc_trues[i]);
        if spec_route_fails(entries[i].1, results[i]) {
            turn
        } else {
            turn + spec_routes_from(entries, results, gc_trues, i + 1)
        }
    }
}

/// The first entry at or after `i` whose unit of work fails the run.
pub open spec fn spec_first_failure_from(
    entries: Seq<(String, Route)>,
    results: Seq<bool>,
    i: int,
) -> Option<int>
    decreases entries.len() - i,
{
    if i < 0 || i >= entries.len() {
        None
    } else if spec_route_fails(entries[i].1, results[i]) {
        Some(i)
    } else {
        spec_first_failure_from(entries, results, i + 1)
    }
}

/// Drive the route-build phase over the whole mapping: `results[i]` is
/// whether entry `i`'s unit of work succeeded, `gc_trues[i]` how many
/// reclaiming passes the engine reported after it. Returns the phase's
/// transcript and the position of the failing entry, if one aborted the
/// phase.
pub fn build_routes(table: &RouteTable, results: &Vec<bool>, gc_trues: &Vec<u64>) -> (r: (
    Vec<LogEvent>,
    Option<usize>,
))
    requires
        results@.len() == table.entries@.len(),
        gc_trues@.len() == table.entries@.len(),
    ensures
        r.0@ == spec_routes_from(table.entries@, results@, gc_trues@, 0),
        r.1 matches Some(k) ==> spec_first_failure_from(table.entries@, results@, 0) == Some(
            k as int,
        ) && k < table.entries@.len(),
        r.1 is None ==> spec_first_failure_from(table.entries@, results@, 0) is None,
{
    let ghost entries = table.entries@;
    let n: usize = table.entries.len();
    let mut log: Vec<LogEvent> = Vec::new();
    let mut failed: Option<usize> = None;
    let mut i: usize = 0;
    while i < n && failed.is_none()
        invariant
            i <= n,
            n == entries.len(),
            entries == table.entries@,
            results@.len() == n,
            gc_trues@.len() == n,
            match failed {
                None => {
                    &&& spec_routes_from(entries, results@, gc_trues@, 0) == log@
                        + spec_routes_from(entries, results@, gc_trues@, i as int)
                    &&& spec_first_failure_from(entries, results@, 0) == spec_first_failure_from(
                        entries,
                        results@,
                        i as int,
                    )
                },
                Some(k) => {
                    &&& k < n
                    &&& log@ == spec_routes_from(entries, results@, gc_trues@, 0)
                    &&& spec_first_failure_from(entries, results@, 0) == Some(k as int)
                },
            },
        decreases n - i,
    {
        let ghost log_at_turn = log@;
        let ghost turn = spec_route_events(
            entries[i as int].0,
            entries[i as int].1,
            results@[i as int],
            gc_trues@[i as int],
        );
        let name = table.entries[i].0.clone();
        log.push(LogEvent::RouteStarted { name: name.clone() });
        let route = &table.entries[i].1;
        let mut ok = true;
        match route {
            Route::Conflict => {
                log.push(LogEvent::ConflictWarning { name: name.clone() });
                log.push(LogEvent::RouteFinished { name });
                push_gc_passes(&mut log, gc_trues[i]);
                assert(log@ =~= log_at_turn + turn);
            }
            _ => {
                if results[i] {
                    let eps = route_endpoints(route);
                    let mut j: usize = 0;
                    while j < eps.len()
                        invariant
                            j <= eps@.len(),
                            eps@ == spec_route_endpoints(entries[i as int].1),
                            i < entries.len(),
                            entries == table.entries@,
                            log@ == log_at_turn + seq![
                                LogEvent::RouteStarted { name: entries[i as int].0 },
                            ] + Seq::new(
                                j as nat,
                                |m: int| LogEvent::EndpointMaterialized { endpoint: eps@[m] },
                            ),
                        decreases eps@.len() - j,
                    {
                        log.push(LogEvent::EndpointMaterialized { endpoint: eps[j] });
                        assert(log@ =~= log_at_turn + seq![
                            LogEvent::RouteStarted { name: entries[i as int].0 },
                        ] + Seq::new(
                            (j + 1) as nat,
                            |m: int| LogEvent::EndpointMaterialized { endpoint: eps@[m] },
                        ));
                        j += 1;
                    }
                    log.push(LogEvent::RouteFinished { name });
                    push_gc_passes(&mut log, gc_trues[i]);
                    assert(log@ =~= log_at_turn + turn);
                } else {
                    log.push(LogEvent::RunAborted { name });
                    ok = false;
                    assert(log@ =~= log_at_turn + turn);
                }
            }
        }
        if ok {
            assert(spec_routes_from(entries, results@, gc_trues@, 0) =~= log@
                + spec_routes_from(entries, results@, gc_trues@, i + 1));
        } else {
            failed = Some(i);
            assert(log@ =~= spec_routes_from(entries, results@, gc_trues@, 0));
        }
        i += 1;
    }
    if failed.is_none() {
        assert(spec_routes_from(entries, results@, gc_trues@, i as int) =~= Seq::<
            LogEvent,
        >::empty());
        assert(log@ =~= spec_routes_from(entries, results@, gc_trues@, 0));
    }
    (log, failed)
}

/// The whole run's transcript: the route phase, then — only when no route
/// failed — the bounded hot-module-reload replay.
pub open spec fn spec_run_transcript(
    entries: Seq<(String, Route)>,
    results: Seq<bool>,
    gc_trues: Seq<u64>,
    idents: Seq<String>,
    outcomes: Seq<HmrOutcome>,
) -> Seq<LogEvent> {
    let routes_part = spec_routes_from(entries, results, gc_trues, 0);
    if spec_first_failure_from(entries, results, 0) is Some {
        routes_part
    } else {
        routes_part + spec_hmr_events_from(idents, outcomes, 0)
    }
}

/// How the run ends, given the engine's outcomes: aborted by the first
/// failing route, else by the first failing update, else completed.
pub open spec fn spec_run_status(
    entries: Seq<(String, Route)>,
    results: Seq<bool>,
    idents: Seq<String>,
    outcomes: Seq<HmrOutcome>,
) -> RunStatus {
    match spec_first_failure_from(entries, results, 0) {
        Some(k) => RunStatus::RouteFailed { name: entries[k].0 },
        None => match spec_first_hmr_failure_from(idents, outcomes, 0) {
            Some(j) => RunStatus::HmrFailed { ident: idents[j] },
            None => RunStatus::Completed,
        },
    }
}

/// One whole benchmark run over the engine's reported outcomes: the route
/// phase with its convergence sequences, fail-fast, then the bounded HMR
/// replay, fail-fast. Returns the run's exact transcript and how it ended.
pub fn run_benchmark(
    table: &RouteTable,
    results: &Vec<bool>,
    gc_trues: &Vec<u64>,
    idents: &Vec<String>,
    outcomes: &Vec<HmrOutcome>,
) -> (r: (Vec<LogEvent>, RunStatus))
    requires
        results@.len() == table.entries@.len(),
        gc_trues@.len() == table.entries@.len(),
        outcomes@.len() >= spec_replay_limit(idents@.len()),
    ensures
        r.0@ == spec_run_transcript(table.entries@, results@, gc_trues@, idents@, outcomes@),
        r.1 == spec_run_status(table.entries@, results@, idents@, outcomes@),
{
    let (mut log, route_failed) = build_routes(table, results, gc_trues);
    match route_failed {
        Some(k) => {
            let name = table.entries[k].0.clone();
            (log, RunStatus::RouteFailed { name })
        }
        None => {
            let (mut hmr_log, hmr_failed) = replay_hmr(idents, outcomes);
            log.append(&mut hmr_log);
            match hmr_failed {
                Some(j) => {
                    assert(j < idents@.len());
                    let ident = idents[j].clone();
                    (log, RunStatus::HmrFailed { ident })
                }
                None => (log, RunStatus::Completed),
            }
        }
    }
}

} // verus!
