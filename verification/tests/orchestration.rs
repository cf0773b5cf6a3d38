//! Route-build orchestration: dispatch per route variant, fixed visiting
//! order, fail-fast aborts, conflict handling, and the end-to-end scenario.

use build_bench::driver::{build_routes, run_benchmark, RunStatus};
use build_bench::events::LogEvent;
use build_bench::route::{route_endpoints, is_conflict, AppPageRoute, EndpointId, Route, RouteTable};

fn ep(id: u64) -> EndpointId {
    EndpointId { id }
}

fn name(s: &str) -> String {
    s.to_string()
}

fn page(html: u64, data: u64) -> Route {
    Route::Page { html_endpoint: ep(html), data_endpoint: ep(data) }
}

fn app_route(original: &str, endpoint: u64) -> Route {
    Route::AppRoute { original_name: name(original), endpoint: ep(endpoint) }
}

fn started(names: &[&str], log: &[LogEvent]) -> bool {
    let got: Vec<&String> = log
        .iter()
        .filter_map(|e| match e {
            LogEvent::RouteStarted { name } => Some(name),
            _ => None,
        })
        .collect();
    got.len() == names.len() && got.iter().zip(names.iter()).all(|(a, b)| a.as_str() == *b)
}

fn count_gc_passes(log: &[LogEvent]) -> (usize, usize) {
    let total = log.iter().filter(|e| matches!(e, LogEvent::GcPass { .. })).count();
    let terminal = log.iter().filter(|e| matches!(e, LogEvent::GcPass { terminal: true })).count();
    (total, terminal)
}

#[test]
fn page_materializes_html_endpoint_only() {
    let eps = route_endpoints(&page(7, 8));
    assert_eq!(eps, vec![ep(7)]);
}

#[test]
fn page_api_materializes_its_endpoint() {
    let eps = route_endpoints(&Route::PageApi { endpoint: ep(3) });
    assert_eq!(eps, vec![ep(3)]);
}

#[test]
fn app_route_materializes_its_endpoint() {
    let eps = route_endpoints(&app_route("/x", 4));
    assert_eq!(eps, vec![ep(4)]);
}

#[test]
fn app_page_materializes_every_subroute_html_in_order() {
    let sub = |n: u64| AppPageRoute {
        original_name: name("/sub"),
        html_endpoint: ep(n),
        rsc_endpoint: ep(n + 100),
    };
    let eps = route_endpoints(&Route::AppPage(vec![sub(1), sub(2), sub(3)]));
    assert_eq!(eps, vec![ep(1), ep(2), ep(3)]);
}

#[test]
fn conflict_has_no_endpoints() {
    assert_eq!(route_endpoints(&Route::Conflict), vec![]);
    assert!(is_conflict(&Route::Conflict));
    assert!(!is_conflict(&page(1, 2)));
}

#[test]
fn end_to_end_scenario() {
    // {"/a": Page, "/b": Conflict, "/c": AppRoute}: materialize /a's html
    // endpoint, warn about /b, materialize /c's endpoint, and run exactly
    // three reclaim-convergence sequences, one after each route.
    let table = RouteTable {
        entries: vec![
            (name("/a"), page(10, 11)),
            (name("/b"), Route::Conflict),
            (name("/c"), app_route("/c", 12)),
        ],
    };
    let (log, status) = run_benchmark(
        &table,
        &vec![true, true, true],
        &vec![0, 0, 0],
        &vec![],
        &vec![],
    );
    assert_eq!(status, RunStatus::Completed);
    let expected = vec![
        LogEvent::RouteStarted { name: name("/a") },
        LogEvent::EndpointMaterialized { endpoint: ep(10) },
        LogEvent::RouteFinished { name: name("/a") },
        LogEvent::GcPass { terminal: true },
        LogEvent::RouteStarted { name: name("/b") },
        LogEvent::ConflictWarning { name: name("/b") },
        LogEvent::RouteFinished { name: name("/b") },
        LogEvent::GcPass { terminal: true },
        LogEvent::RouteStarted { name: name("/c") },
        LogEvent::EndpointMaterialized { endpoint: ep(12) },
        LogEvent::RouteFinished { name: name("/c") },
        LogEvent::GcPass { terminal: true },
    ];
    assert_eq!(log, expected);
    assert_eq!(count_gc_passes(&log), (3, 3));
}

#[test]
fn visits_every_route_once_in_order() {
    let table = RouteTable {
        entries: vec![
            (name("/one"), page(1, 2)),
            (name("/two"), Route::PageApi { endpoint: ep(3) }),
            (name("/three"), app_route("/three", 4)),
        ],
    };
    let (log, failed) = build_routes(&table, &vec![true, true, true], &vec![0, 0, 0]);
    assert_eq!(failed, None);
    assert!(started(&["/one", "/two", "/three"], &log));
}

#[test]
fn failing_route_stops_every_following_route() {
    let table = RouteTable {
        entries: vec![
            (name("/a"), page(1, 2)),
            (name("/b"), Route::PageApi { endpoint: ep(3) }),
            (name("/c"), app_route("/c", 4)),
        ],
    };
    let (log, failed) = build_routes(&table, &vec![true, false, true], &vec![0, 0, 0]);
    assert_eq!(failed, Some(1));
    assert!(started(&["/a", "/b"], &log));
    assert!(log.contains(&LogEvent::RunAborted { name: name("/b") }));
    // Nothing of /c: no announcement, no materialization, no reclaim pass
    // for it.
    assert!(!log.contains(&LogEvent::RouteStarted { name: name("/c") }));
    assert!(!log.contains(&LogEvent::EndpointMaterialized { endpoint: ep(4) }));
    assert_eq!(count_gc_passes(&log).0, 1);
}

#[test]
fn route_failure_aborts_before_hmr_replay() {
    let table = RouteTable { entries: vec![(name("/a"), page(1, 2))] };
    let (log, status) = run_benchmark(
        &table,
        &vec![false],
        &vec![0],
        &vec![name("ident-a")],
        &vec![build_bench::hmr::HmrOutcome::Completed { millis: 1 }],
    );
    assert_eq!(status, RunStatus::RouteFailed { name: name("/a") });
    assert!(!log.iter().any(|e| matches!(e, LogEvent::HmrUpdateApplied { .. })));
}

#[test]
fn conflict_never_materializes_and_never_aborts() {
    // The engine's per-route flag for the conflict entry is irrelevant:
    // a conflict submits no materialization, so even a failure flag there
    // cannot abort the run.
    let table = RouteTable {
        entries: vec![(name("/dup"), Route::Conflict), (name("/ok"), page(5, 6))],
    };
    let (log, status) = run_benchmark(
        &table,
        &vec![false, true],
        &vec![0, 0],
        &vec![],
        &vec![],
    );
    assert_eq!(status, RunStatus::Completed);
    assert!(log.contains(&LogEvent::ConflictWarning { name: name("/dup") }));
    assert!(started(&["/dup", "/ok"], &log));
    assert_eq!(
        log.iter().filter(|e| matches!(e, LogEvent::EndpointMaterialized { .. })).count(),
        1
    );
}

#[test]
fn empty_mapping_completes_with_no_route_events() {
    let table = RouteTable { entries: vec![] };
    let (log, status) = run_benchmark(&table, &vec![], &vec![], &vec![], &vec![]);
    assert_eq!(status, RunStatus::Completed);
    assert_eq!(log, vec![]);
}
