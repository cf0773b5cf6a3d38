//! Hot-module-reload replay bounds, slow-update warnings, fail-fast replay
//! aborts, reclaim convergence, and the memory probe's integer core.

use build_bench::driver::{run_benchmark, RunStatus};
use build_bench::events::LogEvent;
use build_bench::gc::GcConverger;
use build_bench::hmr::{is_slow_update, replay_hmr, replay_limit, HmrOutcome, HMR_REPLAY_CAP};
use build_bench::metrics::mebibytes_of;
use build_bench::route::{EndpointId, Route, RouteTable};

fn idents(n: usize) -> Vec<String> {
    (0..n).map(|i| format!("ident-{}", i)).collect()
}

fn fast(n: usize) -> Vec<HmrOutcome> {
    (0..n).map(|_| HmrOutcome::Completed { millis: 1 }).collect()
}

fn applied(log: &[LogEvent]) -> Vec<String> {
    log.iter()
        .filter_map(|e| match e {
            LogEvent::HmrUpdateApplied { ident } => Some(ident.clone()),
            _ => None,
        })
        .collect()
}

#[test]
fn replay_of_five_processes_all_five() {
    let ids = idents(5);
    let (log, failed) = replay_hmr(&ids, &fast(5));
    assert_eq!(failed, None);
    assert_eq!(applied(&log), ids);
}

#[test]
fn replay_of_fifty_processes_exactly_first_twenty_one() {
    let ids = idents(50);
    let (log, failed) = replay_hmr(&ids, &fast(21));
    assert_eq!(failed, None);
    assert_eq!(applied(&log), ids[..21].to_vec());
}

#[test]
fn replay_limit_is_capped() {
    assert_eq!(HMR_REPLAY_CAP, 21);
    assert_eq!(replay_limit(5), 5);
    assert_eq!(replay_limit(21), 21);
    assert_eq!(replay_limit(22), 21);
    assert_eq!(replay_limit(50), 21);
}

#[test]
fn slow_update_threshold_is_strict() {
    assert!(!is_slow_update(0));
    assert!(!is_slow_update(10));
    assert!(is_slow_update(11));
}

#[test]
fn update_over_threshold_warned_exactly_once() {
    let ids = idents(3);
    let outcomes = vec![
        HmrOutcome::Completed { millis: 5 },
        HmrOutcome::Completed { millis: 11 },
        HmrOutcome::Completed { millis: 10 },
    ];
    let (log, failed) = replay_hmr(&ids, &outcomes);
    assert_eq!(failed, None);
    let warnings: Vec<&LogEvent> = log
        .iter()
        .filter(|e| matches!(e, LogEvent::SlowUpdateWarning { .. }))
        .collect();
    assert_eq!(warnings.len(), 1);
    assert_eq!(
        *warnings[0],
        LogEvent::SlowUpdateWarning { ident: "ident-1".to_string(), millis: 11 }
    );
}

#[test]
fn failing_update_aborts_the_replay() {
    let ids = idents(4);
    let outcomes = vec![
        HmrOutcome::Completed { millis: 1 },
        HmrOutcome::Failed,
        HmrOutcome::Completed { millis: 1 },
        HmrOutcome::Completed { millis: 1 },
    ];
    let (log, failed) = replay_hmr(&ids, &outcomes);
    assert_eq!(failed, Some(1));
    assert_eq!(applied(&log), ids[..1].to_vec());
    assert!(log.contains(&LogEvent::HmrAborted { ident: "ident-1".to_string() }));
}

#[test]
fn failing_update_fails_the_run() {
    let table = RouteTable { entries: vec![] };
    let (_, status) = run_benchmark(
        &table,
        &vec![],
        &vec![],
        &idents(2),
        &vec![HmrOutcome::Completed { millis: 2 }, HmrOutcome::Failed],
    );
    assert_eq!(status, RunStatus::HmrFailed { ident: "ident-1".to_string() });
}

#[test]
fn slow_updates_surface_in_a_full_run() {
    let table = RouteTable { entries: vec![] };
    let (log, status) = run_benchmark(
        &table,
        &vec![],
        &vec![],
        &idents(2),
        &vec![HmrOutcome::Completed { millis: 40 }, HmrOutcome::Completed { millis: 3 }],
    );
    assert_eq!(status, RunStatus::Completed);
    assert!(log.contains(&LogEvent::SlowUpdateWarning {
        ident: "ident-0".to_string(),
        millis: 40,
    }));
    assert_eq!(applied(&log).len(), 2);
}

#[test]
fn static_heap_converges_in_one_pass() {
    let mut gc = GcConverger::new();
    assert!(!gc.is_done());
    gc.record_pass(false);
    assert!(gc.is_done());
    assert_eq!(gc.passes, 1);
}

#[test]
fn convergence_runs_until_nothing_reclaimed() {
    let mut gc = GcConverger::new();
    let signals = [true, true, true, false];
    for s in signals {
        assert!(!gc.is_done());
        gc.record_pass(s);
    }
    assert!(gc.is_done());
    assert_eq!(gc.passes, 4);
}

#[test]
fn reclaiming_passes_precede_the_terminal_pass() {
    let table = RouteTable {
        entries: vec![(
            "/only".to_string(),
            Route::PageApi { endpoint: EndpointId { id: 9 } },
        )],
    };
    let (log, status) = run_benchmark(&table, &vec![true], &vec![2], &vec![], &vec![]);
    assert_eq!(status, RunStatus::Completed);
    let passes: Vec<bool> = log
        .iter()
        .filter_map(|e| match e {
            LogEvent::GcPass { terminal } => Some(*terminal),
            _ => None,
        })
        .collect();
    assert_eq!(passes, vec![false, false, true]);
}

#[test]
fn mebibytes_are_bytes_divided_twice() {
    assert_eq!(mebibytes_of(0), 0);
    assert_eq!(mebibytes_of(1024 * 1024 - 1), 0);
    assert_eq!(mebibytes_of(1024 * 1024), 1);
    assert_eq!(mebibytes_of(6 * 1024 * 1024 * 1024), 6144);
}
