//! Hot-module-reload replay: a bounded prefix of the project's HMR
//! identifiers is replayed strictly in order, one update at a time, and an
//! update slower than the threshold is flagged with a warning. A failing
//! update aborts the run, fail-fast.

use vstd::prelude::*;
use crate::events::LogEvent;

verus! {

/// At most this many identifiers are replayed, however long the identifier
/// sequence is.
pub const HMR_REPLAY_CAP: usize = 21;

/// An update that takes strictly longer than this many milliseconds is
/// flagged as slow.
pub const SLOW_UPDATE_MILLIS: u64 = 10;

/// The outcome of one HMR update, as the engine reported it: completed in a
/// measured wall-clock duration, or failed.
#[derive(Clone, Copy, PartialEq, Eq, Structural, Debug)]
pub enum HmrOutcome {
    Completed { millis: u64 },
    Failed,
}

/// How many identifiers a replay over a sequence of `n` processes: all of
/// them, up to the replay cap.
pub open spec fn spec_replay_limit(n: nat) -> nat {
    if n <= HMR_REPLAY_CAP { n } else { HMR_REPLAY_CAP as nat }
}

pub open spec fn spec_is_slow(millis: u64) -> bool {
    millis > SLOW_UPDATE_MILLIS
}

/// Whether a measured update duration crosses the slow-update threshold and
/// must be warned about.
pub fn is_slow_update(millis: u64) -> (r: bool)
    ensures
        r == spec_is_slow(millis),
{
    millis > SLOW_UPDATE_MILLIS
}

/// How many identifiers a replay over a sequence of `n` processes.
pub fn replay_limit(n: usize) -> (r: usize)
    ensures
        r as nat == spec_replay_limit(n as nat),
        r <= n,
        r <= HMR_REPLAY_CAP,
{
    if n <= HMR_REPLAY_CAP {
        n
    } else {
        HMR_REPLAY_CAP
    }
}

/// The replay transcript from identifier `i` on: each completed update is
/// recorded, followed by exactly one slow-update warning when its duration
/// crossed the threshold; a failed update is recorded and ends the replay at
/// once; the replay also ends once the limit is reached.
pub open spec fn spec_hmr_events_from(
    idents: Seq<String>,
    outcomes: Seq<HmrOutcome>,
    i: int,
) -> Seq<LogEvent>
    decreases spec_replay_limit(idents.len()) - i,
{
    if i < 0 || i >= spec_replay_limit(idents.len()) {
        Seq::empty()
    } else {
        match outcomes[i] {
            HmrOutcome::Completed { millis } => {
                let head = if spec_is_slow(millis) {
                    seq![
                        LogEvent::HmrUpdateApplied { ident: idents[i] },
                        LogEvent::SlowUpdateWarning { ident: idents[i], millis },
                    ]
                } else {
                    seq![LogEvent::HmrUpdateApplied { ident: idents[i] }]
                };
                head + spec_hmr_events_from(idents, outcomes, i + 1)
            }
            HmrOutcome::Failed => seq![LogEvent::HmrAborted { ident: idents[i] }],
        }
    }
}

/// The first failing update at or after position `i`, within the replay
/// limit.
pub open spec fn spec_first_hmr_failure_from(
    idents: Seq<String>,
    outcomes: Seq<HmrOutcome>,
    i: int,
) -> Option<int>
    decreases spec_replay_limit(idents.len()) - i,
{
    if i < 0 || i >= spec_replay_limit(idents.len()) {
        None
    } else if outcomes[i] is Failed {
        Some(i)
    } else {
        spec_first_hmr_failure_from(idents, outcomes, i + 1)
    }
}

/// Replay the bounded prefix of `idents`, reading each update's outcome from
/// `outcomes` (position by position, as the engine reported them). Returns
/// the replay transcript and the position of the failing update, if one
/// aborted the replay.
pub fn replay_hmr(idents: &Vec<String>, outcomes: &Vec<HmrOutcome>) -> (r: (
    Vec<LogEvent>,
    Option<usize>,
))
    requires
        outcomes@.len() >= spec_replay_limit(idents@.len()),
    ensures
        r.0@ == spec_hmr_events_from(idents@, outcomes@, 0),
        r.1 matches Some(k) ==> spec_first_hmr_failure_from(idents@, outcomes@, 0) == Some(
            k as int,
        ) && k < spec_replay_limit(idents@.len()),
        r.1 is None ==> spec_first_hmr_failure_from(idents@, outcomes@, 0) is None,
{
    let limit: usize = replay_limit(idents.len());
    let mut log: Vec<LogEvent> = Vec::new();
    let mut failed: Option<usize> = None;
    let mut i: usize = 0;
    while i < limit && failed.is_none()
        invariant
            i <= limit,
            limit as nat == spec_replay_limit(idents@.len()),
            limit <= idents@.len(),
            outcomes@.len() >= limit,
            match failed {
                None => {
                    &&& spec_hmr_events_from(idents@, outcomes@, 0) == log@
                        + spec_hmr_events_from(idents@, outcomes@, i as int)
                    &&& spec_first_hmr_failure_from(idents@, outcomes@, 0)
                        == spec_first_hmr_failure_from(idents@, outcomes@, i as int)
                },
                Some(k) => {
                    &&& k < limit
                    &&& log@ == spec_hmr_events_from(idents@, outcomes@, 0)
                    &&& spec_first_hmr_failure_from(idents@, outcomes@, 0) == Some(k as int)
                },
            },
        decreases limit - i,
    {
        let ident = idents[i].clone();
        match outcomes[i] {
            HmrOutcome::Completed { millis } => {
                log.push(LogEvent::HmrUpdateApplied { ident: ident.clone() });
                if is_slow_update(millis) {
                    log.push(LogEvent::SlowUpdateWarning { ident, millis });
                }
                assert(spec_hmr_events_from(idents@, outcomes@, 0) =~= log@
                    + spec_hmr_events_from(idents@, outcomes@, i + 1));
            }
            HmrOutcome::Failed => {
                log.push(LogEvent::HmrAborted { ident });
                failed = Some(i);
                assert(spec_hmr_events_from(idents@, outcomes@, 0) =~= log@);
            }
        }
        i += 1;
    }
    if failed.is_none() {
        assert(spec_hmr_events_from(idents@, outcomes@, i as int) =~= Seq::<LogEvent>::empty());
        assert(spec_hmr_events_from(idents@, outcomes@, 0) =~= log@);
    }
    (log, failed)
}

} // verus!
