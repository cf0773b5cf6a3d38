//! The observable record of one benchmark run: a transcript of log events,
//! and spec-level tools to select the events of one kind out of a transcript.

use vstd::prelude::*;
use crate::route::EndpointId;

verus! {

/// One observable step of a benchmark run, in the order the run performs
/// them. Durations and memory figures are measured by the caller when the
/// event is printed; the transcript records the decisions that are this
/// driver's own.
#[derive(PartialEq, Eq, Debug)]
pub enum LogEvent {
    /// A route's name is printed before its work starts.
    RouteStarted { name: String },
    /// One endpoint's output was materialized to persistent storage.
    EndpointMaterialized { endpoint: EndpointId },
    /// A conflicting route was warned about instead of materialized.
    ConflictWarning { name: String },
    /// A route's unit of work completed and its time/memory line is logged.
    RouteFinished { name: String },
    /// One reclaim pass of the engine; `terminal` marks the pass that
    /// reported nothing left to reclaim and ended the convergence loop.
    GcPass { terminal: bool },
    /// A route's unit of work failed; the run stops here.
    RunAborted { name: String },
    /// One hot-module-reload update was applied for an identifier.
    HmrUpdateApplied { ident: String },
    /// An applied update took longer than the slow-update threshold.
    SlowUpdateWarning { ident: String, millis: u64 },
    /// A hot-module-reload update failed; the run stops here.
    HmrAborted { ident: String },
}

/// The kind of a log event, for selecting events out of a transcript.
pub enum EventKind {
    Started,
    Materialized,
    ConflictWarned,
    Finished,
    Gc,
    Aborted,
    Applied,
    SlowWarned,
    HmrFailed,
}

pub open spec fn event_kind(e: LogEvent) -> EventKind {
    match e {
        LogEvent::RouteStarted { .. } => EventKind::Started,
        LogEvent::EndpointMaterialized { .. } => EventKind::Materialized,
        LogEvent::ConflictWarning { .. } => EventKind::ConflictWarned,
        LogEvent::RouteFinished { .. } => EventKind::Finished,
        LogEvent::GcPass { .. } => EventKind::Gc,
        LogEvent::RunAborted { .. } => EventKind::Aborted,
        LogEvent::HmrUpdateApplied { .. } => EventKind::Applied,
        LogEvent::SlowUpdateWarning { .. } => EventKind::SlowWarned,
        LogEvent::HmrAborted { .. } => EventKind::HmrFailed,
    }
}

/// The subsequence of `t` made of the events of kind `k`, in transcript
/// order.
pub open spec fn events_of_kind(t: Seq<LogEvent>, k: EventKind) -> Seq<LogEvent>
    decreases t.len(),
{
    if t.len() == 0 {
        Seq::empty()
    } else {
        let rest = events_of_kind(t.drop_first(), k);
        if event_kind(t[0]) == k {
            seq![t[0]] + rest
        } else {
            rest
        }
    }
}

/// Selecting a kind distributes over transcript concatenation.
pub proof fn lemma_events_of_kind_add(a: Seq<LogEvent>, b: Seq<LogEvent>, k: EventKind)
    ensures
        events_of_kind(a + b, k) == events_of_kind(a, k) + events_of_kind(b, k),
    decreases a.len(),
{
    if a.len() == 0 {
        assert(a + b =~= b);
        assert(events_of_kind(a, k) + events_of_kind(b, k) =~= events_of_kind(b, k));
    } else {
        assert((a + b).drop_first() =~= a.drop_first() + b);
        lemma_events_of_kind_add(a.drop_first(), b, k);
        if event_kind(a[0]) == k {
            assert(seq![a[0]] + (events_of_kind(a.drop_first(), k) + events_of_kind(b, k))
                =~= (seq![a[0]] + events_of_kind(a.drop_first(), k)) + events_of_kind(b, k));
        }
    }
}

/// A transcript with no event of kind `k` selects to the empty sequence.
pub proof fn lemma_events_of_kind_none(t: Seq<LogEvent>, k: EventKind)
    requires
        forall|j: int| 0 <= j < t.len() ==> event_kind(t[j]) != k,
    ensures
        events_of_kind(t, k) == Seq::<LogEvent>::empty(),
    decreases t.len(),
{
    if t.len() > 0 {
        assert(forall|j: int|
            0 <= j < t.drop_first().len() ==> event_kind(t.drop_first()[j]) != k);
        lemma_events_of_kind_none(t.drop_first(), k);
    }
}

} // verus!
