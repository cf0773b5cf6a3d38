//! The reclaim-convergence pass run after every route: repeat the engine's
//! reclaim operation until one pass reports that nothing was reclaimed, so
//! that memory retained by one route's work does not bias the next route's
//! timing.

use vstd::prelude::*;
use crate::events::LogEvent;

verus! {

/// The transcript of one convergence sequence in which the engine reported
/// `true_passes` reclaiming passes before the terminal pass that reclaimed
/// nothing: one non-terminal event per reclaiming pass, then the terminal
/// event that ends the loop.
pub open spec fn spec_gc_events(true_passes: u64) -> Seq<LogEvent> {
    Seq::new(true_passes as nat, |k: int| LogEvent::GcPass { terminal: false }).push(
        LogEvent::GcPass { terminal: true },
    )
}

/// Tracks one convergence sequence: how many reclaim passes ran and whether
/// the terminal pass (nothing reclaimed) has been seen. The engine's own
/// contract — that reclaim eventually reports nothing — is what bounds the
/// caller's loop; this state records each pass's outcome faithfully.
pub struct GcConverger {
    pub passes: u64,
    pub done: bool,
}

impl GcConverger {
    pub fn new() -> (g: GcConverger)
        ensures
            g.passes == 0,
            !g.done,
    {
        GcConverger { passes: 0, done: false }
    }

    /// Record the outcome of one reclaim pass: the sequence is finished
    /// exactly when the pass reclaimed nothing.
    pub fn record_pass(&mut self, reclaimed: bool)
        requires
            !old(self).done,
            old(self).passes < u64::MAX,
        ensures
            final(self).passes == old(self).passes + 1,
            final(self).done == !reclaimed,
    {
        self.passes = self.passes + 1;
        self.done = !reclaimed;
    }

    pub fn is_done(&self) -> (r: bool)
        ensures
            r == self.done,
    {
        self.done
    }
}

/// Law: on a static heap — the engine reclaims nothing because nothing new
/// was allocated — convergence takes exactly one pass: the transcript of the
/// sequence is the single terminal pass.
pub proof fn lemma_static_heap_converges_in_one_pass()
    ensures
        spec_gc_events(0) == seq![LogEvent::GcPass { terminal: true }],
        spec_gc_events(0).len() == 1,
{
    assert(spec_gc_events(0) =~= seq![LogEvent::GcPass { terminal: true }]);
}

/// Every convergence sequence runs one pass more than the engine reclaimed:
/// each reclaiming pass is followed by another, and the first non-reclaiming
/// pass is the last.
pub proof fn lemma_gc_pass_count(true_passes: u64)
    ensures
        spec_gc_events(true_passes).len() == true_passes + 1,
        forall|j: int|
            0 <= j <= true_passes ==> spec_gc_events(true_passes)[j] == (LogEvent::GcPass {
                terminal: j == true_passes,
            }),
{
}

/// Append the transcript of one convergence sequence with `true_passes`
/// reclaiming passes to the run's log.
pub fn push_gc_passes(log: &mut Vec<LogEvent>, true_passes: u64)
    ensures
        final(log)@ == old(log)@ + spec_gc_events(true_passes),
{
    let mut j: u64 = 0;
    while j < true_passes
        invariant
            j <= true_passes,
            log@ == old(log)@ + Seq::new(j as nat, |k: int| LogEvent::GcPass { terminal: false }),
        decreases true_passes - j,
    {
        log.push(LogEvent::GcPass { terminal: false });
        assert(log@ =~= old(log)@ + Seq::new(
            (j + 1) as nat,
            |k: int| LogEvent::GcPass { terminal: false },
        ));
        j = j + 1;
    }
    log.push(LogEvent::GcPass { terminal: true });
    assert(log@ =~= old(log)@ + spec_gc_events(true_passes));
}

} // verus!
