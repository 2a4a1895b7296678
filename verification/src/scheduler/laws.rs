//! What holds of every batch at every time.

use vstd::prelude::*;
use crate::scheduler::model::{
    fetched_before, in_order, located_before, resolved_before, Action, BatchView, Entry, Event,
};
use crate::scheduler::proofs::{
    lemma_after_wf, lemma_moved_shape, lemma_occupancy_idle, lemma_unresolved_none,
};

verus! {

impl BatchView {
    /// The state after `events`, reported in order. A report that the batch is
    /// not waiting for changes nothing.
    pub open spec fn run(self, events: Seq<Event>) -> BatchView
        decreases events.len(),
    {
        if events.len() == 0 {
            self
        } else {
            let before = self.run(events.drop_last());
            if before.accepts(events.last()) {
                before.after(events.last())
            } else {
                before
            }
        }
    }
}

/// Whatever is reported to a well-formed batch, in whatever order, it stays
/// well-formed, and neither its window nor its tasks change in number.
pub proof fn lemma_run_wf(v: BatchView, events: Seq<Event>)
    requires
        v.wf(),
    ensures
        v.run(events).wf(),
        v.run(events).limit == v.limit,
        v.run(events).stages.len() == v.stages.len(),
        v.run(events).signatures.len() == v.signatures.len(),
    decreases events.len(),
{
    if events.len() > 0 {
        lemma_run_wf(v, events.drop_last());
        let before = v.run(events.drop_last());
        if before.accepts(events.last()) {
            lemma_after_wf(before, events.last());
        }
    }
}

/// The number of payload operations in flight never exceeds the window.
pub proof fn lemma_window_bounded(v: BatchView, events: Seq<Event>)
    requires
        v.wf(),
    ensures
        v.run(events).in_flight() <= v.limit,
{
    lemma_run_wf(v, events);
}

/// While payloads are queued and no signature transfer is pending, the window is full.
pub proof fn lemma_window_kept_full(v: BatchView, events: Seq<Event>)
    requires
        v.wf(),
        v.run(events).started,
        v.run(events).pending() == 0,
        v.run(events).next < v.stages.len(),
    ensures
        v.run(events).in_flight() == v.limit,
{
    lemma_run_wf(v, events);
}

/// No verification is asked for before the payload's transfer was reported
/// complete and its signature file was reported present.
pub proof fn lemma_verification_follows_transfer(
    v: BatchView,
    events: Seq<Event>,
    k: int,
    j: usize,
)
    requires
        v.wf(),
        0 <= k < v.run(events).log.len(),
        v.run(events).log[k] == Entry::Did(Action::VerifyPayload { index: j }),
    ensures
        fetched_before(v.run(events).log, j, k),
        located_before(v.run(events).log, j, k),
{
    lemma_run_wf(v, events);
    let w = v.run(events);
    assert(in_order(w.log, k, w.signatures.len()));
}

/// No payload transfer is asked for before every signature transfer was reported ended.
pub proof fn lemma_payloads_follow_signatures(
    v: BatchView,
    events: Seq<Event>,
    k: int,
    j: usize,
    i: usize,
)
    requires
        v.wf(),
        0 <= k < v.run(events).log.len(),
        v.run(events).log[k] == Entry::Did(Action::FetchPayload { index: j }),
        i < v.signatures.len(),
    ensures
        resolved_before(v.run(events).log, i, k),
{
    lemma_run_wf(v, events);
    let w = v.run(events);
    assert(in_order(w.log, k, w.signatures.len()));
}

/// The payload that a report is about.
pub open spec fn subject(event: Event) -> Option<usize> {
    match event {
        Event::SignatureFetched { .. } => None,
        Event::PayloadFetched { index, .. } => Some(index),
        Event::SignatureLocated { index, .. } => Some(index),
        Event::PayloadVerified { index, .. } => Some(index),
    }
}

/// A report about one payload, a failure as much as a success, leaves every
/// other payload where it stands; only the head of the queue may be admitted.
pub proof fn lemma_others_unaffected(v: BatchView, event: Event, i: int)
    requires
        v.wf(),
        v.accepts(event),
        subject(event) is Some,
        0 <= i < v.stages.len(),
        i != subject(event)->Some_0,
    ensures
        v.after(event).stages[i] == v.stages[i] || (i == v.next && v.stages[i] is Queued
            && v.after(event).stages[i] is Transferring),
{
}

/// A batch that was started and has not finished is waiting for something:
/// there is a report that it accepts.
pub proof fn lemma_never_stuck(v: BatchView)
    requires
        v.wf(),
        v.started,
        !v.finished(),
        v.stages.len() <= usize::MAX,
        v.signatures.len() <= usize::MAX,
    ensures
        exists|event: Event| v.accepts(event),
{
    if v.pending() > 0 {
        if forall|i: int| 0 <= i < v.signatures.len() ==> !(#[trigger] v.signatures[i] is InFlight) {
            lemma_unresolved_none(v.signatures);
        }
        let i = choose|i: int| 0 <= i < v.signatures.len() && #[trigger] v.signatures[i] is InFlight;
        let event = Event::SignatureFetched { index: i as usize, result: Ok(0) };
        assert(v.accepts(event));
    } else {
        let j = choose|j: int| 0 <= j < v.stages.len() && !(#[trigger] v.stages[j]).settled();
        if forall|k: int| 0 <= k < v.stages.len() ==> !(#[trigger] v.stages[k]).active() {
            lemma_occupancy_idle(v.stages);
            assert(v.stages[j] is Queued);
        }
        let k = choose|k: int| 0 <= k < v.stages.len() && (#[trigger] v.stages[k]).active();
        let index = k as usize;
        let fetched = Event::PayloadFetched { index, result: Ok(0) };
        let located = Event::SignatureLocated { index, present: true };
        let verified = Event::PayloadVerified { index, result: Ok(()) };
        assert(v.accepts(fetched) || v.accepts(located) || v.accepts(verified));
    }
}

/// Each accepted report brings the batch nearer to its end: a signature
/// transfer or a payload leaves the stage it was in, for good.
pub proof fn lemma_reports_are_taken_once(v: BatchView, event: Event)
    requires
        v.wf(),
        v.accepts(event),
    ensures
        !v.after(event).accepts(event),
{
    lemma_moved_shape(v, event);
}

} // verus!
