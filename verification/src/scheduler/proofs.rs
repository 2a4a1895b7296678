//! Why every reaction of a batch keeps it well-formed.

use vstd::prelude::*;
use crate::scheduler::model::{
    fetched_before, in_order, is_fetch_of, is_location_of, is_resolution_of, located_before,
    first_fill, occupancy, resolved_before, unresolved, window, Action, ArtifactError, BatchView,
    Entry, Event, SignatureStage, Stage,
};
use crate::verify::VerificationError;

verus! {

/// Replacing one stage changes the occupancy by what the old and the new stage occupy.
pub proof fn lemma_occupancy_update(s: Seq<Stage>, j: int, x: Stage)
    requires
        0 <= j < s.len(),
    ensures
        occupancy(s.update(j, x)) + (if s[j].active() {
            1int
        } else {
            0int
        }) == occupancy(s) + (if x.active() {
            1int
        } else {
            0int
        }),
    decreases s.len(),
{
    let t = s.update(j, x);
    if j == s.len() - 1 {
        assert(t.drop_last() =~= s.drop_last());
    } else {
        assert(t.drop_last() =~= s.drop_last().update(j, x));
        lemma_occupancy_update(s.drop_last(), j, x);
    }
}

/// A window of which `k` stages are in transfer is occupied by `k`.
pub proof fn lemma_occupancy_window(n: nat, k: nat)
    requires
        k <= n,
    ensures
        occupancy(window(n, k)) == k,
    decreases n,
{
    if n > 0 {
        let m = (n - 1) as nat;
        if k == n {
            assert(window(n, k).drop_last() =~= window(m, m));
            lemma_occupancy_window(m, m);
        } else {
            assert(window(n, k).drop_last() =~= window(m, k));
            lemma_occupancy_window(m, k);
        }
    }
}

/// Stages of which none is active occupy nothing.
pub proof fn lemma_occupancy_idle(s: Seq<Stage>)
    requires
        forall|j: int| 0 <= j < s.len() ==> !(#[trigger] s[j]).active(),
    ensures
        occupancy(s) == 0,
    decreases s.len(),
{
    if s.len() > 0 {
        lemma_occupancy_idle(s.drop_last());
    }
}

/// No operation occupies the window exactly when no stage is active.
pub proof fn lemma_occupancy_zero(s: Seq<Stage>)
    requires
        occupancy(s) == 0,
    ensures
        forall|j: int| 0 <= j < s.len() ==> !(#[trigger] s[j]).active(),
    decreases s.len(),
{
    if s.len() > 0 {
        lemma_occupancy_zero(s.drop_last());
        assert forall|j: int| 0 <= j < s.len() implies !(#[trigger] s[j]).active() by {
            if j < s.len() - 1 {
                assert(s.drop_last()[j] == s[j]);
            }
        }
    }
}

/// Replacing one signature stage changes the count of those in flight accordingly.
pub proof fn lemma_unresolved_update(s: Seq<SignatureStage>, i: int, x: SignatureStage)
    requires
        0 <= i < s.len(),
    ensures
        unresolved(s.update(i, x)) + (if s[i] is InFlight {
            1int
        } else {
            0int
        }) == unresolved(s) + (if x is InFlight {
            1int
        } else {
            0int
        }),
    decreases s.len(),
{
    let t = s.update(i, x);
    if i == s.len() - 1 {
        assert(t.drop_last() =~= s.drop_last());
    } else {
        assert(t.drop_last() =~= s.drop_last().update(i, x));
        lemma_unresolved_update(s.drop_last(), i, x);
    }
}

/// Where no signature transfer is counted, none is in flight.
pub proof fn lemma_unresolved_zero(s: Seq<SignatureStage>)
    requires
        unresolved(s) == 0,
    ensures
        forall|i: int| 0 <= i < s.len() ==> !(#[trigger] s[i] is InFlight),
    decreases s.len(),
{
    if s.len() > 0 {
        lemma_unresolved_zero(s.drop_last());
        assert forall|i: int| 0 <= i < s.len() implies !(#[trigger] s[i] is InFlight) by {
            if i < s.len() - 1 {
                assert(s.drop_last()[i] == s[i]);
            }
        }
    }
}

/// Signature transfers that are all in flight count as many as they are.
pub proof fn lemma_unresolved_all(s: Seq<SignatureStage>)
    requires
        forall|i: int| 0 <= i < s.len() ==> #[trigger] s[i] is InFlight,
    ensures
        unresolved(s) == s.len(),
    decreases s.len(),
{
    if s.len() > 0 {
        lemma_unresolved_all(s.drop_last());
    }
}

/// Signature transfers of which none is in flight count zero.
pub proof fn lemma_unresolved_none(s: Seq<SignatureStage>)
    requires
        forall|i: int| 0 <= i < s.len() ==> !(#[trigger] s[i] is InFlight),
    ensures
        unresolved(s) == 0,
    decreases s.len(),
{
    if s.len() > 0 {
        lemma_unresolved_none(s.drop_last());
    }
}

/// `b` continues `a`.
pub open spec fn extends(a: Seq<Entry>, b: Seq<Entry>) -> bool {
    a.len() <= b.len() && forall|i: int| 0 <= i < a.len() ==> #[trigger] b[i] == a[i]
}

/// A report of a complete transfer stays on record when the history goes on.
pub proof fn lemma_fetched_kept(a: Seq<Entry>, b: Seq<Entry>, j: usize, k: int, l: int)
    requires
        extends(a, b),
        k <= l,
        fetched_before(a, j, k),
    ensures
        fetched_before(b, j, l),
{
    let i = choose|i: int| 0 <= i < k && i < a.len() && is_fetch_of(#[trigger] a[i], j);
    assert(b[i] == a[i]);
    assert(is_fetch_of(b[i], j));
}

/// A report of a present signature file stays on record when the history goes on.
pub proof fn lemma_located_kept(a: Seq<Entry>, b: Seq<Entry>, j: usize, k: int, l: int)
    requires
        extends(a, b),
        k <= l,
        located_before(a, j, k),
    ensures
        located_before(b, j, l),
{
    let i = choose|i: int| 0 <= i < k && i < a.len() && is_location_of(#[trigger] a[i], j);
    assert(b[i] == a[i]);
    assert(is_location_of(b[i], j));
}

/// A report of an ended signature transfer stays on record when the history goes on.
pub proof fn lemma_resolved_kept(a: Seq<Entry>, b: Seq<Entry>, i: usize, k: int, l: int)
    requires
        extends(a, b),
        k <= l,
        resolved_before(a, i, k),
    ensures
        resolved_before(b, i, l),
{
    let m = choose|m: int| 0 <= m < k && m < a.len() && is_resolution_of(#[trigger] a[m], i);
    assert(b[m] == a[m]);
    assert(is_resolution_of(b[m], i));
}

/// A line that stands in order stays in order when the history goes on.
pub proof fn lemma_in_order_kept(a: Seq<Entry>, b: Seq<Entry>, k: int, signatures: nat)
    requires
        extends(a, b),
        0 <= k < a.len(),
        in_order(a, k, signatures),
    ensures
        in_order(b, k, signatures),
{
    assert(b[k] == a[k]);
    match a[k] {
        Entry::Did(Action::VerifyPayload { index }) => {
            lemma_fetched_kept(a, b, index, k, k);
            lemma_located_kept(a, b, index, k, k);
        },
        Entry::Did(Action::FetchPayload { .. }) => {
            assert forall|i: usize| i < signatures implies #[trigger] resolved_before(b, i, k) by {
                assert(resolved_before(a, i, k));
                lemma_resolved_kept(a, b, i, k, k);
            }
        },
        _ => {},
    }
}

/// What stands where in a history that was extended by an event and its answer.
pub proof fn lemma_recorded(v: BatchView, event: Event, actions: Seq<Action>)
    ensures
        extends(v.log, v.recorded(event, actions)),
        v.recorded(event, actions).len() == v.log.len() + 1 + actions.len(),
        v.recorded(event, actions)[v.log.len() as int] == Entry::Got(event),
        forall|k: int|
            v.log.len() < k < v.log.len() + 1 + actions.len() ==> #[trigger] v.recorded(
                event,
                actions,
            )[k] == Entry::Did(actions[k - v.log.len() - 1]),
{
}

/// Every signature transfer of a started batch with none pending is on record as ended.
pub proof fn lemma_all_resolved(v: BatchView)
    requires
        v.wf(),
        v.started,
        v.pending() == 0,
    ensures
        forall|i: usize|
            i < v.signatures.len() ==> #[trigger] resolved_before(
                v.log,
                i,
                v.log.len() as int,
            ),
{
    lemma_unresolved_zero(v.signatures);
    assert forall|i: usize| i < v.signatures.len() implies #[trigger] resolved_before(
        v.log,
        i,
        v.log.len() as int,
    ) by {
        let s = v.signatures[i as int];
        assert(!(s is Waiting));
        assert(!(s is InFlight));
        assert(s is Fetched || s is Failed);
    }
}

/// A settled operation leaves the window and the head of the queue takes its place.
pub proof fn lemma_replaced_shape(v: BatchView, j: int, stage: Stage)
    requires
        v.shape(),
        v.started,
        0 <= j < v.stages.len(),
        v.stages[j].active(),
        stage.settled(),
    ensures
        v.replaced(j, stage).shape(),
        v.pending() == 0,
{
    assert(!(v.stages[j] is Queued));
    assert(j < v.next);
    let s1 = v.stages.update(j, stage);
    lemma_occupancy_update(v.stages, j, stage);
    let w = v.replaced(j, stage);
    if v.next < v.stages.len() {
        let n = v.next as int;
        assert(v.stages[n] is Queued);
        lemma_occupancy_update(s1, n, Stage::Transferring);
        assert(w.stages == s1.update(n, Stage::Transferring));
        assert forall|i: int| 0 <= i < w.stages.len() implies (#[trigger] w.stages[i] is Queued
            <==> i >= w.next) by {
            if i != j && i != n {
                assert(w.stages[i] == v.stages[i]);
            }
        }
    } else {
        assert forall|i: int| 0 <= i < w.stages.len() implies (#[trigger] w.stages[i] is Queued
            <==> i >= w.next) by {
            if i != j {
                assert(w.stages[i] == v.stages[i]);
            }
        }
    }
}

/// An operation that moves on keeps its place in the window.
pub proof fn lemma_advanced_shape(v: BatchView, j: int, stage: Stage)
    requires
        v.shape(),
        0 <= j < v.stages.len(),
        v.stages[j].active(),
        stage.active(),
    ensures
        v.advanced(j, stage).shape(),
{
    lemma_occupancy_update(v.stages, j, stage);
    let w = v.advanced(j, stage);
    assert forall|i: int| 0 <= i < w.stages.len() implies (#[trigger] w.stages[i] is Queued <==> i
        >= w.next) by {
        if i != j {
            assert(w.stages[i] == v.stages[i]);
        }
    }
}

/// Once no signature transfer is pending, filling the window gives a batch in shape.
pub proof fn lemma_opened_shape(v: BatchView)
    requires
        v.limit >= 1,
        v.links.len() == v.stages.len(),
        v.marked.len() == v.stages.len(),
        v.bytes.len() == v.stages.len(),
        forall|j: int|
            0 <= j < v.links.len() ==> (#[trigger] v.links[j] matches Some(i) ==> i
                < v.signatures.len()),
        v.started,
        forall|i: int| 0 <= i < v.signatures.len() ==> !(#[trigger] v.signatures[i] is Waiting),
        v.pending() == 0,
    ensures
        v.opened().shape(),
{
    let n = v.stages.len();
    let k = first_fill(v.limit, n);
    lemma_occupancy_window(n, k);
    let w = v.opened();
    assert(w.stages == window(n, k));
    assert(w.in_flight() == k);
}

/// Whatever is reported to a batch in shape, it stays in shape.
pub proof fn lemma_moved_shape(v: BatchView, event: Event)
    requires
        v.shape(),
        v.accepts(event),
    ensures
        v.moved(event).shape(),
{
    let missing = Stage::Failed(ArtifactError::Verification(VerificationError::SignatureMissing));
    match event {
        Event::SignatureFetched { index, result } => {
            let stage = match result {
                Ok(_) => SignatureStage::Fetched,
                Err(e) => SignatureStage::Failed(e),
            };
            lemma_unresolved_update(v.signatures, index as int, stage);
            assert(v.pending() >= 1);
            assert(v.next == 0);
            let marked = if result is Err {
                Seq::new(v.marked.len(), |j: int| v.marked[j] || v.links[j] == Some(index))
            } else {
                v.marked
            };
            let resolved = BatchView {
                signatures: v.signatures.update(index as int, stage),
                marked,
                ..v
            };
            assert forall|i: int| 0 <= i < resolved.signatures.len() implies !(
            #[trigger] resolved.signatures[i] is Waiting) by {
                if i != index as int {
                    assert(resolved.signatures[i] == v.signatures[i]);
                }
            }
            if resolved.pending() == 0 {
                lemma_opened_shape(resolved);
            } else {
                assert(resolved.shape());
            }
        },
        Event::PayloadFetched { index, result } => {
            match result {
                Ok(n) => {
                    let counted = BatchView { bytes: v.bytes.update(index as int, n), ..v };
                    assert(counted.shape());
                    if v.marked[index as int] {
                        lemma_replaced_shape(counted, index as int, missing);
                    } else {
                        lemma_advanced_shape(counted, index as int, Stage::Locating);
                    }
                },
                Err(e) => {
                    lemma_replaced_shape(
                        v,
                        index as int,
                        Stage::Failed(ArtifactError::Transfer(e)),
                    );
                },
            }
        },
        Event::SignatureLocated { index, present } => {
            if present {
                lemma_advanced_shape(v, index as int, Stage::Verifying);
            } else {
                lemma_replaced_shape(v, index as int, missing);
            }
        },
        Event::PayloadVerified { index, result } => {
            match result {
                Ok(_) => {
                    lemma_replaced_shape(v, index as int, Stage::Verified);
                },
                Err(e) => {
                    lemma_replaced_shape(
                        v,
                        index as int,
                        Stage::Failed(ArtifactError::Verification(e)),
                    );
                },
            }
        },
    }
}

/// A payload transfer handed out by a batch in its second phase stands after
/// the end of every signature transfer.
proof fn lemma_replacement_in_order(v: BatchView, log: Seq<Entry>, k: int)
    requires
        v.wf(),
        v.started,
        v.pending() == 0,
        extends(v.log, log),
        v.log.len() <= k < log.len(),
        log[k] is Did,
        log[k]->Did_0 is FetchPayload,
    ensures
        in_order(log, k, v.signatures.len()),
{
    lemma_all_resolved(v);
    assert forall|i: usize| i < v.signatures.len() implies #[trigger] resolved_before(
        log,
        i,
        k,
    ) by {
        lemma_resolved_kept(v.log, log, i, v.log.len() as int, k);
    }
}

/// Whatever is reported to a well-formed batch, its history stays in order.
pub proof fn lemma_after_traced(v: BatchView, event: Event)
    requires
        v.wf(),
        v.accepts(event),
    ensures
        v.after(event).traced(),
{
    let actions = v.answer(event);
    let w = v.after(event);
    let log = w.log;
    let len = v.log.len() as int;
    let m = v.signatures.len();
    lemma_recorded(v, event, actions);
    lemma_moved_shape(v, event);
    assert(log == v.recorded(event, actions));
    assert(w.signatures.len() == m);
    assert(w.stages.len() == v.stages.len());

    match event {
        Event::SignatureFetched { index, result } => {
            let stage = match result {
                Ok(_) => SignatureStage::Fetched,
                Err(e) => SignatureStage::Failed(e),
            };
            let u = v.signatures.update(index as int, stage);
            assert(w.signatures == u);
            assert(is_resolution_of(log[len], index));
            lemma_unresolved_update(v.signatures, index as int, stage);
            assert(v.next == 0);
            assert forall|i: int|
                0 <= i < w.signatures.len() && (#[trigger] w.signatures[i] is Fetched
                    || w.signatures[i] is Failed) implies resolved_before(
                log,
                i as usize,
                log.len() as int,
            ) by {
                if i != index as int {
                    assert(v.signatures[i] == w.signatures[i]);
                    lemma_resolved_kept(v.log, log, i as usize, len, log.len() as int);
                }
            }
            assert forall|j: int|
                0 <= j < w.stages.len() && (#[trigger] w.stages[j] is Locating
                    || w.stages[j] is Verifying || w.stages[j] is Verified) implies fetched_before(
                log,
                j as usize,
                log.len() as int,
            ) by {
                assert(v.stages[j] is Queued);
                assert(w.stages[j] is Queued || w.stages[j] is Transferring);
            }
            assert forall|k: int| 0 <= k < log.len() implies #[trigger] in_order(log, k, m) by {
                if k < len {
                    lemma_in_order_kept(v.log, log, k, m);
                } else if k > len {
                    assert(unresolved(u) == 0);
                    lemma_unresolved_zero(u);
                    assert(log[k] == Entry::Did(actions[k - len - 1]));
                    assert forall|i: usize| i < m implies #[trigger] resolved_before(
                        log,
                        i,
                        k,
                    ) by {
                        if i != index {
                            assert(u[i as int] == v.signatures[i as int]);
                            assert(!(v.signatures[i as int] is Waiting));
                            assert(!(u[i as int] is InFlight));
                            lemma_resolved_kept(v.log, log, i, len, k);
                        }
                    }
                }
            }
        },
        Event::PayloadFetched { index, result } => {
            assert(index < v.next);
            assert forall|i: int|
                0 <= i < w.signatures.len() && (#[trigger] w.signatures[i] is Fetched
                    || w.signatures[i] is Failed) implies resolved_before(
                log,
                i as usize,
                log.len() as int,
            ) by {
                lemma_resolved_kept(v.log, log, i as usize, len, log.len() as int);
            }
            assert(result is Ok ==> is_fetch_of(log[len], index));
            assert forall|j: int|
                0 <= j < w.stages.len() && (#[trigger] w.stages[j] is Locating
                    || w.stages[j] is Verifying || w.stages[j] is Verified) implies fetched_before(
                log,
                j as usize,
                log.len() as int,
            ) by {
                if j != index as int {
                    assert(w.stages[j] == v.stages[j] || w.stages[j] is Transferring);
                    lemma_fetched_kept(v.log, log, j as usize, len, log.len() as int);
                }
            }
            assert forall|k: int| 0 <= k < log.len() implies #[trigger] in_order(log, k, m) by {
                if k < len {
                    lemma_in_order_kept(v.log, log, k, m);
                } else if k > len {
                    assert(log[k] == Entry::Did(actions[k - len - 1]));
                    if log[k]->Did_0 is FetchPayload {
                        lemma_replacement_in_order(v, log, k);
                    }
                }
            }
        },
        Event::SignatureLocated { index, present } => {
            assert(index < v.next);
            assert forall|i: int|
                0 <= i < w.signatures.len() && (#[trigger] w.signatures[i] is Fetched
                    || w.signatures[i] is Failed) implies resolved_before(
                log,
                i as usize,
                log.len() as int,
            ) by {
                lemma_resolved_kept(v.log, log, i as usize, len, log.len() as int);
            }
            assert(fetched_before(v.log, index, len));
            assert forall|j: int|
                0 <= j < w.stages.len() && (#[trigger] w.stages[j] is Locating
                    || w.stages[j] is Verifying || w.stages[j] is Verified) implies fetched_before(
                log,
                j as usize,
                log.len() as int,
            ) by {
                if j != index as int {
                    assert(w.stages[j] == v.stages[j] || w.stages[j] is Transferring);
                }
                lemma_fetched_kept(v.log, log, j as usize, len, log.len() as int);
            }
            assert forall|k: int| 0 <= k < log.len() implies #[trigger] in_order(log, k, m) by {
                if k < len {
                    lemma_in_order_kept(v.log, log, k, m);
                } else if k > len {
                    assert(log[k] == Entry::Did(actions[k - len - 1]));
                    if present {
                        assert(log[k] == Entry::Did(Action::VerifyPayload { index }));
                        lemma_fetched_kept(v.log, log, index, len, k);
                        assert(is_location_of(log[len], index));
                    } else if log[k]->Did_0 is FetchPayload {
                        lemma_replacement_in_order(v, log, k);
                    }
                }
            }
        },
        Event::PayloadVerified { index, result } => {
            assert(index < v.next);
            assert forall|i: int|
                0 <= i < w.signatures.len() && (#[trigger] w.signatures[i] is Fetched
                    || w.signatures[i] is Failed) implies resolved_before(
                log,
                i as usize,
                log.len() as int,
            ) by {
                lemma_resolved_kept(v.log, log, i as usize, len, log.len() as int);
            }
            assert(fetched_before(v.log, index, len));
            assert forall|j: int|
                0 <= j < w.stages.len() && (#[trigger] w.stages[j] is Locating
                    || w.stages[j] is Verifying || w.stages[j] is Verified) implies fetched_before(
                log,
                j as usize,
                log.len() as int,
            ) by {
                if j != index as int {
                    assert(w.stages[j] == v.stages[j] || w.stages[j] is Transferring);
                }
                lemma_fetched_kept(v.log, log, j as usize, len, log.len() as int);
            }
            assert forall|k: int| 0 <= k < log.len() implies #[trigger] in_order(log, k, m) by {
                if k < len {
                    lemma_in_order_kept(v.log, log, k, m);
                } else if k > len {
                    assert(log[k] == Entry::Did(actions[k - len - 1]));
                    if log[k]->Did_0 is FetchPayload {
                        lemma_replacement_in_order(v, log, k);
                    }
                }
            }
        },
    }
}

/// Whatever is reported to a well-formed batch, it stays well-formed.
pub proof fn lemma_after_wf(v: BatchView, event: Event)
    requires
        v.wf(),
        v.accepts(event),
    ensures
        v.after(event).wf(),
{
    lemma_moved_shape(v, event);
    lemma_after_traced(v, event);
    let w = v.moved(event);
    let x = v.after(event);
    assert(x.shape()) by {
        assert(x.stages == w.stages);
        assert(x.signatures == w.signatures);
    }
}

/// Starting a well-formed batch gives a well-formed batch.
pub proof fn lemma_launched_wf(v: BatchView)
    requires
        v.wf(),
        !v.started,
    ensures
        v.launched().wf(),
{
    let m = v.signatures.len();
    let begun = BatchView {
        started: true,
        signatures: Seq::new(m, |i: int| SignatureStage::InFlight),
        ..v
    };
    let w = v.launched();
    lemma_unresolved_all(begun.signatures);
    assert(forall|j: int| 0 <= j < v.stages.len() ==> (#[trigger] v.stages[j]) is Queued);
    lemma_occupancy_idle(v.stages);
    if m == 0 {
        lemma_opened_shape(begun);
        assert(w.stages == begun.opened().stages);
    } else {
        assert(w.stages == v.stages);
    }
    assert(w.shape());
    assert forall|j: int|
        0 <= j < w.stages.len() && (#[trigger] w.stages[j] is Locating || w.stages[j] is Verifying
            || w.stages[j] is Verified) implies fetched_before(
        w.log,
        j as usize,
        w.log.len() as int,
    ) by {
        assert(w.stages[j] is Queued || w.stages[j] is Transferring);
    }
    assert forall|k: int| 0 <= k < w.log.len() implies #[trigger] in_order(w.log, k, m) by {
        assert(w.log[k] == Entry::Did(v.launch()[k]));
    }
}

} // verus!
