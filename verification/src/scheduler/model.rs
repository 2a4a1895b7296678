//! The batch as a state machine over plain values: its states, the events it
//! accepts, and what it answers to each.

use vstd::prelude::*;
use crate::transfer::TransferError;
use crate::verify::VerificationError;

verus! {

/// Why an artifact was not accepted.
#[derive(Clone, Copy, PartialEq, Eq, Debug, Structural)]
pub enum ArtifactError {
    /// Its transfer failed.
    Transfer(TransferError),
    /// It was transferred and is not trusted.
    Verification(VerificationError),
}

/// Where the transfer of one signature file stands.
#[derive(Clone, Copy, PartialEq, Eq, Debug, Structural)]
pub enum SignatureStage {
    /// The batch has not been started.
    Waiting,
    /// The transfer is running.
    InFlight,
    /// The signature file is staged.
    Fetched,
    /// The transfer failed: the payloads that go by this signature cannot be verified.
    Failed(TransferError),
}

/// Where the composite operation on one payload stands.
#[derive(Clone, Copy, PartialEq, Eq, Debug, Structural)]
pub enum Stage {
    /// Not admitted yet.
    Queued,
    /// Admitted; its transfer is running.
    Transferring,
    /// Transferred; its signature file is being looked for.
    Locating,
    /// Its signature file is present; verification is running.
    Verifying,
    /// Verification reported success.
    Verified,
    /// The transfer failed, the signature file is missing, or verification did
    /// not report success.
    Failed(ArtifactError),
}

impl Stage {
    /// Admitted and not finished: the operation occupies a place in the window.
    pub open spec fn active(self) -> bool {
        self is Transferring || self is Locating || self is Verifying
    }

    /// Finished, one way or the other.
    pub open spec fn settled(self) -> bool {
        self is Verified || self is Failed
    }
}

/// What the caller reports back to the batch.
#[allow(inconsistent_fields)]
#[derive(Clone, Copy, PartialEq, Eq, Debug)]
pub enum Event {
    /// The transfer of signature `index` ended, with the bytes written or the failure.
    SignatureFetched { index: usize, result: Result<u64, TransferError> },
    /// The transfer of payload `index` ended.
    PayloadFetched { index: usize, result: Result<u64, TransferError> },
    /// The signature file expected for payload `index` was looked for.
    SignatureLocated { index: usize, present: bool },
    /// The verification of payload `index` ended.
    PayloadVerified { index: usize, result: Result<(), VerificationError> },
}

/// What the batch asks the caller to start.
#[derive(Clone, Copy, PartialEq, Eq, Debug)]
pub enum Action {
    /// Transfer signature `index` to where it is staged.
    FetchSignature { index: usize },
    /// Transfer payload `index` to its destination.
    FetchPayload { index: usize },
    /// Look whether the signature file expected for payload `index` is on disk.
    LocateSignature { index: usize },
    /// Verify payload `index` against its signature file.
    VerifyPayload { index: usize },
}

/// One line of a batch's history.
pub enum Entry {
    /// The batch took this report.
    Got(Event),
    /// The batch asked for this.
    Did(Action),
}

/// Number of signature transfers that have not ended.
pub open spec fn unresolved(signatures: Seq<SignatureStage>) -> nat
    decreases signatures.len(),
{
    if signatures.len() == 0 {
        0
    } else {
        unresolved(signatures.drop_last()) + if signatures.last() is InFlight {
            1nat
        } else {
            0nat
        }
    }
}

/// Number of payload operations that occupy the window.
pub open spec fn occupancy(stages: Seq<Stage>) -> nat
    decreases stages.len(),
{
    if stages.len() == 0 {
        0
    } else {
        occupancy(stages.drop_last()) + if stages.last().active() {
            1nat
        } else {
            0nat
        }
    }
}

/// `n` stages of which the first `k` are in transfer and the rest queued.
pub open spec fn window(n: nat, k: nat) -> Seq<Stage> {
    Seq::new(
        n,
        |j: int|
            if j < k {
                Stage::Transferring
            } else {
                Stage::Queued
            },
    )
}

/// The lesser of the window's size and the number of payloads.
pub open spec fn first_fill(limit: nat, n: nat) -> nat {
    if limit <= n {
        limit
    } else {
        n
    }
}

/// Size of the admission window on a machine with `available` units of parallelism.
pub open spec fn window_size(available: nat) -> nat {
    if available / 2 >= 1 {
        available / 2
    } else {
        1
    }
}

/// The report that the transfer of payload `j` is complete.
pub open spec fn is_fetch_of(entry: Entry, j: usize) -> bool {
    entry matches Entry::Got(Event::PayloadFetched { index, result }) && index == j && result is Ok
}

/// The report that the signature file of payload `j` is present.
pub open spec fn is_location_of(entry: Entry, j: usize) -> bool {
    entry == Entry::Got(Event::SignatureLocated { index: j, present: true })
}

/// The report that the transfer of signature `i` ended.
pub open spec fn is_resolution_of(entry: Entry, i: usize) -> bool {
    entry matches Entry::Got(Event::SignatureFetched { index, .. }) && index == i
}

/// Before line `k`, the transfer of payload `j` was reported complete.
pub open spec fn fetched_before(log: Seq<Entry>, j: usize, k: int) -> bool {
    exists|i: int| 0 <= i < k && i < log.len() && is_fetch_of(#[trigger] log[i], j)
}

/// Before line `k`, the signature file of payload `j` was reported present.
pub open spec fn located_before(log: Seq<Entry>, j: usize, k: int) -> bool {
    exists|i: int| 0 <= i < k && i < log.len() && is_location_of(#[trigger] log[i], j)
}

/// Before line `k`, the transfer of signature `i` was reported ended.
pub open spec fn resolved_before(log: Seq<Entry>, i: usize, k: int) -> bool {
    exists|m: int| 0 <= m < k && m < log.len() && is_resolution_of(#[trigger] log[m], i)
}

/// Line `k` of `log` comes no earlier than what it depends on: a verification
/// after its payload's transfer and the sighting of its signature file, a
/// payload transfer after the end of every signature transfer.
pub open spec fn in_order(log: Seq<Entry>, k: int, signatures: nat) -> bool {
    match log[k] {
        Entry::Did(Action::VerifyPayload { index }) => fetched_before(log, index, k)
            && located_before(log, index, k),
        Entry::Did(Action::FetchPayload { .. }) => forall|i: usize|
            i < signatures ==> #[trigger] resolved_before(log, i, k),
        _ => true,
    }
}

/// A batch, as contracts see it.
#[verifier::ext_equal]
pub struct BatchView {
    /// Most payload operations in flight at once.
    pub limit: nat,
    pub started: bool,
    pub signatures: Seq<SignatureStage>,
    pub stages: Seq<Stage>,
    /// For each payload, the signature transfer of this batch that stages its signature.
    pub links: Seq<Option<usize>>,
    /// Payloads whose signature transfer failed.
    pub marked: Seq<bool>,
    /// Bytes transferred per payload.
    pub bytes: Seq<u64>,
    /// The payloads before this index have been admitted.
    pub next: nat,
    /// Every event taken and every action handed out, in order.
    pub log: Seq<Entry>,
}

impl BatchView {
    /// Payload operations in flight.
    pub open spec fn in_flight(self) -> nat {
        occupancy(self.stages)
    }

    /// Signature transfers that have not ended.
    pub open spec fn pending(self) -> nat {
        unresolved(self.signatures)
    }

    /// Every signature transfer has ended and every payload is settled.
    pub open spec fn finished(self) -> bool {
        self.started && self.pending() == 0 && forall|j: int|
            0 <= j < self.stages.len() ==> (#[trigger] self.stages[j]).settled()
    }

    /// The batch has finished and every payload was verified.
    pub open spec fn succeeded(self) -> bool {
        self.finished() && forall|j: int|
            0 <= j < self.stages.len() ==> #[trigger] self.stages[j] is Verified
    }

    /// What holds of the stages and counters of every batch.
    pub open spec fn shape(self) -> bool {
        &&& self.limit >= 1
        &&& self.links.len() == self.stages.len()
        &&& self.marked.len() == self.stages.len()
        &&& self.bytes.len() == self.stages.len()
        &&& self.next <= self.stages.len()
        &&& forall|j: int|
            0 <= j < self.stages.len() ==> (#[trigger] self.stages[j] is Queued <==> j
                >= self.next)
        &&& forall|j: int|
            0 <= j < self.links.len() ==> (#[trigger] self.links[j] matches Some(i) ==> i
                < self.signatures.len())
        &&& !self.started ==> self.next == 0 && forall|i: int|
            0 <= i < self.signatures.len() ==> #[trigger] self.signatures[i] is Waiting
        &&& self.started ==> forall|i: int|
            0 <= i < self.signatures.len() ==> !(#[trigger] self.signatures[i] is Waiting)
        &&& self.next > 0 ==> self.pending() == 0
        &&& self.in_flight() <= self.limit
        &&& self.started && self.pending() == 0 ==> self.next == self.stages.len()
            || self.in_flight() == self.limit
    }

    /// What holds of the history of every batch: each stage reached is on
    /// record, and each action stands after what it depends on.
    pub open spec fn traced(self) -> bool {
        &&& !self.started ==> self.log.len() == 0
        &&& forall|i: int|
            0 <= i < self.signatures.len() && (#[trigger] self.signatures[i] is Fetched
                || self.signatures[i] is Failed) ==> resolved_before(
                self.log,
                i as usize,
                self.log.len() as int,
            )
        &&& forall|j: int|
            0 <= j < self.stages.len() && (#[trigger] self.stages[j] is Locating
                || self.stages[j] is Verifying || self.stages[j] is Verified)
                ==> fetched_before(self.log, j as usize, self.log.len() as int)
        &&& forall|k: int|
            0 <= k < self.log.len() ==> #[trigger] in_order(self.log, k, self.signatures.len())
    }

    /// What holds of every batch, whatever has been reported to it.
    pub open spec fn wf(self) -> bool {
        self.shape() && self.traced()
    }

    /// Whether `event` reports the end of something the batch is waiting for.
    pub open spec fn accepts(self, event: Event) -> bool {
        self.started && match event {
            Event::SignatureFetched { index, .. } => index < self.signatures.len()
                && self.signatures[index as int] is InFlight,
            Event::PayloadFetched { index, .. } => index < self.stages.len()
                && self.stages[index as int] is Transferring,
            Event::SignatureLocated { index, .. } => index < self.stages.len()
                && self.stages[index as int] is Locating,
            Event::PayloadVerified { index, .. } => index < self.stages.len()
                && self.stages[index as int] is Verifying,
        }
    }

    /// The window filled from the head of the queue.
    pub open spec fn opened(self) -> BatchView {
        let k = first_fill(self.limit, self.stages.len());
        BatchView { stages: window(self.stages.len(), k), next: k, ..self }
    }

    /// The transfers that fill the window.
    pub open spec fn opening(self) -> Seq<Action> {
        Seq::new(
            first_fill(self.limit, self.stages.len()),
            |j: int| Action::FetchPayload { index: j as usize },
        )
    }

    /// Payload `j` settled at `stage`, and the head of the queue admitted in its place.
    pub open spec fn replaced(self, j: int, stage: Stage) -> BatchView {
        let stages = self.stages.update(j, stage);
        if self.next < self.stages.len() {
            BatchView {
                stages: stages.update(self.next as int, Stage::Transferring),
                next: self.next + 1,
                ..self
            }
        } else {
            BatchView { stages, ..self }
        }
    }

    /// The transfer that takes the place of a settled operation.
    pub open spec fn replacement(self) -> Seq<Action> {
        if self.next < self.stages.len() {
            seq![Action::FetchPayload { index: self.next as usize }]
        } else {
            seq![]
        }
    }

    /// Payload `j` moved on to `stage`, keeping its place in the window.
    pub open spec fn advanced(self, j: int, stage: Stage) -> BatchView {
        BatchView { stages: self.stages.update(j, stage), ..self }
    }

    /// The state after `event`, the history apart.
    pub open spec fn moved(self, event: Event) -> BatchView {
        match event {
            Event::SignatureFetched { index, result } => {
                let stage = match result {
                    Ok(_) => SignatureStage::Fetched,
                    Err(e) => SignatureStage::Failed(e),
                };
                let marked = if result is Err {
                    Seq::new(
                        self.marked.len(),
                        |j: int| self.marked[j] || self.links[j] == Some(index),
                    )
                } else {
                    self.marked
                };
                let resolved = BatchView {
                    signatures: self.signatures.update(index as int, stage),
                    marked,
                    ..self
                };
                if resolved.pending() == 0 {
                    resolved.opened()
                } else {
                    resolved
                }
            },
            Event::PayloadFetched { index, result } => match result {
                Ok(n) => {
                    let counted = BatchView { bytes: self.bytes.update(index as int, n), ..self };
                    if self.marked[index as int] {
                        counted.replaced(
                            index as int,
                            Stage::Failed(
                                ArtifactError::Verification(VerificationError::SignatureMissing),
                            ),
                        )
                    } else {
                        counted.advanced(index as int, Stage::Locating)
                    }
                },
                Err(e) => self.replaced(index as int, Stage::Failed(ArtifactError::Transfer(e))),
            },
            Event::SignatureLocated { index, present } => if present {
                self.advanced(index as int, Stage::Verifying)
            } else {
                self.replaced(
                    index as int,
                    Stage::Failed(ArtifactError::Verification(VerificationError::SignatureMissing)),
                )
            },
            Event::PayloadVerified { index, result } => match result {
                Ok(_) => self.replaced(index as int, Stage::Verified),
                Err(e) => self.replaced(
                    index as int,
                    Stage::Failed(ArtifactError::Verification(e)),
                ),
            },
        }
    }

    /// What `event` is answered with.
    pub open spec fn answer(self, event: Event) -> Seq<Action> {
        match event {
            Event::SignatureFetched { index, result } => {
                let stage = match result {
                    Ok(_) => SignatureStage::Fetched,
                    Err(e) => SignatureStage::Failed(e),
                };
                if unresolved(self.signatures.update(index as int, stage)) == 0 {
                    self.opening()
                } else {
                    seq![]
                }
            },
            Event::PayloadFetched { index, result } => if result is Ok
                && !self.marked[index as int] {
                seq![Action::LocateSignature { index }]
            } else {
                self.replacement()
            },
            Event::SignatureLocated { index, present } => if present {
                seq![Action::VerifyPayload { index }]
            } else {
                self.replacement()
            },
            Event::PayloadVerified { .. } => self.replacement(),
        }
    }

    /// The history extended by `event` and the actions it was answered with.
    pub open spec fn recorded(self, event: Event, actions: Seq<Action>) -> Seq<Entry> {
        self.log.push(Entry::Got(event)) + actions.map_values(|a: Action| Entry::Did(a))
    }

    /// The state after an accepted `event`.
    pub open spec fn after(self, event: Event) -> BatchView {
        BatchView { log: self.recorded(event, self.answer(event)), ..self.moved(event) }
    }

    /// The state once the batch has been started: every signature transfer in
    /// flight, or, where there is none, the window filled.
    pub open spec fn launched(self) -> BatchView {
        let begun = BatchView {
            started: true,
            signatures: Seq::new(self.signatures.len(), |i: int| SignatureStage::InFlight),
            ..self
        };
        let state = if self.signatures.len() == 0 {
            begun.opened()
        } else {
            begun
        };
        BatchView { log: self.launch().map_values(|a: Action| Entry::Did(a)), ..state }
    }

    /// What starting the batch asks for.
    pub open spec fn launch(self) -> Seq<Action> {
        if self.signatures.len() == 0 {
            self.opening()
        } else {
            Seq::new(self.signatures.len(), |i: int| Action::FetchSignature { index: i as usize })
        }
    }
}

} // verus!
