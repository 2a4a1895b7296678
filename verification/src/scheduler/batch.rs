//! The batch that a caller drives: it hands out what to start and takes the
//! reports of what ended.

use vstd::prelude::*;
use crate::paths::{
    file_name, joined, signature_file_name, signature_name, signature_path, staged_path,
};
use crate::scheduler::model::{
    first_fill, occupancy, unresolved, window, window_size, Action, ArtifactError, BatchView,
    Entry, Event, SignatureStage, Stage,
};
use crate::scheduler::proofs::{
    lemma_after_wf, lemma_launched_wf, lemma_occupancy_idle, lemma_occupancy_update,
    lemma_occupancy_zero, lemma_unresolved_all, lemma_unresolved_none, lemma_unresolved_update,
};
use crate::text::texts;
use crate::transfer::DownloadTask;
use crate::verify::VerificationError;

verus! {

/// Why a batch could not be planned, or a report not be taken.
#[derive(Clone, Copy, PartialEq, Eq, Debug, Structural)]
pub enum BatchError {
    /// The set of trusted public keys is empty: nothing could be verified.
    NoTrustedKeys,
    /// The directory in which signatures are staged could not be made.
    StagingUnavailable,
    /// The report is of something the batch is not waiting for.
    UnexpectedEvent,
}

/// How the operation on one payload ended.
#[derive(Clone, Copy, PartialEq, Eq, Debug)]
pub struct TransferResult {
    /// Which payload of the batch.
    pub index: usize,
    /// Bytes that its transfer wrote.
    pub bytes: u64,
    /// Why the payload was not accepted; `None` where it was verified.
    pub error: Option<ArtifactError>,
}

/// How the operation on payload `j` ended, once it has.
pub open spec fn outcome(v: BatchView, j: int) -> Option<TransferResult> {
    match v.stages[j] {
        Stage::Verified => Some(
            TransferResult { index: j as usize, bytes: v.bytes[j], error: None },
        ),
        Stage::Failed(e) => Some(
            TransferResult { index: j as usize, bytes: v.bytes[j], error: Some(e) },
        ),
        _ => None,
    }
}

/// What a batch was planned with, which no report changes.
pub struct Plan {
    pub payloads: Seq<DownloadTask>,
    pub signatures: Seq<DownloadTask>,
    pub keys: Seq<String>,
    pub signature_dir: String,
}

/// `found` is the first position at which `names` holds `wanted`.
pub open spec fn first_match(
    names: Seq<Seq<char>>,
    wanted: Seq<char>,
    found: Option<usize>,
) -> bool {
    match found {
        Some(i) => i < names.len() && names[i as int] == wanted && forall|k: int|
            0 <= k < i ==> names[k] != wanted,
        None => forall|k: int| 0 <= k < names.len() ==> names[k] != wanted,
    }
}

/// Size of the admission window: half the available parallelism, and at least 1.
pub fn max_parallel(available_parallelism: usize) -> (limit: usize)
    ensures
        limit == window_size(available_parallelism as nat),
{
    let half = available_parallelism / 2;
    if half >= 1 {
        half
    } else {
        1
    }
}

fn find_name(names: &Vec<String>, wanted: &String) -> (found: Option<usize>)
    ensures
        first_match(texts(names@), wanted@, found),
{
    let n = names.len();
    let mut i: usize = 0;
    while i < n
        invariant
            n == names@.len(),
            i <= n,
            forall|k: int| 0 <= k < i ==> texts(names@)[k] != wanted@,
        decreases n - i,
    {
        if names[i] == *wanted {
            return Some(i);
        }
        i += 1;
    }
    None
}

/// A batch of payloads to fetch and verify, with the signatures to fetch first.
pub struct Batch {
    payloads: Vec<DownloadTask>,
    signatures: Vec<DownloadTask>,
    keys: Vec<String>,
    signature_dir: String,
    stages: Vec<Stage>,
    signature_stages: Vec<SignatureStage>,
    links: Vec<Option<usize>>,
    marked: Vec<bool>,
    bytes: Vec<u64>,
    limit: usize,
    next: usize,
    active: usize,
    pending: usize,
    started: bool,
    log: Ghost<Seq<Entry>>,
}

impl View for Batch {
    type V = BatchView;

    closed spec fn view(&self) -> BatchView {
        BatchView {
            limit: self.limit as nat,
            started: self.started,
            signatures: self.signature_stages@,
            stages: self.stages@,
            links: self.links@,
            marked: self.marked@,
            bytes: self.bytes@,
            next: self.next as nat,
            log: self.log@,
        }
    }
}

impl Batch {
    /// What the batch was planned with.
    pub closed spec fn plan(&self) -> Plan {
        Plan {
            payloads: self.payloads@,
            signatures: self.signatures@,
            keys: self.keys@,
            signature_dir: self.signature_dir,
        }
    }

    /// The counters agree with what they count.
    closed spec fn counted(&self) -> bool {
        &&& self.active == occupancy(self.stages@)
        &&& self.pending == unresolved(self.signature_stages@)
    }

    /// The batch is one that `new` made and that `start` and `step` have kept.
    pub closed spec fn wf(&self) -> bool {
        &&& self@.wf()
        &&& self.counted()
        &&& self.payloads@.len() == self.stages@.len()
        &&& self.signatures@.len() == self.signature_stages@.len()
        &&& self.keys@.len() > 0
        &&& self.stages@.len() <= usize::MAX
        &&& self.signature_stages@.len() <= usize::MAX
    }

    /// A well-formed batch has a well-formed view, one stage per task, and
    /// keys to verify with.
    pub proof fn lemma_wf(&self)
        requires
            self.wf(),
        ensures
            self@.wf(),
            self.plan().payloads.len() == self@.stages.len(),
            self.plan().signatures.len() == self@.signatures.len(),
            self.plan().keys.len() > 0,
            self@.stages.len() <= usize::MAX,
            self@.signatures.len() <= usize::MAX,
    {
    }

    /// Plans a batch. With no trusted key nothing can be verified, and without
    /// the staging directory no signature can be kept: then there is no batch,
    /// and so nothing is fetched or verified.
    pub fn new(
        payloads: Vec<DownloadTask>,
        signature_urls: Vec<String>,
        signature_dir: String,
        keys: Vec<String>,
        staging_ready: bool,
        available_parallelism: usize,
    ) -> (r: Result<Batch, BatchError>)
        ensures
            keys@.len() == 0 ==> r == Err::<Batch, BatchError>(BatchError::NoTrustedKeys),
            keys@.len() > 0 && !staging_ready ==> r == Err::<Batch, BatchError>(
                BatchError::StagingUnavailable,
            ),
            keys@.len() > 0 && staging_ready ==> r is Ok,
            r matches Ok(b) ==> {
                &&& b.wf()
                &&& b.plan().payloads == payloads@
                &&& b.plan().keys == keys@
                &&& b.plan().signature_dir == signature_dir
                &&& b.plan().signatures.len() == signature_urls@.len()
                &&& forall|i: int|
                    0 <= i < signature_urls@.len() ==> {
                        let task = #[trigger] b.plan().signatures[i];
                        &&& task.url@ == signature_urls@[i]@
                        &&& task.label@ == file_name(signature_urls@[i]@)
                        &&& task.destination@ == joined(
                            signature_dir@,
                            file_name(signature_urls@[i]@),
                        )
                    }
                &&& b@.limit == window_size(available_parallelism as nat)
                &&& !b@.started
                &&& b@.next == 0
                &&& b@.log.len() == 0
                &&& b@.stages == Seq::new(payloads@.len(), |j: int| Stage::Queued)
                &&& b@.signatures == Seq::new(
                    signature_urls@.len(),
                    |i: int| SignatureStage::Waiting,
                )
                &&& b@.marked == Seq::new(payloads@.len(), |j: int| false)
                &&& b@.bytes == Seq::new(payloads@.len(), |j: int| 0u64)
                &&& b@.links.len() == payloads@.len()
                &&& forall|j: int|
                    0 <= j < payloads@.len() ==> first_match(
                        Seq::new(signature_urls@.len(), |i: int| file_name(signature_urls@[i]@)),
                        signature_name(payloads@[j].url@),
                        #[trigger] b@.links[j],
                    )
            },
    {
        if keys.len() == 0 {
            return Err(BatchError::NoTrustedKeys);
        }
        if !staging_ready {
            return Err(BatchError::StagingUnavailable);
        }
        let n = payloads.len();
        let m = signature_urls.len();
        let ghost wanted_names = Seq::new(m as nat, |i: int| file_name(signature_urls@[i]@));

        let mut signatures: Vec<DownloadTask> = Vec::new();
        let mut names: Vec<String> = Vec::new();
        let mut signature_stages: Vec<SignatureStage> = Vec::new();
        let mut i: usize = 0;
        while i < m
            invariant
                m == signature_urls@.len(),
                i <= m,
                signatures@.len() == i,
                names@.len() == i,
                signature_stages@.len() == i,
                forall|k: int| 0 <= k < i ==> #[trigger] signature_stages@[k] is Waiting,
                forall|k: int|
                    0 <= k < i ==> #[trigger] names@[k]@ == file_name(signature_urls@[k]@),
                forall|k: int|
                    0 <= k < i ==> {
                        let task = #[trigger] signatures@[k];
                        &&& task.url@ == signature_urls@[k]@
                        &&& task.label@ == file_name(signature_urls@[k]@)
                        &&& task.destination@ == joined(
                            signature_dir@,
                            file_name(signature_urls@[k]@),
                        )
                    },
            decreases m - i,
        {
            let url = signature_urls[i].clone();
            let destination = staged_path(signature_dir.as_str(), url.as_str());
            let task = DownloadTask::new(url, destination);
            names.push(task.label.clone());
            signatures.push(task);
            signature_stages.push(SignatureStage::Waiting);
            i += 1;
        }
        assert(texts(names@) =~= wanted_names);

        let mut stages: Vec<Stage> = Vec::new();
        let mut links: Vec<Option<usize>> = Vec::new();
        let mut marked: Vec<bool> = Vec::new();
        let mut bytes: Vec<u64> = Vec::new();
        let mut j: usize = 0;
        while j < n
            invariant
                n == payloads@.len(),
                m == signature_urls@.len(),
                names@.len() == m,
                texts(names@) == wanted_names,
                j <= n,
                stages@.len() == j,
                links@.len() == j,
                marked@.len() == j,
                bytes@.len() == j,
                forall|k: int| 0 <= k < j ==> #[trigger] stages@[k] is Queued,
                forall|k: int| 0 <= k < j ==> !#[trigger] marked@[k],
                forall|k: int| 0 <= k < j ==> #[trigger] bytes@[k] == 0,
                forall|k: int|
                    0 <= k < j ==> first_match(
                        wanted_names,
                        signature_name(payloads@[k].url@),
                        #[trigger] links@[k],
                    ),
            decreases n - j,
        {
            let wanted = signature_file_name(payloads[j].url.as_str());
            let link = find_name(&names, &wanted);
            stages.push(Stage::Queued);
            links.push(link);
            marked.push(false);
            bytes.push(0);
            j += 1;
        }
        let limit = max_parallel(available_parallelism);
        let batch = Batch {
            payloads,
            signatures,
            keys,
            signature_dir,
            stages,
            signature_stages,
            links,
            marked,
            bytes,
            limit,
            next: 0,
            active: 0,
            pending: 0,
            started: false,
            log: Ghost(Seq::empty()),
        };
        proof {
            lemma_occupancy_idle(batch.stages@);
            lemma_unresolved_none(batch.signature_stages@);
            assert(batch@.shape());
            assert(batch@.traced());
            assert(batch@.stages =~= Seq::new(n as nat, |j: int| Stage::Queued));
            assert(batch@.signatures =~= Seq::new(m as nat, |i: int| SignatureStage::Waiting));
            assert(batch@.marked =~= Seq::new(n as nat, |j: int| false));
            assert(batch@.bytes =~= Seq::new(n as nat, |j: int| 0u64));
        }
        Ok(batch)
    }

    /// Admits the first payloads of the queue, as many as the window holds.
    fn open_window(&mut self) -> (actions: Vec<Action>)
        requires
            old(self).payloads@.len() == old(self).stages@.len(),
            old(self).limit >= 1,
        ensures
            final(self)@ == old(self)@.opened(),
            actions@ == old(self)@.opening(),
            final(self).plan() == old(self).plan(),
            final(self).pending == old(self).pending,
            final(self).active == occupancy(final(self).stages@),
            final(self).payloads@.len() == final(self).stages@.len(),
    {
        let n = self.stages.len();
        let k = if self.limit <= n {
            self.limit
        } else {
            n
        };
        let ghost v0 = self@;
        let mut actions: Vec<Action> = Vec::new();
        let mut stages: Vec<Stage> = Vec::new();
        let mut j: usize = 0;
        while j < n
            invariant
                j <= n,
                k <= n,
                stages@.len() == j,
                stages@ == window(j as nat, if j < k {
                    j as nat
                } else {
                    k as nat
                }),
                actions@.len() == (if j < k {
                    j
                } else {
                    k
                }),
                forall|i: int|
                    0 <= i < actions@.len() ==> actions@[i] == (Action::FetchPayload {
                        index: i as usize,
                    }),
            decreases n - j,
        {
            if j < k {
                stages.push(Stage::Transferring);
                actions.push(Action::FetchPayload { index: j });
            } else {
                stages.push(Stage::Queued);
            }
            j += 1;
            assert(stages@ =~= window(j as nat, if j < k {
                j as nat
            } else {
                k as nat
            }));
        }
        self.stages = stages;
        self.next = k;
        self.active = k;
        proof {
            assert(k == first_fill(v0.limit, v0.stages.len()));
            crate::scheduler::proofs::lemma_occupancy_window(n as nat, k as nat);
            assert(actions@ =~= v0.opening());
        }
        actions
    }

    /// Settles payload `index` at `stage` and admits the head of the queue in its place.
    fn replace(&mut self, index: usize, stage: Stage) -> (actions: Vec<Action>)
        requires
            old(self).wf(),
            old(self).started,
            index < old(self).stages@.len(),
            old(self).stages@[index as int].active(),
            stage.settled(),
        ensures
            final(self)@ == old(self)@.replaced(index as int, stage),
            actions@ == old(self)@.replacement(),
            final(self).plan() == old(self).plan(),
            final(self).pending == old(self).pending,
            final(self).active == occupancy(final(self).stages@),
            final(self).payloads@.len() == final(self).stages@.len(),
    {
        let ghost v0 = self@;
        proof {
            lemma_occupancy_update(self.stages@, index as int, stage);
            assert(!(self.stages@[index as int] is Queued));
        }
        self.stages.set(index, stage);
        self.active = self.active - 1;
        let mut actions: Vec<Action> = Vec::new();
        if self.next < self.stages.len() {
            proof {
                assert(v0.stages[self.next as int] is Queued);
                lemma_occupancy_update(self.stages@, self.next as int, Stage::Transferring);
            }
            self.stages.set(self.next, Stage::Transferring);
            actions.push(Action::FetchPayload { index: self.next });
            self.next = self.next + 1;
            self.active = self.active + 1;
        }
        proof {
            assert(actions@ =~= v0.replacement());
        }
        actions
    }

    /// Moves payload `index` on to `stage`, which keeps its place in the window.
    fn advance(&mut self, index: usize, stage: Stage)
        requires
            old(self).wf(),
            index < old(self).stages@.len(),
            old(self).stages@[index as int].active(),
            stage.active(),
        ensures
            final(self)@ == old(self)@.advanced(index as int, stage),
            final(self).plan() == old(self).plan(),
            final(self).pending == old(self).pending,
            final(self).active == occupancy(final(self).stages@),
            final(self).payloads@.len() == final(self).stages@.len(),
    {
        proof {
            lemma_occupancy_update(self.stages@, index as int, stage);
        }
        self.stages.set(index, stage);
    }

    /// Marks the payloads whose signature was to come from signature transfer `index`.
    fn mark_linked(&mut self, index: usize)
        requires
            old(self).links@.len() == old(self).marked@.len(),
        ensures
            final(self)@ == (BatchView {
                marked: Seq::new(
                    old(self)@.marked.len(),
                    |j: int| old(self)@.marked[j] || old(self)@.links[j] == Some(index),
                ),
                ..old(self)@
            }),
            final(self).plan() == old(self).plan(),
            final(self).pending == old(self).pending,
            final(self).active == old(self).active,
            final(self).payloads@.len() == old(self).payloads@.len(),
    {
        let ghost v0 = self@;
        let n = self.marked.len();
        let mut j: usize = 0;
        while j < n
            invariant
                j <= n,
                n == v0.marked.len(),
                v0.links.len() == n,
                self.marked@.len() == n,
                self.links@ == v0.links,
                self.limit == v0.limit,
                self.started == v0.started,
                self.signature_stages@ == v0.signatures,
                self.stages@ == v0.stages,
                self.bytes@ == v0.bytes,
                self.next == v0.next,
                self.log@ == v0.log,
                self.plan() == old(self).plan(),
                self.pending == old(self).pending,
                self.active == old(self).active,
                self.payloads@.len() == old(self).payloads@.len(),
                forall|i: int|
                    0 <= i < j ==> self.marked@[i] == (v0.marked[i] || v0.links[i] == Some(index)),
                forall|i: int| j <= i < n ==> self.marked@[i] == v0.marked[i],
            decreases n - j,
        {
            let linked = match self.links[j] {
                Some(i) => i == index,
                None => false,
            };
            if linked {
                self.marked.set(j, true);
            }
            j += 1;
        }
        proof {
            assert(self.marked@ =~= Seq::new(
                v0.marked.len(),
                |j: int| v0.marked[j] || v0.links[j] == Some(index),
            ));
        }
    }

    /// Starts the batch: asks for every signature transfer at once, or, where
    /// the batch has no signature to fetch, for the payload transfers that fill
    /// the window. A batch that was started already is left as it is.
    pub fn start(&mut self) -> (actions: Vec<Action>)
        requires
            old(self).wf(),
        ensures
            final(self).wf(),
            final(self).plan() == old(self).plan(),
            !old(self)@.started ==> final(self)@ == old(self)@.launched() && actions@ == old(
                self,
            )@.launch(),
            old(self)@.started ==> final(self)@ == old(self)@ && actions@.len() == 0,
    {
        if self.started {
            return Vec::new();
        }
        let ghost v0 = self@;
        let m = self.signature_stages.len();
        self.started = true;
        let actions = if m == 0 {
            self.open_window()
        } else {
            let mut actions: Vec<Action> = Vec::new();
            let mut signature_stages: Vec<SignatureStage> = Vec::new();
            let mut i: usize = 0;
            while i < m
                invariant
                    i <= m,
                    actions@.len() == i,
                    signature_stages@.len() == i,
                    forall|k: int| 0 <= k < i ==> signature_stages@[k] is InFlight,
                    forall|k: int|
                        0 <= k < i ==> actions@[k] == (Action::FetchSignature {
                            index: k as usize,
                        }),
                decreases m - i,
            {
                signature_stages.push(SignatureStage::InFlight);
                actions.push(Action::FetchSignature { index: i });
                i += 1;
            }
            self.signature_stages = signature_stages;
            self.pending = m;
            proof {
                lemma_unresolved_all(self.signature_stages@);
                assert(self.signature_stages@ =~= Seq::new(
                    m as nat,
                    |i: int| SignatureStage::InFlight,
                ));
                assert(actions@ =~= v0.launch());
            }
            actions
        };
        self.log = Ghost(actions@.map_values(|a: Action| Entry::Did(a)));
        proof {
            lemma_launched_wf(v0);
            assert(self@ =~= v0.launched());
            if m == 0 {
                lemma_unresolved_none(self.signature_stages@);
            }
        }
        actions
    }

    /// Takes the report that something ended and answers with what to start
    /// next. A failure settles the one payload it concerns; the head of the
    /// queue is admitted in its place like after a success. A report of
    /// something the batch is not waiting for is refused and changes nothing.
    pub fn step(&mut self, event: Event) -> (r: Result<Vec<Action>, BatchError>)
        requires
            old(self).wf(),
        ensures
            final(self).wf(),
            final(self).plan() == old(self).plan(),
            old(self)@.accepts(event) ==> (r matches Ok(actions) && actions@ == old(self)@.answer(
                event,
            )) && final(self)@ == old(self)@.after(event),
            !old(self)@.accepts(event) ==> r == Err::<Vec<Action>, BatchError>(
                BatchError::UnexpectedEvent,
            ) && final(self)@ == old(self)@,
    {
        let ghost v0 = self@;
        if !self.started {
            return Err(BatchError::UnexpectedEvent);
        }
        let missing = Stage::Failed(
            ArtifactError::Verification(VerificationError::SignatureMissing),
        );
        let actions = match event {
            Event::SignatureFetched { index, result } => {
                if index >= self.signature_stages.len() {
                    return Err(BatchError::UnexpectedEvent);
                }
                match self.signature_stages[index] {
                    SignatureStage::InFlight => {},
                    _ => {
                        return Err(BatchError::UnexpectedEvent);
                    },
                }
                let stage = match result {
                    Ok(_) => SignatureStage::Fetched,
                    Err(e) => SignatureStage::Failed(e),
                };
                proof {
                    lemma_unresolved_update(self.signature_stages@, index as int, stage);
                }
                self.signature_stages.set(index, stage);
                self.pending = self.pending - 1;
                if result.is_err() {
                    self.mark_linked(index);
                }
                if self.pending == 0 {
                    self.open_window()
                } else {
                    Vec::new()
                }
            },
            Event::PayloadFetched { index, result } => {
                if index >= self.stages.len() {
                    return Err(BatchError::UnexpectedEvent);
                }
                match self.stages[index] {
                    Stage::Transferring => {},
                    _ => {
                        return Err(BatchError::UnexpectedEvent);
                    },
                }
                match result {
                    Ok(n) => {
                        self.bytes.set(index, n);
                        if self.marked[index] {
                            self.replace(index, missing)
                        } else {
                            self.advance(index, Stage::Locating);
                            let mut actions: Vec<Action> = Vec::new();
                            actions.push(Action::LocateSignature { index });
                            actions
                        }
                    },
                    Err(e) => self.replace(index, Stage::Failed(ArtifactError::Transfer(e))),
                }
            },
            Event::SignatureLocated { index, present } => {
                if index >= self.stages.len() {
                    return Err(BatchError::UnexpectedEvent);
                }
                match self.stages[index] {
                    Stage::Locating => {},
                    _ => {
                        return Err(BatchError::UnexpectedEvent);
                    },
                }
                if present {
                    self.advance(index, Stage::Verifying);
                    let mut actions: Vec<Action> = Vec::new();
                    actions.push(Action::VerifyPayload { index });
                    actions
                } else {
                    self.replace(index, missing)
                }
            },
            Event::PayloadVerified { index, result } => {
                if index >= self.stages.len() {
                    return Err(BatchError::UnexpectedEvent);
                }
                match self.stages[index] {
                    Stage::Verifying => {},
                    _ => {
                        return Err(BatchError::UnexpectedEvent);
                    },
                }
                match result {
                    Ok(_) => self.replace(index, Stage::Verified),
                    Err(e) => self.replace(index, Stage::Failed(ArtifactError::Verification(e))),
                }
            },
        };
        proof {
            assert(v0.accepts(event));
            assert(actions@ =~= v0.answer(event));
        }
        self.log = Ghost(v0.recorded(event, actions@));
        proof {
            lemma_after_wf(v0, event);
            assert(self@ =~= v0.after(event));
        }
        Ok(actions)
    }

    /// Most payload operations in flight at once.
    pub fn limit(&self) -> (n: usize)
        ensures
            n == self@.limit,
    {
        self.limit
    }

    /// Payload operations in flight now.
    pub fn in_flight(&self) -> (n: usize)
        requires
            self.wf(),
        ensures
            n == self@.in_flight(),
            n <= self@.limit,
    {
        self.active
    }

    /// Signature transfers that have not ended.
    pub fn pending_signatures(&self) -> (n: usize)
        requires
            self.wf(),
        ensures
            n == self@.pending(),
    {
        self.pending
    }

    /// Number of payloads.
    pub fn len(&self) -> (n: usize)
        ensures
            n == self.plan().payloads.len(),
    {
        self.payloads.len()
    }

    /// Number of signatures to fetch.
    pub fn signature_count(&self) -> (n: usize)
        ensures
            n == self.plan().signatures.len(),
    {
        self.signatures.len()
    }

    /// The payload task at `index`.
    pub fn payload(&self, index: usize) -> (task: Option<&DownloadTask>)
        ensures
            index < self.plan().payloads.len() ==> task == Some(
                &self.plan().payloads[index as int],
            ),
            index >= self.plan().payloads.len() ==> task is None,
    {
        if index < self.payloads.len() {
            Some(&self.payloads[index])
        } else {
            None
        }
    }

    /// The signature task at `index`.
    pub fn signature(&self, index: usize) -> (task: Option<&DownloadTask>)
        ensures
            index < self.plan().signatures.len() ==> task == Some(
                &self.plan().signatures[index as int],
            ),
            index >= self.plan().signatures.len() ==> task is None,
    {
        if index < self.signatures.len() {
            Some(&self.signatures[index])
        } else {
            None
        }
    }

    /// The trusted public keys.
    pub fn keys(&self) -> (keys: &Vec<String>)
        ensures
            keys@ == self.plan().keys,
    {
        &self.keys
    }

    /// Where the signature file of payload `index` is looked for.
    pub fn expected_signature(&self, index: usize) -> (path: Option<String>)
        ensures
            index >= self.plan().payloads.len() ==> path is None,
            index < self.plan().payloads.len() ==> path is Some && path->Some_0@ == joined(
                self.plan().signature_dir@,
                signature_name(self.plan().payloads[index as int].url@),
            ),
    {
        if index < self.payloads.len() {
            Some(signature_path(self.signature_dir.as_str(), self.payloads[index].url.as_str()))
        } else {
            None
        }
    }

    /// Where the operation on payload `index` stands.
    pub fn stage(&self, index: usize) -> (stage: Option<Stage>)
        ensures
            index < self@.stages.len() ==> stage == Some(self@.stages[index as int]),
            index >= self@.stages.len() ==> stage is None,
    {
        if index < self.stages.len() {
            Some(self.stages[index])
        } else {
            None
        }
    }

    /// Where the transfer of signature `index` stands.
    pub fn signature_stage(&self, index: usize) -> (stage: Option<SignatureStage>)
        ensures
            index < self@.signatures.len() ==> stage == Some(self@.signatures[index as int]),
            index >= self@.signatures.len() ==> stage is None,
    {
        if index < self.signature_stages.len() {
            Some(self.signature_stages[index])
        } else {
            None
        }
    }

    /// Whether nothing is left to wait for.
    pub fn is_finished(&self) -> (done: bool)
        requires
            self.wf(),
        ensures
            done == self@.finished(),
    {
        let done = self.started && self.pending == 0 && self.active == 0 && self.next
            == self.stages.len();
        proof {
            let v = self@;
            if done {
                lemma_occupancy_zero(v.stages);
                assert forall|j: int| 0 <= j < v.stages.len() implies (
                #[trigger] v.stages[j]).settled() by {
                    assert(!v.stages[j].active());
                    assert(!(v.stages[j] is Queued));
                }
            }
            if v.finished() {
                lemma_occupancy_idle(v.stages);
                if v.next < v.stages.len() {
                    assert(v.stages[v.next as int] is Queued);
                    assert(v.stages[v.next as int].settled());
                }
            }
        }
        done
    }

    /// Whether the batch has finished with every payload verified. A batch
    /// that finished with some payloads failed has not succeeded; what it did
    /// verify is in `verified`.
    pub fn succeeded(&self) -> (yes: bool)
        requires
            self.wf(),
        ensures
            yes == self@.succeeded(),
    {
        if !self.is_finished() {
            return false;
        }
        let n = self.stages.len();
        let mut j: usize = 0;
        while j < n
            invariant
                n == self.stages@.len(),
                j <= n,
                forall|i: int| 0 <= i < j ==> #[trigger] self.stages@[i] is Verified,
            decreases n - j,
        {
            match self.stages[j] {
                Stage::Verified => {},
                _ => {
                    return false;
                },
            }
            j += 1;
        }
        true
    }

    /// How the operation on payload `index` ended; `None` while it has not.
    pub fn result(&self, index: usize) -> (result: Option<TransferResult>)
        requires
            self.wf(),
        ensures
            index < self@.stages.len() ==> result == outcome(self@, index as int),
            index >= self@.stages.len() ==> result is None,
    {
        if index >= self.stages.len() {
            return None;
        }
        match self.stages[index] {
            Stage::Verified => Some(
                TransferResult { index, bytes: self.bytes[index], error: None },
            ),
            Stage::Failed(e) => Some(
                TransferResult { index, bytes: self.bytes[index], error: Some(e) },
            ),
            _ => None,
        }
    }

    /// The payloads that were verified, in ascending order: these and no
    /// others may be unpacked.
    pub fn verified(&self) -> (indices: Vec<usize>)
        ensures
            forall|k: int|
                0 <= k < indices@.len() ==> (#[trigger] indices@[k]) < self@.stages.len()
                    && self@.stages[indices@[k] as int] is Verified,
            forall|a: int, b: int| 0 <= a < b < indices@.len() ==> indices@[a] < indices@[b],
            forall|j: int|
                0 <= j < self@.stages.len() && #[trigger] self@.stages[j] is Verified
                    ==> indices@.contains(j as usize),
    {
        let mut indices: Vec<usize> = Vec::new();
        let n = self.stages.len();
        let mut j: usize = 0;
        while j < n
            invariant
                n == self.stages@.len(),
                j <= n,
                forall|k: int|
                    0 <= k < indices@.len() ==> (#[trigger] indices@[k]) < j
                        && self.stages@[indices@[k] as int] is Verified,
                forall|a: int, b: int| 0 <= a < b < indices@.len() ==> indices@[a] < indices@[b],
                forall|i: int|
                    0 <= i < j && #[trigger] self.stages@[i] is Verified ==> indices@.contains(
                        i as usize,
                    ),
            decreases n - j,
        {
            match self.stages[j] {
                Stage::Verified => {
                    let ghost before = indices@;
                    indices.push(j);
                    proof {
                        assert(indices@[before.len() as int] == j);
                        assert forall|i: int|
                            0 <= i < j + 1 && #[trigger] self.stages@[i] is Verified
                        implies indices@.contains(i as usize) by {
                            if i < j {
                                let k = choose|k: int|
                                    0 <= k < before.len() && before[k] == i as usize;
                                assert(indices@[k] == i as usize);
                            }
                        }
                    }
                },
                _ => {},
            }
            j += 1;
        }
        indices
    }
}

} // verus!
