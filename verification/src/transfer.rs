//! One transfer: a source URL streamed to a destination file.

use vstd::prelude::*;
use crate::paths::{file_name, url_file_name};

verus! {

/// Why a transfer failed.
#[derive(Clone, Copy, PartialEq, Eq, Debug, Structural)]
pub enum TransferError {
    /// No response could be obtained from the remote endpoint.
    RequestFailed,
    /// The remote endpoint answered with a status outside 200..=299.
    BadStatus { status: u16 },
    /// The response gave no length although the caller needs one.
    MissingLength,
    /// The file to write to could not be created.
    CreateFailed,
    /// The connection broke after `received` bytes.
    Interrupted { received: u64 },
    /// A chunk could not be written, `written` bytes into the file.
    WriteFailed { written: u64 },
    /// The complete file could not be moved over the destination.
    CommitFailed,
}

/// What a transfer is for, which decides what becomes of its progress slot.
#[derive(Clone, Copy, PartialEq, Eq, Debug, Structural)]
pub enum TransferKind {
    /// A detached signature, fetched ahead of the payloads.
    Signature,
    /// An artifact.
    Payload,
}

/// One artifact or signature to fetch.
#[derive(Clone, Debug, PartialEq, Eq)]
pub struct DownloadTask {
    pub url: String,
    pub destination: String,
    pub label: String,
}

impl DownloadTask {
    /// A task for `url`, labelled with the URL's last segment.
    pub fn new(url: String, destination: String) -> (task: DownloadTask)
        ensures
            task.url == url,
            task.destination == destination,
            task.label@ == file_name(url@),
    {
        let label = url_file_name(url.as_str());
        DownloadTask { url, destination, label }
    }
}

/// Where a transfer stands.
#[derive(Clone, Copy, PartialEq, Eq, Debug, Structural)]
pub enum TransferState {
    /// The request is out; no response yet.
    Requested,
    /// The response was accepted; the partial file is being created.
    Opening,
    /// The body is arriving; `written` bytes of it are in the partial file.
    Streaming { written: u64 },
    /// The body ended; the partial file is being moved over the destination.
    Committing { written: u64 },
    /// The destination holds the complete body.
    Done { written: u64 },
    /// The transfer failed; the destination was not touched.
    Failed(TransferError),
}

/// What the caller reports to a transfer.
#[derive(Clone, Copy, PartialEq, Eq, Debug)]
pub enum TransferEvent {
    /// No response could be obtained.
    Unanswered,
    /// The response head arrived.
    Responded { status: u16, length: Option<u64> },
    /// The partial file was created, or could not be.
    Created { ok: bool },
    /// A chunk of `len` bytes arrived and was written to the partial file.
    Chunk { len: u64 },
    /// A chunk arrived and could not be written.
    Unwritten,
    /// The connection broke before the body ended.
    Broken,
    /// The body ended.
    Ended,
    /// The partial file was moved over the destination, or could not be.
    Committed { ok: bool },
}

/// What a transfer asks of the caller next.
#[derive(Clone, Copy, PartialEq, Eq, Debug)]
pub enum TransferAction {
    /// Size the progress slot to `total` where it is known, and create the partial file.
    Create { total: Option<u64> },
    /// Show `position` in the progress slot and take the next chunk.
    Receive { position: u64 },
    /// Move the partial file over the destination.
    Commit,
    /// The transfer is complete: close the progress slot, clearing it if `clear`.
    Finish { clear: bool },
    /// The transfer failed: close the progress slot, clearing it if `clear`, and
    /// remove the partial file if `discard`.
    Abandon { error: TransferError, clear: bool, discard: bool },
}

/// One transfer under way.
#[derive(Clone, Copy, PartialEq, Eq, Debug)]
pub struct Transfer {
    pub kind: TransferKind,
    /// Whether a response without a length is refused.
    pub length_required: bool,
    pub state: TransferState,
}

/// Whether an HTTP status reports success.
pub open spec fn is_success(status: u16) -> bool {
    200 <= status <= 299
}

/// `written` advanced by `len`, held at the largest count that can be told.
pub open spec fn advanced(written: u64, len: u64) -> u64 {
    if written + len <= u64::MAX {
        (written + len) as u64
    } else {
        u64::MAX
    }
}

impl TransferKind {
    /// Whether the progress slot of such a transfer is removed from the display
    /// when the transfer ends, however it ends: the slots of signatures are,
    /// those of payloads stay.
    pub open spec fn clears(self) -> bool {
        self is Signature
    }

    /// Whether the progress slot of such a transfer is cleared when it ends.
    pub fn clears_slot(self) -> (clear: bool)
        ensures
            clear == self.clears(),
    {
        match self {
            TransferKind::Signature => true,
            TransferKind::Payload => false,
        }
    }
}

impl TransferState {
    /// Bytes known to be in the partial file or the destination.
    pub open spec fn position(self) -> u64 {
        match self {
            TransferState::Streaming { written } => written,
            TransferState::Committing { written } => written,
            TransferState::Done { written } => written,
            _ => 0,
        }
    }

    /// Whether a partial file may exist.
    pub open spec fn has_partial(self) -> bool {
        self is Streaming || self is Committing
    }

    /// Done or failed.
    pub open spec fn ended(self) -> bool {
        self is Done || self is Failed
    }
}

impl Transfer {
    /// The failure that `event` brings in the present state, if it brings one.
    pub open spec fn failure(self, event: TransferEvent) -> Option<TransferError> {
        match (self.state, event) {
            (TransferState::Requested, TransferEvent::Unanswered) => Some(
                TransferError::RequestFailed,
            ),
            (TransferState::Requested, TransferEvent::Responded { status, length }) => {
                if !is_success(status) {
                    Some(TransferError::BadStatus { status })
                } else if length is None && self.length_required {
                    Some(TransferError::MissingLength)
                } else {
                    None
                }
            },
            (TransferState::Opening, TransferEvent::Created { ok }) => if ok {
                None
            } else {
                Some(TransferError::CreateFailed)
            },
            (TransferState::Streaming { written }, TransferEvent::Unwritten) => Some(
                TransferError::WriteFailed { written },
            ),
            (TransferState::Streaming { written }, TransferEvent::Broken) => Some(
                TransferError::Interrupted { received: written },
            ),
            (TransferState::Committing { .. }, TransferEvent::Committed { ok }) => if ok {
                None
            } else {
                Some(TransferError::CommitFailed)
            },
            _ => None,
        }
    }

    /// Whether `event` is one the transfer is waiting for.
    pub open spec fn expects(self, event: TransferEvent) -> bool {
        match (self.state, event) {
            (TransferState::Requested, TransferEvent::Unanswered) => true,
            (TransferState::Requested, TransferEvent::Responded { .. }) => true,
            (TransferState::Opening, TransferEvent::Created { .. }) => true,
            (TransferState::Streaming { .. }, TransferEvent::Chunk { .. }) => true,
            (TransferState::Streaming { .. }, TransferEvent::Unwritten) => true,
            (TransferState::Streaming { .. }, TransferEvent::Broken) => true,
            (TransferState::Streaming { .. }, TransferEvent::Ended) => true,
            (TransferState::Committing { .. }, TransferEvent::Committed { .. }) => true,
            _ => false,
        }
    }

    /// The state after an expected `event`.
    pub open spec fn next(self, event: TransferEvent) -> TransferState {
        match self.failure(event) {
            Some(error) => TransferState::Failed(error),
            None => match (self.state, event) {
                (TransferState::Requested, _) => TransferState::Opening,
                (TransferState::Opening, _) => TransferState::Streaming { written: 0 },
                (TransferState::Streaming { written }, TransferEvent::Chunk { len }) => {
                    TransferState::Streaming { written: advanced(written, len) }
                },
                (TransferState::Streaming { written }, _) => TransferState::Committing { written },
                (TransferState::Committing { written }, _) => TransferState::Done { written },
                (state, _) => state,
            },
        }
    }

    /// What an expected `event` is answered with.
    pub open spec fn answer(self, event: TransferEvent) -> TransferAction {
        match self.failure(event) {
            Some(error) => TransferAction::Abandon {
                error,
                clear: self.kind.clears(),
                discard: self.state.has_partial(),
            },
            None => match (self.state, event) {
                (TransferState::Requested, TransferEvent::Responded { length, .. }) => {
                    TransferAction::Create { total: length }
                },
                (TransferState::Opening, _) => TransferAction::Receive { position: 0 },
                (TransferState::Streaming { written }, TransferEvent::Chunk { len }) => {
                    TransferAction::Receive { position: advanced(written, len) }
                },
                (TransferState::Streaming { .. }, _) => TransferAction::Commit,
                _ => TransferAction::Finish { clear: self.kind.clears() },
            },
        }
    }

    /// The state after `events`, reported in order; one that the transfer is
    /// not waiting for changes nothing.
    pub open spec fn run(self, events: Seq<TransferEvent>) -> Transfer
        decreases events.len(),
    {
        if events.len() == 0 {
            self
        } else {
            let before = self.run(events.drop_last());
            if before.expects(events.last()) {
                Transfer { state: before.next(events.last()), ..before }
            } else {
                before
            }
        }
    }

    /// A transfer whose request has been sent.
    pub fn new(kind: TransferKind, length_required: bool) -> (t: Transfer)
        ensures
            t == (Transfer { kind, length_required, state: TransferState::Requested }),
    {
        Transfer { kind, length_required, state: TransferState::Requested }
    }

    /// Takes the report of what happened and answers with what to do next.
    /// A report that the transfer is not waiting for is refused with `None`
    /// and changes nothing.
    pub fn step(&mut self, event: TransferEvent) -> (action: Option<TransferAction>)
        ensures
            final(self).kind == old(self).kind,
            final(self).length_required == old(self).length_required,
            old(self).expects(event) ==> final(self).state == old(self).next(event) && action
                == Some(old(self).answer(event)),
            !old(self).expects(event) ==> final(self).state == old(self).state && action is None,
            final(self).state is Failed || final(self).state.position() >= old(
                self,
            ).state.position(),
    {
        let clear = self.kind.clears_slot();
        match (self.state, event) {
            (TransferState::Requested, TransferEvent::Unanswered) => {
                Some(self.fail(TransferError::RequestFailed, false))
            },
            (TransferState::Requested, TransferEvent::Responded { status, length }) => {
                if status < 200 || status > 299 {
                    Some(self.fail(TransferError::BadStatus { status }, false))
                } else if length.is_none() && self.length_required {
                    Some(self.fail(TransferError::MissingLength, false))
                } else {
                    self.state = TransferState::Opening;
                    Some(TransferAction::Create { total: length })
                }
            },
            (TransferState::Opening, TransferEvent::Created { ok }) => {
                if ok {
                    self.state = TransferState::Streaming { written: 0 };
                    Some(TransferAction::Receive { position: 0 })
                } else {
                    Some(self.fail(TransferError::CreateFailed, false))
                }
            },
            (TransferState::Streaming { written }, TransferEvent::Chunk { len }) => {
                let position = if len <= u64::MAX - written {
                    written + len
                } else {
                    u64::MAX
                };
                self.state = TransferState::Streaming { written: position };
                Some(TransferAction::Receive { position })
            },
            (TransferState::Streaming { written }, TransferEvent::Unwritten) => {
                Some(self.fail(TransferError::WriteFailed { written }, true))
            },
            (TransferState::Streaming { written }, TransferEvent::Broken) => {
                Some(self.fail(TransferError::Interrupted { received: written }, true))
            },
            (TransferState::Streaming { written }, TransferEvent::Ended) => {
                self.state = TransferState::Committing { written };
                Some(TransferAction::Commit)
            },
            (TransferState::Committing { written }, TransferEvent::Committed { ok }) => {
                if ok {
                    self.state = TransferState::Done { written };
                    Some(TransferAction::Finish { clear })
                } else {
                    Some(self.fail(TransferError::CommitFailed, true))
                }
            },
            _ => None,
        }
    }

    fn fail(&mut self, error: TransferError, discard: bool) -> (action: TransferAction)
        ensures
            final(self).kind == old(self).kind,
            final(self).length_required == old(self).length_required,
            final(self).state == TransferState::Failed(error),
            action == (TransferAction::Abandon { error, clear: old(self).kind.clears(), discard }),
    {
        let clear = self.kind.clears_slot();
        self.state = TransferState::Failed(error);
        TransferAction::Abandon { error, clear, discard }
    }

    /// How the transfer ended: the bytes written, or the failure; `None` while
    /// it has not ended.
    pub fn result(&self) -> (result: Option<Result<u64, TransferError>>)
        ensures
            result == match self.state {
                TransferState::Done { written } => Some(Ok::<u64, TransferError>(written)),
                TransferState::Failed(error) => Some(Err::<u64, TransferError>(error)),
                _ => None,
            },
    {
        match self.state {
            TransferState::Done { written } => Some(Ok(written)),
            TransferState::Failed(error) => Some(Err(error)),
            _ => None,
        }
    }
}

/// A transfer that has ended stays as it ended, whatever is reported to it:
/// one that failed never comes to hold a complete destination.
pub proof fn lemma_ended_is_final(t: Transfer, events: Seq<TransferEvent>)
    requires
        t.state.ended(),
    ensures
        t.run(events) == t,
    decreases events.len(),
{
    if events.len() > 0 {
        lemma_ended_is_final(t, events.drop_last());
    }
}

/// The destination is replaced only by a transfer whose body ended: a commit
/// is asked for in answer to the end of the body and to nothing else, and a
/// transfer is done only in answer to the commit.
pub proof fn lemma_commit_needs_complete_body(t: Transfer, event: TransferEvent)
    requires
        t.expects(event),
    ensures
        t.answer(event) is Commit <==> t.state is Streaming && event is Ended,
        t.next(event) is Done <==> t.state is Committing && event == (TransferEvent::Committed {
            ok: true,
        }),
        t.next(event) is Failed ==> t.answer(event) is Abandon,
{
}

/// The byte position that a transfer reports never goes back.
pub proof fn lemma_position_monotonic(t: Transfer, events: Seq<TransferEvent>)
    ensures
        t.run(events).state.position() >= t.state.position() || t.run(events).state is Failed,
    decreases events.len(),
{
    if events.len() > 0 {
        lemma_position_monotonic(t, events.drop_last());
        let before = t.run(events.drop_last());
        if before.state is Failed {
            assert(!before.expects(events.last()));
        }
    }
}

} // verus!
