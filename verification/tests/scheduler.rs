use ampkg::scheduler::{
    max_parallel, Action, ArtifactError, Batch, BatchError, Event, SignatureStage, Stage,
    TransferResult,
};
use ampkg::transfer::{DownloadTask, TransferError};
use ampkg::verify::VerificationError;

fn payload_url(i: usize) -> String {
    format!("https://host/packages/pkg{}-1.0.amp", i)
}

fn payload_tasks(n: usize) -> Vec<DownloadTask> {
    (0..n).map(|i| DownloadTask::new(payload_url(i), format!("/tmp/pkg{}-1.0.amp", i))).collect()
}

fn signature_urls(n: usize) -> Vec<String> {
    (0..n).map(|i| format!("{}.minisig", payload_url(i))).collect()
}

fn one_key() -> Vec<String> {
    vec!["/usr/share/ampkg/keys/release.pub".to_string()]
}

fn planned(payloads: usize, signatures: usize, parallelism: usize) -> Batch {
    Batch::new(
        payload_tasks(payloads),
        signature_urls(signatures),
        "/tmp/minisign_files".to_string(),
        one_key(),
        true,
        parallelism,
    )
    .unwrap()
}

fn fetch_all_signatures(batch: &mut Batch, n: usize) -> Vec<Action> {
    let mut last = Vec::new();
    for i in 0..n {
        last = batch.step(Event::SignatureFetched { index: i, result: Ok(64) }).unwrap();
    }
    last
}

fn carry_through(batch: &mut Batch, index: usize) -> Vec<Action> {
    assert_eq!(
        batch.step(Event::PayloadFetched { index, result: Ok(1000) }),
        Ok(vec![Action::LocateSignature { index }])
    );
    assert_eq!(
        batch.step(Event::SignatureLocated { index, present: true }),
        Ok(vec![Action::VerifyPayload { index }])
    );
    batch.step(Event::PayloadVerified { index, result: Ok(()) }).unwrap()
}

#[test]
fn window_is_half_the_parallelism_and_at_least_one() {
    assert_eq!(max_parallel(0), 1);
    assert_eq!(max_parallel(1), 1);
    assert_eq!(max_parallel(2), 1);
    assert_eq!(max_parallel(3), 1);
    assert_eq!(max_parallel(4), 2);
    assert_eq!(max_parallel(5), 2);
    assert_eq!(max_parallel(16), 8);
    assert_eq!(max_parallel(usize::MAX), usize::MAX / 2);
}

#[test]
fn empty_key_set_gives_no_batch() {
    let r = Batch::new(
        payload_tasks(3),
        signature_urls(3),
        "/tmp/minisign_files".to_string(),
        Vec::new(),
        true,
        8,
    );
    assert_eq!(r.err(), Some(BatchError::NoTrustedKeys));
    let r = Batch::new(Vec::new(), Vec::new(), "/s".to_string(), Vec::new(), false, 8);
    assert_eq!(r.err(), Some(BatchError::NoTrustedKeys));
}

#[test]
fn missing_staging_directory_gives_no_batch() {
    let r = Batch::new(
        payload_tasks(1),
        signature_urls(1),
        "/tmp/minisign_files".to_string(),
        one_key(),
        false,
        8,
    );
    assert_eq!(r.err(), Some(BatchError::StagingUnavailable));
}

#[test]
fn planned_batch_holds_its_tasks() {
    let batch = planned(2, 2, 8);
    assert_eq!(batch.len(), 2);
    assert_eq!(batch.signature_count(), 2);
    assert_eq!(batch.limit(), 4);
    assert_eq!(batch.in_flight(), 0);
    assert_eq!(batch.keys(), &one_key());
    assert_eq!(batch.payload(1).unwrap().url, payload_url(1));
    assert_eq!(batch.payload(1).unwrap().label, "pkg1-1.0.amp");
    assert_eq!(batch.payload(2), None);
    let s = batch.signature(0).unwrap();
    assert_eq!(s.url, "https://host/packages/pkg0-1.0.amp.minisig");
    assert_eq!(s.destination, "/tmp/minisign_files/pkg0-1.0.amp.minisig");
    assert_eq!(s.label, "pkg0-1.0.amp.minisig");
    assert_eq!(batch.signature(2), None);
    assert_eq!(
        batch.expected_signature(0),
        Some("/tmp/minisign_files/pkg0-1.0.amp.minisig".to_string())
    );
    assert_eq!(batch.expected_signature(2), None);
    assert_eq!(batch.stage(0), Some(Stage::Queued));
    assert_eq!(batch.stage(2), None);
    assert_eq!(batch.signature_stage(0), Some(SignatureStage::Waiting));
    assert_eq!(batch.signature_stage(2), None);
    assert!(!batch.is_finished());
    assert!(!batch.succeeded());
    assert_eq!(batch.result(0), None);
}

#[test]
fn nothing_is_taken_before_the_start() {
    let mut batch = planned(1, 1, 2);
    assert_eq!(
        batch.step(Event::SignatureFetched { index: 0, result: Ok(1) }),
        Err(BatchError::UnexpectedEvent)
    );
    assert_eq!(
        batch.step(Event::PayloadFetched { index: 0, result: Ok(1) }),
        Err(BatchError::UnexpectedEvent)
    );
    assert_eq!(batch.stage(0), Some(Stage::Queued));
}

#[test]
fn start_asks_for_every_signature_and_no_payload() {
    let mut batch = planned(3, 3, 2);
    let actions = batch.start();
    assert_eq!(
        actions,
        vec![
            Action::FetchSignature { index: 0 },
            Action::FetchSignature { index: 1 },
            Action::FetchSignature { index: 2 }
        ]
    );
    assert_eq!(batch.pending_signatures(), 3);
    assert_eq!(batch.in_flight(), 0);
    assert_eq!(batch.start(), Vec::new());
    assert_eq!(batch.pending_signatures(), 3);
}

#[test]
fn payloads_wait_for_the_last_signature() {
    let mut batch = planned(3, 3, 4);
    batch.start();
    assert_eq!(batch.step(Event::SignatureFetched { index: 2, result: Ok(10) }), Ok(Vec::new()));
    assert_eq!(
        batch.step(Event::PayloadFetched { index: 0, result: Ok(1) }),
        Err(BatchError::UnexpectedEvent)
    );
    assert_eq!(
        batch.step(Event::SignatureFetched { index: 0, result: Err(TransferError::RequestFailed) }),
        Ok(Vec::new())
    );
    assert_eq!(batch.in_flight(), 0);
    assert_eq!(
        batch.step(Event::SignatureFetched { index: 1, result: Ok(10) }),
        Ok(vec![Action::FetchPayload { index: 0 }, Action::FetchPayload { index: 1 }])
    );
    assert_eq!(batch.in_flight(), 2);
    assert_eq!(batch.pending_signatures(), 0);
    assert_eq!(batch.signature_stage(0), Some(SignatureStage::Failed(TransferError::RequestFailed)));
    assert_eq!(batch.signature_stage(1), Some(SignatureStage::Fetched));
}

#[test]
fn batch_without_signatures_opens_the_window_at_once() {
    let mut batch = planned(3, 0, 4);
    assert_eq!(
        batch.start(),
        vec![Action::FetchPayload { index: 0 }, Action::FetchPayload { index: 1 }]
    );
    assert_eq!(batch.stage(0), Some(Stage::Transferring));
    assert_eq!(batch.stage(1), Some(Stage::Transferring));
    assert_eq!(batch.stage(2), Some(Stage::Queued));
}

#[test]
fn batch_without_payloads_finishes_with_its_signatures() {
    let mut batch = planned(0, 1, 4);
    assert_eq!(batch.start(), vec![Action::FetchSignature { index: 0 }]);
    assert!(!batch.is_finished());
    assert_eq!(batch.step(Event::SignatureFetched { index: 0, result: Ok(1) }), Ok(Vec::new()));
    assert!(batch.is_finished());
    assert!(batch.succeeded());
    assert_eq!(batch.verified(), Vec::<usize>::new());
}

#[test]
fn empty_batch_finishes_at_the_start() {
    let mut batch = planned(0, 0, 4);
    assert!(!batch.is_finished());
    assert_eq!(batch.start(), Vec::new());
    assert!(batch.is_finished());
    assert!(batch.succeeded());
}

#[test]
fn three_payloads_one_transfer_fails() {
    let mut batch = planned(3, 3, 4);
    assert_eq!(batch.limit(), 2);
    batch.start();
    assert_eq!(
        fetch_all_signatures(&mut batch, 3),
        vec![Action::FetchPayload { index: 0 }, Action::FetchPayload { index: 1 }]
    );
    assert_eq!(carry_through(&mut batch, 0), vec![Action::FetchPayload { index: 2 }]);
    assert_eq!(
        batch.step(Event::PayloadFetched {
            index: 1,
            result: Err(TransferError::Interrupted { received: 512 })
        }),
        Ok(Vec::new())
    );
    assert!(!batch.is_finished());
    assert_eq!(carry_through(&mut batch, 2), Vec::new());

    assert!(batch.is_finished());
    assert!(!batch.succeeded());
    assert_eq!(batch.verified(), vec![0, 2]);
    assert_eq!(batch.result(0), Some(TransferResult { index: 0, bytes: 1000, error: None }));
    assert_eq!(
        batch.result(1),
        Some(TransferResult {
            index: 1,
            bytes: 0,
            error: Some(ArtifactError::Transfer(TransferError::Interrupted { received: 512 }))
        })
    );
    assert_eq!(batch.result(2), Some(TransferResult { index: 2, bytes: 1000, error: None }));
    assert_eq!(batch.result(3), None);
    assert_eq!(batch.in_flight(), 0);
}

#[test]
fn tampered_payload_is_rejected_and_not_handed_on() {
    let mut batch = planned(1, 1, 2);
    batch.start();
    fetch_all_signatures(&mut batch, 1);
    batch.step(Event::PayloadFetched { index: 0, result: Ok(77) }).unwrap();
    batch.step(Event::SignatureLocated { index: 0, present: true }).unwrap();
    assert_eq!(
        batch.step(Event::PayloadVerified { index: 0, result: Err(VerificationError::Rejected) }),
        Ok(Vec::new())
    );
    assert_eq!(
        batch.stage(0),
        Some(Stage::Failed(ArtifactError::Verification(VerificationError::Rejected)))
    );
    assert!(batch.is_finished());
    assert!(!batch.succeeded());
    assert!(batch.verified().is_empty());
    assert_eq!(
        batch.result(0),
        Some(TransferResult {
            index: 0,
            bytes: 77,
            error: Some(ArtifactError::Verification(VerificationError::Rejected))
        })
    );
}

#[test]
fn all_payloads_verified_is_success() {
    let mut batch = planned(3, 3, 16);
    batch.start();
    assert_eq!(fetch_all_signatures(&mut batch, 3).len(), 3);
    for i in [2, 0, 1] {
        assert_eq!(carry_through(&mut batch, i), Vec::new());
    }
    assert!(batch.is_finished());
    assert!(batch.succeeded());
    assert_eq!(batch.verified(), vec![0, 1, 2]);
}

#[test]
fn verification_is_asked_for_only_after_transfer_and_signature() {
    let mut batch = planned(2, 2, 8);
    batch.start();
    fetch_all_signatures(&mut batch, 2);
    assert_eq!(
        batch.step(Event::PayloadVerified { index: 0, result: Ok(()) }),
        Err(BatchError::UnexpectedEvent)
    );
    assert_eq!(
        batch.step(Event::SignatureLocated { index: 0, present: true }),
        Err(BatchError::UnexpectedEvent)
    );
    assert_eq!(batch.stage(0), Some(Stage::Transferring));
    assert_eq!(
        batch.step(Event::PayloadFetched { index: 0, result: Ok(5) }),
        Ok(vec![Action::LocateSignature { index: 0 }])
    );
    assert_eq!(batch.stage(0), Some(Stage::Locating));
    assert_eq!(
        batch.step(Event::PayloadVerified { index: 0, result: Ok(()) }),
        Err(BatchError::UnexpectedEvent)
    );
    assert_eq!(
        batch.step(Event::SignatureLocated { index: 0, present: true }),
        Ok(vec![Action::VerifyPayload { index: 0 }])
    );
    assert_eq!(batch.stage(0), Some(Stage::Verifying));
    assert_eq!(batch.stage(1), Some(Stage::Transferring));
}

#[test]
fn absent_signature_file_fails_the_payload_without_verification() {
    let mut batch = planned(2, 0, 2);
    batch.start();
    batch.step(Event::PayloadFetched { index: 0, result: Ok(5) }).unwrap();
    assert_eq!(
        batch.step(Event::SignatureLocated { index: 0, present: false }),
        Ok(vec![Action::FetchPayload { index: 1 }])
    );
    assert_eq!(
        batch.stage(0),
        Some(Stage::Failed(ArtifactError::Verification(VerificationError::SignatureMissing)))
    );
    assert_eq!(
        batch.step(Event::PayloadVerified { index: 0, result: Ok(()) }),
        Err(BatchError::UnexpectedEvent)
    );
}

#[test]
fn failed_signature_transfer_makes_its_payload_unverifiable() {
    let mut batch = planned(2, 2, 8);
    batch.start();
    batch
        .step(Event::SignatureFetched {
            index: 1,
            result: Err(TransferError::BadStatus { status: 404 }),
        })
        .unwrap();
    batch.step(Event::SignatureFetched { index: 0, result: Ok(3) }).unwrap();
    assert_eq!(
        batch.step(Event::PayloadFetched { index: 1, result: Ok(9) }),
        Ok(Vec::new())
    );
    assert_eq!(
        batch.stage(1),
        Some(Stage::Failed(ArtifactError::Verification(VerificationError::SignatureMissing)))
    );
    assert_eq!(
        batch.step(Event::PayloadFetched { index: 0, result: Ok(9) }),
        Ok(vec![Action::LocateSignature { index: 0 }])
    );
}

#[test]
fn signature_is_matched_to_its_payload_by_name() {
    let payloads = vec![
        DownloadTask::new("https://a/x/one.amp".to_string(), "/tmp/one.amp".to_string()),
        DownloadTask::new("https://a/x/two.amp".to_string(), "/tmp/two.amp".to_string()),
    ];
    let signatures = vec![
        "https://mirror/two.amp.minisig".to_string(),
        "https://mirror/other.minisig".to_string(),
        "https://mirror/one.amp.minisig".to_string(),
    ];
    let mut batch =
        Batch::new(payloads, signatures, "/s".to_string(), one_key(), true, 8).unwrap();
    batch.start();
    batch
        .step(Event::SignatureFetched { index: 0, result: Err(TransferError::RequestFailed) })
        .unwrap();
    batch
        .step(Event::SignatureFetched { index: 1, result: Err(TransferError::RequestFailed) })
        .unwrap();
    batch.step(Event::SignatureFetched { index: 2, result: Ok(1) }).unwrap();
    assert_eq!(
        batch.step(Event::PayloadFetched { index: 0, result: Ok(1) }),
        Ok(vec![Action::LocateSignature { index: 0 }])
    );
    assert_eq!(batch.step(Event::PayloadFetched { index: 1, result: Ok(1) }), Ok(Vec::new()));
    assert_eq!(
        batch.stage(1),
        Some(Stage::Failed(ArtifactError::Verification(VerificationError::SignatureMissing)))
    );
}

#[test]
fn window_is_never_exceeded_and_kept_full() {
    let total = 7;
    let mut batch = planned(total, 0, 6);
    let limit = batch.limit();
    assert_eq!(limit, 3);
    let mut running: Vec<usize> = Vec::new();
    for action in batch.start() {
        match action {
            Action::FetchPayload { index } => running.push(index),
            other => panic!("{:?}", other),
        }
    }
    assert_eq!(running, vec![0, 1, 2]);
    let mut admitted = running.len();
    let mut turn = 0;
    while !running.is_empty() {
        assert!(batch.in_flight() <= limit);
        assert_eq!(batch.in_flight(), running.len());
        if admitted < total {
            assert_eq!(batch.in_flight(), limit);
        }
        let index = running.remove(turn % running.len());
        turn += 1;
        let next = if turn % 3 == 0 {
            batch
                .step(Event::PayloadFetched { index, result: Err(TransferError::RequestFailed) })
                .unwrap()
        } else {
            carry_through(&mut batch, index)
        };
        assert!(next.len() <= 1);
        for action in next {
            match action {
                Action::FetchPayload { index } => {
                    assert_eq!(index, admitted);
                    admitted += 1;
                    running.push(index);
                }
                other => panic!("{:?}", other),
            }
        }
    }
    assert_eq!(admitted, total);
    assert!(batch.is_finished());
    assert!(!batch.succeeded());
    assert_eq!(batch.verified(), vec![0, 1, 2, 3, 5]);
    assert_eq!(
        batch.result(4).unwrap().error,
        Some(ArtifactError::Transfer(TransferError::RequestFailed))
    );
    assert_eq!(
        batch.result(6).unwrap().error,
        Some(ArtifactError::Transfer(TransferError::RequestFailed))
    );
}

#[test]
fn single_slot_window_runs_payloads_one_by_one() {
    let mut batch = planned(3, 0, 1);
    assert_eq!(batch.limit(), 1);
    assert_eq!(batch.start(), vec![Action::FetchPayload { index: 0 }]);
    assert_eq!(carry_through(&mut batch, 0), vec![Action::FetchPayload { index: 1 }]);
    assert_eq!(batch.in_flight(), 1);
    assert_eq!(carry_through(&mut batch, 1), vec![Action::FetchPayload { index: 2 }]);
    assert_eq!(carry_through(&mut batch, 2), Vec::new());
    assert!(batch.succeeded());
}

#[test]
fn window_larger_than_the_batch_admits_all() {
    let mut batch = planned(2, 0, 64);
    assert_eq!(
        batch.start(),
        vec![Action::FetchPayload { index: 0 }, Action::FetchPayload { index: 1 }]
    );
    assert_eq!(batch.in_flight(), 2);
}

#[test]
fn reports_of_what_is_not_awaited_change_nothing() {
    let mut batch = planned(2, 1, 2);
    batch.start();
    assert_eq!(
        batch.step(Event::SignatureFetched { index: 1, result: Ok(1) }),
        Err(BatchError::UnexpectedEvent)
    );
    assert_eq!(
        batch.step(Event::SignatureFetched { index: usize::MAX, result: Ok(1) }),
        Err(BatchError::UnexpectedEvent)
    );
    batch.step(Event::SignatureFetched { index: 0, result: Ok(1) }).unwrap();
    assert_eq!(
        batch.step(Event::SignatureFetched { index: 0, result: Ok(1) }),
        Err(BatchError::UnexpectedEvent)
    );
    assert_eq!(
        batch.step(Event::PayloadFetched { index: 1, result: Ok(1) }),
        Err(BatchError::UnexpectedEvent)
    );
    assert_eq!(
        batch.step(Event::PayloadFetched { index: 9, result: Ok(1) }),
        Err(BatchError::UnexpectedEvent)
    );
    assert_eq!(batch.stage(0), Some(Stage::Transferring));
    assert_eq!(batch.stage(1), Some(Stage::Queued));
    assert_eq!(batch.in_flight(), 1);
    carry_through(&mut batch, 0);
    assert_eq!(
        batch.step(Event::PayloadFetched { index: 0, result: Ok(1) }),
        Err(BatchError::UnexpectedEvent)
    );
    assert_eq!(batch.stage(0), Some(Stage::Verified));
}

#[test]
fn failure_of_one_payload_leaves_the_others_running() {
    let mut batch = planned(3, 0, 6);
    batch.start();
    batch
        .step(Event::PayloadFetched { index: 1, result: Err(TransferError::MissingLength) })
        .unwrap();
    assert_eq!(batch.stage(0), Some(Stage::Transferring));
    assert_eq!(batch.stage(2), Some(Stage::Transferring));
    assert_eq!(batch.in_flight(), 2);
    carry_through(&mut batch, 0);
    carry_through(&mut batch, 2);
    assert_eq!(batch.verified(), vec![0, 2]);
}

#[test]
fn payloads_with_one_url_are_tasks_of_their_own() {
    let payloads = vec![
        DownloadTask::new("https://a/same.amp".to_string(), "/tmp/1".to_string()),
        DownloadTask::new("https://a/same.amp".to_string(), "/tmp/2".to_string()),
    ];
    let signatures = vec!["https://a/same.amp.minisig".to_string()];
    let mut batch =
        Batch::new(payloads, signatures, "/s".to_string(), one_key(), true, 8).unwrap();
    batch.start();
    batch
        .step(Event::SignatureFetched { index: 0, result: Err(TransferError::CreateFailed) })
        .unwrap();
    assert_eq!(batch.step(Event::PayloadFetched { index: 0, result: Ok(1) }), Ok(Vec::new()));
    assert_eq!(batch.step(Event::PayloadFetched { index: 1, result: Ok(1) }), Ok(Vec::new()));
    assert!(batch.is_finished());
    assert!(batch.verified().is_empty());
}

#[test]
fn bytes_of_a_payload_are_those_of_its_transfer() {
    let mut batch = planned(1, 0, 2);
    batch.start();
    batch.step(Event::PayloadFetched { index: 0, result: Ok(123_456) }).unwrap();
    assert_eq!(batch.result(0), None);
    batch.step(Event::SignatureLocated { index: 0, present: false }).unwrap();
    assert_eq!(
        batch.result(0),
        Some(TransferResult {
            index: 0,
            bytes: 123_456,
            error: Some(ArtifactError::Verification(VerificationError::SignatureMissing))
        })
    );
}

#[test]
fn verification_that_cannot_run_fails_the_payload() {
    let mut batch = planned(1, 0, 2);
    batch.start();
    batch.step(Event::PayloadFetched { index: 0, result: Ok(1) }).unwrap();
    batch.step(Event::SignatureLocated { index: 0, present: true }).unwrap();
    batch
        .step(Event::PayloadVerified { index: 0, result: Err(VerificationError::Unavailable) })
        .unwrap();
    assert_eq!(
        batch.stage(0),
        Some(Stage::Failed(ArtifactError::Verification(VerificationError::Unavailable)))
    );
    assert!(!batch.succeeded());
}
