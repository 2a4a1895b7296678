use ampkg::verify::{
    judge, minisign_args, plan_verification, ProcessOutcome, VerificationError, MINISIGN,
};

#[test]
fn program_is_minisign() {
    assert_eq!(MINISIGN, "minisign");
}

#[test]
fn arguments_name_each_key_then_target_and_signature() {
    let keys = vec!["/k/a.pub".to_string(), "/k/b.pub".to_string()];
    let args = minisign_args(&keys, "/tmp/minisign_files/base.amp.minisig", "/tmp/base.amp");
    assert_eq!(
        args,
        vec![
            "-p",
            "/k/a.pub",
            "-p",
            "/k/b.pub",
            "-Vm",
            "/tmp/base.amp",
            "-x",
            "/tmp/minisign_files/base.amp.minisig"
        ]
    );
}

#[test]
fn arguments_with_one_key() {
    let keys = vec!["k.pub".to_string()];
    assert_eq!(minisign_args(&keys, "s", "t"), vec!["-p", "k.pub", "-Vm", "t", "-x", "s"]);
}

#[test]
fn empty_key_set_fails_closed() {
    let keys: Vec<String> = Vec::new();
    assert_eq!(
        plan_verification(&keys, "s.minisig", true, "t"),
        Err(VerificationError::NoTrustedKeys)
    );
    assert_eq!(
        plan_verification(&keys, "s.minisig", false, "t"),
        Err(VerificationError::NoTrustedKeys)
    );
}

#[test]
fn absent_signature_file_fails() {
    let keys = vec!["k.pub".to_string()];
    assert_eq!(
        plan_verification(&keys, "s.minisig", false, "t"),
        Err(VerificationError::SignatureMissing)
    );
}

#[test]
fn verification_is_planned_with_keys_and_signature() {
    let keys = vec!["k.pub".to_string()];
    assert_eq!(
        plan_verification(&keys, "s.minisig", true, "t"),
        Ok(vec![
            "-p".to_string(),
            "k.pub".to_string(),
            "-Vm".to_string(),
            "t".to_string(),
            "-x".to_string(),
            "s.minisig".to_string()
        ])
    );
}

#[test]
fn only_explicit_success_is_trusted() {
    assert_eq!(judge(ProcessOutcome::Exited { success: true }), Ok(()));
    assert_eq!(judge(ProcessOutcome::Exited { success: false }), Err(VerificationError::Rejected));
    assert_eq!(judge(ProcessOutcome::NotRun), Err(VerificationError::Unavailable));
}
