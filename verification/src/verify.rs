//! Signature verification: what is asked of the external `minisign` program
//! and how its answer is read.

use vstd::prelude::*;
use crate::text::texts;

verus! {

/// Why an artifact is not trusted.
#[derive(Clone, Copy, PartialEq, Eq, Debug, Structural)]
pub enum VerificationError {
    /// The set of trusted public keys is empty.
    NoTrustedKeys,
    /// The detached signature is not on disk.
    SignatureMissing,
    /// The verification program could not be run.
    Unavailable,
    /// The verification program did not report success.
    Rejected,
}

/// The program that verifies signatures.
pub const MINISIGN: &'static str = "minisign";

/// How the attempt to run the verification program ended.
#[derive(Clone, Copy, PartialEq, Eq, Debug, Structural)]
pub enum ProcessOutcome {
    /// The program could not be started.
    NotRun,
    /// The program ran and exited, with or without success.
    Exited { success: bool },
}

/// One `-p <key>` pair for each key, in order.
pub open spec fn key_flags(keys: Seq<Seq<char>>) -> Seq<Seq<char>>
    decreases keys.len(),
{
    if keys.len() == 0 {
        seq![]
    } else {
        key_flags(keys.drop_last()).push("-p"@).push(keys.last())
    }
}

/// The arguments that make the program verify `target` against `signature`
/// under `keys`.
pub open spec fn arguments(keys: Seq<Seq<char>>, signature: Seq<char>, target: Seq<char>) -> Seq<
    Seq<char>,
> {
    key_flags(keys) + seq!["-Vm"@, target, "-x"@, signature]
}

/// What a verification must be refused for before the program is run.
pub open spec fn refusal(keys: nat, signature_present: bool) -> Option<VerificationError> {
    if keys == 0 {
        Some(VerificationError::NoTrustedKeys)
    } else if !signature_present {
        Some(VerificationError::SignatureMissing)
    } else {
        None
    }
}

/// What the program's end says of the target: trusted on an exit with
/// success, and on nothing else.
pub open spec fn verdict(outcome: ProcessOutcome) -> Result<(), VerificationError> {
    match outcome {
        ProcessOutcome::NotRun => Err(VerificationError::Unavailable),
        ProcessOutcome::Exited { success } => if success {
            Ok(())
        } else {
            Err(VerificationError::Rejected)
        },
    }
}

/// The arguments for the verification program: each trusted key behind a
/// `-p`, then `-Vm` with the target and `-x` with the signature file.
pub fn minisign_args(keys: &Vec<String>, signature_file: &str, target_file: &str) -> (args: Vec<
    String,
>)
    ensures
        texts(args@) == arguments(texts(keys@), signature_file@, target_file@),
{
    let mut args: Vec<String> = Vec::new();
    let n = keys.len();
    let mut i: usize = 0;
    while i < n
        invariant
            n == keys@.len(),
            i <= n,
            texts(args@) == key_flags(texts(keys@).take(i as int)),
        decreases n - i,
    {
        let ghost before = args@;
        args.push("-p".to_owned());
        args.push(keys[i].clone());
        proof {
            assert(texts(keys@).take(i + 1).drop_last() =~= texts(keys@).take(i as int));
            assert(texts(args@) =~= texts(before).push("-p"@).push(keys@[i as int]@));
        }
        i += 1;
    }
    let ghost flags = args@;
    args.push("-Vm".to_owned());
    args.push(target_file.to_owned());
    args.push("-x".to_owned());
    args.push(signature_file.to_owned());
    proof {
        assert(texts(keys@).take(n as int) =~= texts(keys@));
        assert(texts(args@) =~= texts(flags) + seq!["-Vm"@, target_file@, "-x"@, signature_file@]);
    }
    args
}

/// Decides whether a verification may be attempted, and with which
/// arguments. Without a trusted key, or without the signature file on disk,
/// it may not: the target stays untrusted and the program is not run.
pub fn plan_verification(
    keys: &Vec<String>,
    signature_file: &str,
    signature_present: bool,
    target_file: &str,
) -> (plan: Result<Vec<String>, VerificationError>)
    ensures
        match refusal(keys@.len(), signature_present) {
            Some(error) => plan == Err::<Vec<String>, VerificationError>(error),
            None => plan is Ok && texts(plan->Ok_0@) == arguments(
                texts(keys@),
                signature_file@,
                target_file@,
            ),
        },
{
    if keys.len() == 0 {
        Err(VerificationError::NoTrustedKeys)
    } else if !signature_present {
        Err(VerificationError::SignatureMissing)
    } else {
        Ok(minisign_args(keys, signature_file, target_file))
    }
}

/// Reads the end of the verification program: the target is trusted if the
/// program exited with success, and untrusted in every other case.
pub fn judge(outcome: ProcessOutcome) -> (result: Result<(), VerificationError>)
    ensures
        result == verdict(outcome),
        result is Ok <==> outcome == (ProcessOutcome::Exited { success: true }),
{
    match outcome {
        ProcessOutcome::NotRun => Err(VerificationError::Unavailable),
        ProcessOutcome::Exited { success } => if success {
            Ok(())
        } else {
            Err(VerificationError::Rejected)
        },
    }
}

} // verus!
