use vstd::prelude::*;
use crate::position::PositionManager;

verus! {

/// Where a plan is submitted.
#[derive(Clone, Copy, Debug, PartialEq, Eq, Structural)]
pub enum SubmissionPath {
    /// Private priority relay.
    Relay,
    /// Ordinary public submission.
    Standard,
}

/// How one submission attempt failed.
#[derive(Clone, Copy, Debug, PartialEq, Eq, Structural)]
pub enum SubmitError {
    /// Network failure or timeout: whether the plan landed is unknown.
    Transport,
    /// The venue or relay declined the plan.
    Rejected,
    /// The relay could not be reached for submission.
    RelayUnavailable,
}

/// Proof that a plan was submitted.
#[derive(Clone, Debug)]
pub struct Receipt {
    pub signature: String,
}

/// Why an execution failed.
#[derive(Clone, Copy, Debug, PartialEq, Eq, Structural)]
pub enum ExecutionError {
    /// Network or transport failure; safe to retry from outside.
    Transport,
    /// Declined by the venue; not retryable with the same plan.
    Rejected,
}

impl ExecutionError {
    pub fn is_retryable(&self) -> (r: bool)
        ensures
            r == (*self == ExecutionError::Transport),
    {
        match self {
            ExecutionError::Transport => true,
            ExecutionError::Rejected => false,
        }
    }
}

/// What the coordinator does next.
#[derive(Debug)]
pub enum ExecStep {
    Submit(SubmissionPath),
    Finished(Result<Receipt, ExecutionError>),
}

/// The first submission path: the relay when one is configured.
pub open spec fn first_path_spec(relay_configured: bool) -> SubmissionPath {
    if relay_configured {
        SubmissionPath::Relay
    } else {
        SubmissionPath::Standard
    }
}

pub fn first_path(relay_configured: bool) -> (r: SubmissionPath)
    ensures
        r == first_path_spec(relay_configured),
{
    if relay_configured {
        SubmissionPath::Relay
    } else {
        SubmissionPath::Standard
    }
}

/// The step after an attempt on `path` ended with `outcome`.
pub open spec fn next_step(path: SubmissionPath, outcome: Result<Receipt, SubmitError>) -> ExecStep {
    match outcome {
        Ok(receipt) => ExecStep::Finished(Ok(receipt)),
        Err(SubmitError::Transport) => ExecStep::Finished(Err(ExecutionError::Transport)),
        Err(_) => match path {
            SubmissionPath::Relay => ExecStep::Submit(SubmissionPath::Standard),
            SubmissionPath::Standard => ExecStep::Finished(Err(ExecutionError::Rejected)),
        },
    }
}

/// Decides what follows a submission attempt. A relay that declines or is
/// unreachable hands over to standard submission; a transport failure ends
/// the execution, since the plan may have landed and must not be sent twice.
pub fn after_submit(path: SubmissionPath, outcome: Result<Receipt, SubmitError>) -> (r: ExecStep)
    ensures
        r == next_step(path, outcome),
{
    match outcome {
        Ok(receipt) => ExecStep::Finished(Ok(receipt)),
        Err(SubmitError::Transport) => ExecStep::Finished(Err(ExecutionError::Transport)),
        Err(_) => match path {
            SubmissionPath::Relay => ExecStep::Submit(SubmissionPath::Standard),
            SubmissionPath::Standard => ExecStep::Finished(Err(ExecutionError::Rejected)),
        },
    }
}

/// Without a relay the plan goes to standard submission, and a receipt from
/// it ends the execution with that receipt.
pub proof fn lemma_no_relay_standard_receipt(receipt: Receipt)
    ensures
        first_path_spec(false) == SubmissionPath::Standard,
        next_step(SubmissionPath::Standard, Ok(receipt)) == ExecStep::Finished(Ok(receipt)),
{
}

/// Ends an execution of `size`: on success the exposure grows by `size`
/// before the receipt is returned; on failure it is left as it was.
pub fn settle(pm: &mut PositionManager, size: u64, result: Result<Receipt, ExecutionError>) -> (r: Result<Receipt, ExecutionError>)
    requires
        old(pm).wf(),
        old(pm).permits_spec(size),
    ensures
        final(pm).wf(),
        r == result,
        r is Ok ==> final(pm).accepted() == old(pm).accepted().push(size)
            && final(pm).exposure_spec() == old(pm).exposure_spec() + size
            && final(pm).limit_spec() == old(pm).limit_spec(),
        r is Err ==> *final(pm) == *old(pm),
{
    match result {
        Ok(receipt) => {
            pm.record(size);
            Ok(receipt)
        },
        Err(e) => Err(e),
    }
}

} // verus!
