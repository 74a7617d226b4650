use vstd::prelude::*;
use crate::error::HostError;

verus! {

/// How long one preparation may take before it counts as timed out: 60 s.
pub const PREPARATION_TIMEOUT_MS: u64 = 60000;

/// Why a code blob is being prepared.
#[derive(Debug, Clone, Copy, PartialEq, Eq, Structural)]
pub enum PrepareJobKind {
    /// Ordinary compilation ahead of execution.
    Compilation,
    /// A precheck of code that is not yet in use.
    Prechecking,
}

/// One unit of preparation work: decompressed code, the run's executor
/// parameters, the timeout and the job kind.
#[derive(Debug, Clone)]
pub struct PrepData {
    pub code: Vec<u8>,
    pub executor_params: Vec<u8>,
    pub timeout_ms: u64,
    pub kind: PrepareJobKind,
}

/// Where one submission to the host stands.
#[derive(Debug, Clone, PartialEq, Eq)]
pub enum SubmissionState {
    Submitted,
    Preparing,
    /// Prepared, after the given number of milliseconds.
    Succeeded(u64),
    /// The host could not prepare the code, for the given reason.
    Failed(String),
    TimedOut,
}

impl SubmissionState {
    pub open spec fn is_terminal(&self) -> bool {
        match self {
            SubmissionState::Submitted | SubmissionState::Preparing => false,
            _ => true,
        }
    }
}

/// The client's record of one submission, from hand-over to a final state.
/// A final state never changes again.
#[derive(Debug, Clone)]
pub struct Submission {
    pub state: SubmissionState,
    pub started_ms: u64,
    pub timeout_ms: u64,
}

/// The state after time reaches `now` with no answer.
pub open spec fn after_tick(s: Submission, now: u64) -> SubmissionState {
    if !s.state.is_terminal() && now >= s.deadline() {
        SubmissionState::TimedOut
    } else {
        s.state
    }
}

/// The state after the host answers at `now`.
pub open spec fn after_complete(s: Submission, now: u64, answer: Result<(), String>) -> SubmissionState {
    if s.state.is_terminal() {
        s.state
    } else if now >= s.deadline() {
        SubmissionState::TimedOut
    } else {
        match answer {
            Ok(()) => SubmissionState::Succeeded((now - s.started_ms) as u64),
            Err(reason) => SubmissionState::Failed(reason),
        }
    }
}

impl Submission {
    /// The moment at or after which the submission counts as timed out.
    pub open spec fn deadline(&self) -> int {
        self.started_ms + self.timeout_ms
    }

    /// Records a submission handed over at `now_ms`.
    pub fn submit(now_ms: u64, timeout_ms: u64) -> (r: Submission)
        ensures
            r.state == SubmissionState::Submitted,
            r.started_ms == now_ms,
            r.timeout_ms == timeout_ms,
    {
        Submission { state: SubmissionState::Submitted, started_ms: now_ms, timeout_ms }
    }

    /// The host has taken the job up.
    pub fn accept(&mut self)
        ensures
            final(self).started_ms == old(self).started_ms,
            final(self).timeout_ms == old(self).timeout_ms,
            old(self).state == SubmissionState::Submitted ==> final(self).state == SubmissionState::Preparing,
            old(self).state != SubmissionState::Submitted ==> final(self).state == old(self).state,
    {
        if let SubmissionState::Submitted = self.state {
            self.state = SubmissionState::Preparing;
        }
    }

    /// Time has reached `now_ms` with no answer: at or past the deadline an
    /// open submission becomes `TimedOut`; before it nothing changes.
    pub fn tick(&mut self, now_ms: u64)
        ensures
            final(self).started_ms == old(self).started_ms,
            final(self).timeout_ms == old(self).timeout_ms,
            final(self).state == after_tick(*old(self), now_ms),
    {
        let open = match self.state {
            SubmissionState::Submitted | SubmissionState::Preparing => true,
            _ => false,
        };
        if open && now_ms as u128 >= self.started_ms as u128 + self.timeout_ms as u128 {
            self.state = SubmissionState::TimedOut;
        }
    }

    /// The host answered at `now_ms`. An answer at or past the deadline is
    /// too late and the submission is `TimedOut`; one before it records the
    /// elapsed time or the failure. A final state is kept.
    pub fn complete(&mut self, now_ms: u64, answer: Result<(), String>)
        requires
            now_ms >= old(self).started_ms,
        ensures
            final(self).started_ms == old(self).started_ms,
            final(self).timeout_ms == old(self).timeout_ms,
            final(self).state == after_complete(*old(self), now_ms, answer),
    {
        let open = match self.state {
            SubmissionState::Submitted | SubmissionState::Preparing => true,
            _ => false,
        };
        if !open {
            return;
        }
        if now_ms as u128 >= self.started_ms as u128 + self.timeout_ms as u128 {
            self.state = SubmissionState::TimedOut;
        } else {
            match answer {
                Ok(()) => {
                    self.state = SubmissionState::Succeeded(now_ms - self.started_ms);
                },
                Err(reason) => {
                    self.state = SubmissionState::Failed(reason);
                },
            }
        }
    }

    /// The outcome, once final: the elapsed milliseconds, or the failure.
    pub fn outcome(&self) -> (r: Option<Result<u64, HostError>>)
        ensures
            !self.state.is_terminal() ==> r is None,
            self.state matches SubmissionState::Succeeded(ms) ==> r == Some(Ok::<u64, HostError>(ms)),
            self.state matches SubmissionState::Failed(reason) ==> r == Some(Err::<u64, HostError>(HostError::PreparationFailed(reason))),
            self.state == SubmissionState::TimedOut ==> r == Some(Err::<u64, HostError>(HostError::Timeout)),
    {
        match &self.state {
            SubmissionState::Submitted | SubmissionState::Preparing => None,
            SubmissionState::Succeeded(ms) => Some(Ok(*ms)),
            SubmissionState::Failed(reason) => Some(Err(HostError::PreparationFailed(reason.clone()))),
            SubmissionState::TimedOut => Some(Err(HostError::Timeout)),
        }
    }
}

/// A submission that never hears back times out exactly at its deadline:
/// a tick before it leaves the submission open, a tick at or after it makes
/// it `TimedOut`, and an answer arriving after that changes nothing.
pub proof fn lemma_timeout_at_deadline(s: Submission, early: u64, late: u64, later_ms: u64, answer: Result<(), String>)
    requires
        !s.state.is_terminal(),
        early < s.deadline(),
        late >= s.deadline(),
    ensures
        after_tick(s, early) == s.state,
        !after_tick(s, early).is_terminal(),
        after_tick(s, late) == SubmissionState::TimedOut,
        after_complete((Submission { state: after_tick(s, late), ..s }), later_ms, answer) == SubmissionState::TimedOut,
{
}

} // verus!
