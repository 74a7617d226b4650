use vstd::prelude::*;
use crate::decompress::{bytes_result, decompress_code, decompressed_code};
use crate::error::{CodeError, HostError};
use crate::host::{PREPARATION_TIMEOUT_MS, PrepData, PrepareJobKind};
use crate::resolve::{ParaCode, ResolvedSet};
use crate::skip::SkipSet;

verus! {

/// Why one parachain's check failed.
#[derive(Debug, Clone, PartialEq, Eq)]
pub enum Failure {
    /// The code blob was rejected before submission.
    Code(CodeError),
    /// The host could not prepare the code.
    Preparation(String),
    /// The preparation did not finish in time.
    Timeout,
}

/// The one outcome line of one parachain.
#[derive(Debug, Clone, PartialEq, Eq)]
pub enum Report {
    Skipped(u32),
    /// Prepared, after the given number of milliseconds.
    Prepared(u32, u64),
    Failed(u32, Failure),
}

/// The parachain a report is about.
pub open spec fn report_para(r: Report) -> u32 {
    match r {
        Report::Skipped(id) => id,
        Report::Prepared(id, _) => id,
        Report::Failed(id, _) => id,
    }
}

/// What to do with one parachain of the set.
#[derive(Debug, Clone)]
pub enum ItemPlan {
    Skip,
    Reject(CodeError),
    Submit(PrepData),
}

/// Whether the code of `pvf` goes to the host: it is not skipped and it
/// decompresses within the bound.
pub open spec fn is_submitted(pvf: ParaCode, skip: Set<u32>) -> bool {
    !skip.contains(pvf.para_id) && decompressed_code(pvf.code@) is Ok
}

/// Decides what to do with one parachain: skip it, reject its code, or build
/// the preparation job with the run's executor parameters, the fixed timeout
/// and the prechecking kind. A skipped id is never decompressed.
pub fn plan_item(pvf: &ParaCode, executor_params: &Vec<u8>, skip: &SkipSet) -> (r: ItemPlan)
    requires
        skip.wf(),
    ensures
        skip@.contains(pvf.para_id) <==> r is Skip,
        !skip@.contains(pvf.para_id) ==> match decompressed_code(pvf.code@) {
            Err(e) => r == ItemPlan::Reject(e),
            Ok(code) => r matches ItemPlan::Submit(d) && d.code@ == code && d.executor_params@ == executor_params@ && d.timeout_ms == PREPARATION_TIMEOUT_MS && d.kind == PrepareJobKind::Prechecking,
        },
{
    if skip.contains(pvf.para_id) {
        return ItemPlan::Skip;
    }
    match decompress_code(&pvf.code) {
        Err(e) => ItemPlan::Reject(e),
        Ok(code) => ItemPlan::Submit(PrepData {
            code,
            executor_params: executor_params.clone(),
            timeout_ms: PREPARATION_TIMEOUT_MS,
            kind: PrepareJobKind::Prechecking,
        }),
    }
}

/// The report of a submitted parachain from the host's reply, or the error
/// that aborts the run when the host itself is unavailable.
pub open spec fn reply_report(para_id: u32, reply: Result<u64, HostError>) -> Result<Report, HostError> {
    match reply {
        Ok(ms) => Ok(Report::Prepared(para_id, ms)),
        Err(HostError::Unavailable) => Err(HostError::Unavailable),
        Err(HostError::PreparationFailed(reason)) => Ok(Report::Failed(para_id, Failure::Preparation(reason))),
        Err(HostError::Timeout) => Ok(Report::Failed(para_id, Failure::Timeout)),
    }
}

/// Turns the host's reply for one parachain into its report.
pub fn report_reply(para_id: u32, reply: Result<u64, HostError>) -> (r: Result<Report, HostError>)
    ensures
        r == reply_report(para_id, reply),
{
    match reply {
        Ok(ms) => Ok(Report::Prepared(para_id, ms)),
        Err(HostError::Unavailable) => Err(HostError::Unavailable),
        Err(HostError::PreparationFailed(reason)) => Ok(Report::Failed(para_id, Failure::Preparation(reason))),
        Err(HostError::Timeout) => Ok(Report::Failed(para_id, Failure::Timeout)),
    }
}

/// Whether `rep` is a report that the run may give for `pvf`: a skipped id
/// is reported skipped; rejected code is reported with its error; submitted
/// code is reported prepared, failed or timed out.
pub open spec fn report_fits(rep: Report, pvf: ParaCode, skip: Set<u32>) -> bool {
    &&& report_para(rep) == pvf.para_id
    &&& skip.contains(pvf.para_id) <==> rep is Skipped
    &&& !skip.contains(pvf.para_id) ==> match decompressed_code(pvf.code@) {
        Err(e) => rep == Report::Failed(pvf.para_id, Failure::Code(e)),
        Ok(_) => rep matches Report::Prepared(_, _) || rep matches Report::Failed(_, Failure::Preparation(_)) || rep matches Report::Failed(_, Failure::Timeout),
    }
}

/// The ids handed to the host for the first `n` parachains, in order.
pub open spec fn submissions(pvfs: Seq<ParaCode>, skip: Set<u32>, n: nat) -> Seq<u32>
    decreases n,
{
    if n == 0 || n > pvfs.len() {
        Seq::empty()
    } else {
        let prev = submissions(pvfs, skip, (n - 1) as nat);
        if is_submitted(pvfs[n - 1], skip) {
            prev.push(pvfs[n - 1].para_id)
        } else {
            prev
        }
    }
}

/// No skipped id is ever handed to the host, and every parachain that is
/// neither skipped nor rejected is.
pub proof fn lemma_submissions_respect_skip(pvfs: Seq<ParaCode>, skip: Set<u32>, n: nat)
    requires
        n <= pvfs.len(),
    ensures
        submissions(pvfs, skip, n).len() <= n,
        forall|k: int| 0 <= k < submissions(pvfs, skip, n).len() ==> !skip.contains(#[trigger] submissions(pvfs, skip, n)[k]),
        forall|i: int| 0 <= i < n && is_submitted(#[trigger] pvfs[i], skip) ==> submissions(pvfs, skip, n).contains(pvfs[i].para_id),
    decreases n,
{
    if n > 0 {
        lemma_submissions_respect_skip(pvfs, skip, (n - 1) as nat);
        let prev = submissions(pvfs, skip, (n - 1) as nat);
        let cur = submissions(pvfs, skip, n);
        assert forall|i: int| 0 <= i < n && is_submitted(#[trigger] pvfs[i], skip) implies cur.contains(pvfs[i].para_id) by {
            if i < n - 1 {
                let k = choose|k: int| 0 <= k < prev.len() && prev[k] == pvfs[i].para_id;
                assert(cur[k] == prev[k]);
            } else {
                assert(cur[prev.len() as int] == pvfs[i].para_id);
            }
        };
        assert forall|k: int| 0 <= k < cur.len() implies !skip.contains(#[trigger] cur[k]) by {
            if k < prev.len() {
                assert(cur[k] == prev[k]);
            }
        };
    }
}

/// Whether a report counts as a failure of the run.
pub open spec fn is_failure(r: Report) -> bool {
    r is Failed
}

/// What the run asks of its driver next.
#[derive(Debug, Clone)]
pub enum RunAction {
    /// Submit this job for this parachain, then hand back the host's reply.
    Submit(u32, PrepData),
    /// Every parachain has its report; `true` when none of them failed.
    Finished(bool),
}

/// One precheck run over a resolved code set: it walks the parachains in
/// order, reports skipped and rejected ones itself, and hands each other one
/// to its driver for submission, one at a time.
pub struct PrecheckRun {
    pvfs: Vec<ParaCode>,
    executor_params: Vec<u8>,
    skip: SkipSet,
    next: usize,
    pending: Option<u32>,
    reports: Vec<Report>,
    submitted: Vec<u32>,
}

impl PrecheckRun {
    pub closed spec fn pvfs_seq(&self) -> Seq<ParaCode> {
        self.pvfs@
    }

    pub closed spec fn params_seq(&self) -> Seq<u8> {
        self.executor_params@
    }

    pub closed spec fn skip_set(&self) -> Set<u32> {
        self.skip@
    }

    pub closed spec fn reports_seq(&self) -> Seq<Report> {
        self.reports@
    }

    /// The ids handed to the host so far, in order.
    pub closed spec fn submitted_seq(&self) -> Seq<u32> {
        self.submitted@
    }

    /// The parachain whose reply is awaited, if any.
    pub closed spec fn pending_spec(&self) -> Option<u32> {
        self.pending
    }

    /// How many parachains have been taken up.
    pub closed spec fn position(&self) -> nat {
        self.next as nat
    }

    /// Whether every parachain has its report.
    pub open spec fn finished(&self) -> bool {
        self.pending_spec() is None && self.position() == self.pvfs_seq().len()
    }

    pub closed spec fn wf(&self) -> bool {
        &&& self.skip.wf()
        &&& self.next <= self.pvfs@.len()
        &&& self.pending is None ==> self.reports@.len() == self.next
        &&& self.pending matches Some(id) ==> {
            &&& self.next > 0
            &&& self.reports@.len() == self.next - 1
            &&& id == self.pvfs@[self.next - 1].para_id
            &&& is_submitted(self.pvfs@[self.next - 1], self.skip@)
        }
        &&& forall|i: int| 0 <= i < self.reports@.len() ==> report_fits(#[trigger] self.reports@[i], self.pvfs@[i], self.skip@)
        &&& self.submitted@ == submissions(self.pvfs@, self.skip@, self.next as nat)
    }

    /// Starts a run over `set`, with nothing reported yet.
    pub fn new(set: ResolvedSet, skip: SkipSet) -> (r: PrecheckRun)
        requires
            skip.wf(),
        ensures
            r.wf(),
            r.pvfs_seq() == set.pvfs@,
            r.params_seq() == set.executor_params@,
            r.skip_set() == skip@,
            r.reports_seq() == Seq::<Report>::empty(),
            r.submitted_seq() == Seq::<u32>::empty(),
            r.pending_spec() is None,
            r.position() == 0,
    {
        PrecheckRun {
            pvfs: set.pvfs,
            executor_params: set.executor_params,
            skip,
            next: 0,
            pending: None,
            reports: Vec::new(),
            submitted: Vec::new(),
        }
    }

    /// Moves the run on: reports skipped and rejected parachains, and stops
    /// at the next one to submit, or at the end of the set with the verdict.
    pub fn next_action(&mut self) -> (r: RunAction)
        requires
            old(self).wf(),
            old(self).pending_spec() is None,
        ensures
            final(self).wf(),
            final(self).pvfs_seq() == old(self).pvfs_seq(),
            final(self).params_seq() == old(self).params_seq(),
            final(self).skip_set() == old(self).skip_set(),
            old(self).reports_seq().len() <= final(self).reports_seq().len(),
            final(self).reports_seq().subrange(0, old(self).reports_seq().len() as int) == old(self).reports_seq(),
            r matches RunAction::Submit(id, d) ==> {
                &&& final(self).pending_spec() == Some(id)
                &&& final(self).pvfs_seq()[final(self).position() - 1].para_id == id
                &&& bytes_result(Ok(d.code)) == decompressed_code(final(self).pvfs_seq()[final(self).position() - 1].code@)
                &&& d.executor_params@ == final(self).params_seq()
                &&& d.timeout_ms == PREPARATION_TIMEOUT_MS
                &&& d.kind == PrepareJobKind::Prechecking
            },
            r matches RunAction::Finished(ok) ==> {
                &&& final(self).finished()
                &&& ok == forall|i: int| 0 <= i < final(self).reports_seq().len() ==> !is_failure(#[trigger] final(self).reports_seq()[i])
            },
    {
        while self.next < self.pvfs.len()
            invariant
                self.wf(),
                self.pending is None,
                self.pvfs@ == old(self).pvfs@,
                self.executor_params@ == old(self).executor_params@,
                self.skip@ == old(self).skip@,
                old(self).reports@.len() <= self.reports@.len(),
                self.reports@.subrange(0, old(self).reports@.len() as int) == old(self).reports@,
            decreases self.pvfs@.len() - self.next,
        {
            let i = self.next;
            let id = self.pvfs[i].para_id;
            let plan = plan_item(&self.pvfs[i], &self.executor_params, &self.skip);
            let ghost before = self.reports@;
            match plan {
                ItemPlan::Skip => {
                    self.reports.push(Report::Skipped(id));
                    self.next = i + 1;
                    assert(self.reports@.subrange(0, old(self).reports@.len() as int) =~= before.subrange(0, old(self).reports@.len() as int));
                },
                ItemPlan::Reject(e) => {
                    self.reports.push(Report::Failed(id, Failure::Code(e)));
                    self.next = i + 1;
                    assert(self.reports@.subrange(0, old(self).reports@.len() as int) =~= before.subrange(0, old(self).reports@.len() as int));
                },
                ItemPlan::Submit(d) => {
                    self.pending = Some(id);
                    self.submitted.push(id);
                    self.next = i + 1;
                    return RunAction::Submit(id, d);
                },
            }
        }
        let mut ok = true;
        let mut k: usize = 0;
        while k < self.reports.len()
            invariant
                k <= self.reports@.len(),
                ok == forall|j: int| 0 <= j < k ==> !is_failure(#[trigger] self.reports@[j]),
            decreases self.reports@.len() - k,
        {
            if let Report::Failed(_, _) = self.reports[k] {
                ok = false;
            }
            k = k + 1;
        }
        RunAction::Finished(ok)
    }

    /// Records the host's reply for the awaited parachain. An unavailable
    /// host aborts the run and leaves it as it was; any other reply becomes
    /// that parachain's report.
    pub fn record(&mut self, reply: Result<u64, HostError>) -> (r: Result<(), HostError>)
        requires
            old(self).wf(),
            old(self).pending_spec() is Some,
        ensures
            reply == Err::<u64, HostError>(HostError::Unavailable) ==> r == Err::<(), HostError>(HostError::Unavailable) && *final(self) == *old(self),
            reply != Err::<u64, HostError>(HostError::Unavailable) ==> {
                &&& r is Ok
                &&& final(self).wf()
                &&& final(self).pending_spec() is None
                &&& final(self).position() == old(self).position()
                &&& final(self).pvfs_seq() == old(self).pvfs_seq()
                &&& final(self).params_seq() == old(self).params_seq()
                &&& final(self).skip_set() == old(self).skip_set()
                &&& final(self).submitted_seq() == old(self).submitted_seq()
                &&& final(self).reports_seq() == old(self).reports_seq().push(reply_report(old(self).pending_spec().unwrap(), reply).unwrap())
            },
    {
        let id = match self.pending {
            Some(id) => id,
            None => {
                return Ok(());
            },
        };
        match report_reply(id, reply) {
            Err(e) => Err(e),
            Ok(rep) => {
                self.reports.push(rep);
                self.pending = None;
                Ok(())
            },
        }
    }

    /// A finished run has exactly one report per parachain, in set order: a
    /// parachain is reported skipped exactly when its id is in the skip set,
    /// no skipped id was submitted, and every other parachain whose code
    /// decompressed was submitted.
    pub proof fn lemma_finished_run(&self)
        requires
            self.wf(),
            self.finished(),
        ensures
            self.reports_seq().len() == self.pvfs_seq().len(),
            forall|i: int| 0 <= i < self.pvfs_seq().len() ==> report_para(#[trigger] self.reports_seq()[i]) == self.pvfs_seq()[i].para_id,
            forall|i: int| 0 <= i < self.pvfs_seq().len() ==> (self.skip_set().contains(self.pvfs_seq()[i].para_id) <==> (#[trigger] self.reports_seq()[i]) is Skipped),
            forall|i: int| 0 <= i < self.pvfs_seq().len() ==> report_fits(#[trigger] self.reports_seq()[i], self.pvfs_seq()[i], self.skip_set()),
            self.submitted_seq() == submissions(self.pvfs_seq(), self.skip_set(), self.pvfs_seq().len()),
            forall|k: int| 0 <= k < self.submitted_seq().len() ==> !self.skip_set().contains(#[trigger] self.submitted_seq()[k]),
            forall|i: int| 0 <= i < self.pvfs_seq().len() && is_submitted(#[trigger] self.pvfs_seq()[i], self.skip_set()) ==> self.submitted_seq().contains(self.pvfs_seq()[i].para_id),
    {
        lemma_submissions_respect_skip(self.pvfs@, self.skip@, self.pvfs@.len());
        assert forall|i: int| 0 <= i < self.pvfs_seq().len() implies (self.skip_set().contains(self.pvfs_seq()[i].para_id) <==> (#[trigger] self.reports_seq()[i]) is Skipped) by {
            assert(report_fits(self.reports@[i], self.pvfs@[i], self.skip@));
        };
        assert forall|i: int| 0 <= i < self.pvfs_seq().len() implies report_para(#[trigger] self.reports_seq()[i]) == self.pvfs_seq()[i].para_id by {
            assert(report_fits(self.reports@[i], self.pvfs@[i], self.skip@));
        };
    }

    /// The reports so far, one per parachain taken up, in set order.
    pub fn reports(&self) -> (r: &Vec<Report>)
        ensures
            r@ == self.reports_seq(),
    {
        &self.reports
    }

    /// The ids handed to the host so far.
    pub fn submitted(&self) -> (r: &Vec<u32>)
        ensures
            r@ == self.submitted_seq(),
    {
        &self.submitted
    }
}

} // verus!
