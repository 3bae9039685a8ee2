use std::collections::HashMap;
use vstd::prelude::*;
use vstd::string::*;

use crate::ids::{current_timestamp, fresh_id, is_v4, utc_stamp};
use crate::project::FIXED_ONE;

verus! {

broadcast use vstd::std_specs::hash::group_hash_axioms;

/// Where a media job stands.
#[derive(Clone, Copy, Debug, PartialEq, Eq, Structural)]
pub enum JobStatus {
    Queued,
    Running,
    Cancelling,
    Completed,
    Failed,
    Cancelled,
}

pub open spec fn status_label(s: JobStatus) -> Seq<char> {
    match s {
        JobStatus::Queued => "queued"@,
        JobStatus::Running => "running"@,
        JobStatus::Cancelling => "cancelling"@,
        JobStatus::Completed => "completed"@,
        JobStatus::Failed => "failed"@,
        JobStatus::Cancelled => "cancelled"@,
    }
}

/// A job that has finished, one way or another.
pub open spec fn is_terminal(s: JobStatus) -> bool {
    s is Completed || s is Failed || s is Cancelled
}

impl JobStatus {
    /// The status as the front end names it.
    pub fn label(&self) -> (s: String)
        ensures
            s@ == status_label(*self),
    {
        match self {
            JobStatus::Queued => String::from_str("queued"),
            JobStatus::Running => String::from_str("running"),
            JobStatus::Cancelling => String::from_str("cancelling"),
            JobStatus::Completed => String::from_str("completed"),
            JobStatus::Failed => String::from_str("failed"),
            JobStatus::Cancelled => String::from_str("cancelled"),
        }
    }
}

/// What the front end sees of a job. `progress` is fixed-point between 0
/// and `FIXED_ONE`; `result` is the job's JSON result as text.
#[derive(Debug)]
pub struct JobRecord {
    pub id: u128,
    pub kind: String,
    pub asset_id: Option<u128>,
    pub status: JobStatus,
    pub progress: i64,
    pub message: String,
    pub created_at: String,
    pub updated_at: String,
    pub result: Option<String>,
    pub error: Option<String>,
}

#[verifier::ext_equal]
pub struct JobRecordView {
    pub id: u128,
    pub kind: Seq<char>,
    pub asset_id: Option<u128>,
    pub status: JobStatus,
    pub progress: i64,
    pub message: Seq<char>,
    pub created_at: Seq<char>,
    pub updated_at: Seq<char>,
    pub result: Option<Seq<char>>,
    pub error: Option<Seq<char>>,
}

pub open spec fn text_view(o: Option<String>) -> Option<Seq<char>> {
    match o {
        Some(s) => Some(s@),
        None => None,
    }
}

impl View for JobRecord {
    type V = JobRecordView;

    open spec fn view(&self) -> JobRecordView {
        JobRecordView {
            id: self.id,
            kind: self.kind@,
            asset_id: self.asset_id,
            status: self.status,
            progress: self.progress,
            message: self.message@,
            created_at: self.created_at@,
            updated_at: self.updated_at@,
            result: text_view(self.result),
            error: text_view(self.error),
        }
    }
}

/// A job with its cancellation request and the process working on it.
#[derive(Debug)]
pub struct JobEntry {
    pub record: JobRecord,
    pub cancelled: bool,
    pub process_id: Option<u32>,
}

#[verifier::ext_equal]
pub struct JobEntryView {
    pub record: JobRecordView,
    pub cancelled: bool,
    pub process_id: Option<u32>,
}

impl View for JobEntry {
    type V = JobEntryView;

    open spec fn view(&self) -> JobEntryView {
        JobEntryView { record: self.record@, cancelled: self.cancelled, process_id: self.process_id }
    }
}

/// The table of media jobs by identifier.
#[derive(Debug)]
pub struct JobManager {
    entries: HashMap<u128, JobEntry>,
}

impl View for JobManager {
    type V = Map<u128, JobEntryView>;

    closed spec fn view(&self) -> Map<u128, JobEntryView> {
        self.entries@.map_values(|e: JobEntry| e@)
    }
}

/// A handle a running job uses to report on itself.
#[derive(Clone, Copy, Debug)]
pub struct JobContext {
    pub id: u128,
}

pub open spec fn queued_entry(id: u128, kind: Seq<char>, asset_id: Option<u128>, now: Seq<char>) -> JobEntryView {
    JobEntryView {
        record: JobRecordView {
            id,
            kind,
            asset_id,
            status: JobStatus::Queued,
            progress: 0,
            message: "Queued"@,
            created_at: now,
            updated_at: now,
            result: None,
            error: None,
        },
        cancelled: false,
        process_id: None,
    }
}

pub open spec fn stamped(e: JobEntryView, now: Seq<char>) -> JobEntryView {
    JobEntryView { record: JobRecordView { updated_at: now, ..e.record }, ..e }
}

/// A cancellation request: a job not yet finished is flagged and shown as
/// cancelling; a finished one is left as it is.
pub open spec fn cancel_entry(e: JobEntryView, now: Seq<char>) -> JobEntryView {
    if is_terminal(e.record.status) {
        e
    } else {
        JobEntryView {
            record: JobRecordView { status: JobStatus::Cancelling, message: "Cancelling…"@, updated_at: now, ..e.record },
            cancelled: true,
            ..e
        }
    }
}

pub open spec fn clamp_progress(p: i64) -> i64 {
    if p < 0 {
        0
    } else if p > FIXED_ONE {
        FIXED_ONE
    } else {
        p
    }
}

pub open spec fn running_entry(e: JobEntryView, message: Seq<char>, progress: i64, now: Seq<char>) -> JobEntryView {
    JobEntryView {
        record: JobRecordView { status: JobStatus::Running, message, progress: clamp_progress(progress), updated_at: now, ..e.record },
        ..e
    }
}

pub open spec fn process_entry(e: JobEntryView, pid: Option<u32>, now: Seq<char>) -> JobEntryView {
    JobEntryView { process_id: pid, ..stamped(e, now) }
}

pub open spec fn completed_entry(e: JobEntryView, result: Seq<char>, now: Seq<char>) -> JobEntryView {
    JobEntryView {
        record: JobRecordView {
            status: JobStatus::Completed,
            progress: FIXED_ONE,
            message: "Complete"@,
            result: Some(result),
            updated_at: now,
            ..e.record
        },
        process_id: None,
        ..e
    }
}

pub open spec fn failed_entry(e: JobEntryView, error: Seq<char>, now: Seq<char>) -> JobEntryView {
    JobEntryView {
        record: JobRecordView { status: JobStatus::Failed, message: "Failed"@, error: Some(error), updated_at: now, ..e.record },
        process_id: None,
        ..e
    }
}

pub open spec fn cancelled_entry(e: JobEntryView, now: Seq<char>) -> JobEntryView {
    JobEntryView {
        record: JobRecordView { status: JobStatus::Cancelled, message: "Cancelled"@, updated_at: now, ..e.record },
        process_id: None,
        ..e
    }
}

fn copy_text(o: &Option<String>) -> (r: Option<String>)
    ensures
        text_view(r) == text_view(*o),
{
    match o {
        Some(s) => Some(s.clone()),
        None => None,
    }
}

impl JobRecord {
    /// A copy of the record.
    pub fn copy(&self) -> (r: JobRecord)
        ensures
            r@ == self@,
    {
        JobRecord {
            id: self.id,
            kind: self.kind.clone(),
            asset_id: self.asset_id,
            status: self.status,
            progress: self.progress,
            message: self.message.clone(),
            created_at: self.created_at.clone(),
            updated_at: self.updated_at.clone(),
            result: copy_text(&self.result),
            error: copy_text(&self.error),
        }
    }
}

/// How one update changes an entry.
pub enum JobUpdate {
    Running(String, i64),
    Process(Option<u32>),
    Complete(String),
    Fail(String),
    FinishCancelled,
}

pub open spec fn updated_entry(e: JobEntryView, u: JobUpdate, now: Seq<char>) -> JobEntryView {
    match u {
        JobUpdate::Running(m, p) => running_entry(e, m@, p, now),
        JobUpdate::Process(pid) => process_entry(e, pid, now),
        JobUpdate::Complete(r) => completed_entry(e, r@, now),
        JobUpdate::Fail(x) => failed_entry(e, x@, now),
        JobUpdate::FinishCancelled => cancelled_entry(e, now),
    }
}

impl JobManager {
    /// An empty table.
    pub fn new() -> (m: JobManager)
        ensures
            m@ == Map::<u128, JobEntryView>::empty(),
    {
        let m = JobManager { entries: HashMap::new() };
        assert(m@ =~= Map::<u128, JobEntryView>::empty());
        m
    }

    /// Registers a queued job with the given identifier and creation time;
    /// the identifier must be new to the table.
    pub fn create_with(&mut self, id: u128, kind: String, asset_id: Option<u128>, now: String) -> (r: (JobRecord, JobContext))
        requires
            !old(self)@.contains_key(id),
        ensures
            final(self)@ == old(self)@.insert(id, queued_entry(id, kind@, asset_id, now@)),
            flags_kept(old(self)@, final(self)@),
            r.0@ == queued_entry(id, kind@, asset_id, now@).record,
            r.1.id == id,
    {
        let record = JobRecord {
            id,
            kind,
            asset_id,
            status: JobStatus::Queued,
            progress: 0,
            message: String::from_str("Queued"),
            created_at: now.clone(),
            updated_at: now,
            result: None,
            error: None,
        };
        let copy = record.copy();
        self.entries.insert(id, JobEntry { record: copy, cancelled: false, process_id: None });
        assert(self@ =~= old(self)@.insert(id, queued_entry(id, kind@, asset_id, now@)));
        proof {
            lemma_cancel_flag_sticks(old(self)@, id, JobUpdate::FinishCancelled, now@, kind@, asset_id);
        }
        (record, JobContext { id })
    }

    /// Registers a new queued job of the given kind, with a fresh random
    /// identifier, now. An identifier the table already holds is never
    /// reused: should the draw hit one, the job is refused and the table
    /// left as it is.
    pub fn create(&mut self, kind: String, asset_id: Option<u128>) -> (r: Result<(JobRecord, JobContext), String>)
        ensures
            flags_kept(old(self)@, final(self)@),
            match r {
                Ok((rec, ctx)) => {
                    &&& is_v4(ctx.id)
                    &&& !old(self)@.contains_key(ctx.id)
                    &&& exists|now: Seq<char>| {
                        &&& utc_stamp(now)
                        &&& final(self)@ == old(self)@.insert(ctx.id, queued_entry(ctx.id, kind@, asset_id, now))
                        &&& rec@ == queued_entry(ctx.id, kind@, asset_id, now).record
                    }
                },
                Err(m) => {
                    &&& m@ == "job identifier already in use"@
                    &&& final(self)@ == old(self)@
                    &&& exists|id: u128| is_v4(id) && old(self)@.contains_key(id)
                },
            },
    {
        let id = fresh_id();
        if self.entries.contains_key(&id) {
            assert(self@.contains_key(id));
            return Err(String::from_str("job identifier already in use"));
        }
        let now = current_timestamp();
        let ghost now_view = now@;
        let r = self.create_with(id, kind, asset_id, now);
        assert(final(self)@ == old(self)@.insert(r.1.id, queued_entry(r.1.id, kind@, asset_id, now_view)));
        Ok(r)
    }

    /// The job's record, if there is such a job.
    pub fn get(&self, id: u128) -> (r: Option<JobRecord>)
        ensures
            match r {
                Some(rec) => self@.contains_key(id) && rec@ == self@[id].record,
                None => !self@.contains_key(id),
            },
    {
        match self.entries.get(&id) {
            Some(e) => Some(e.record.copy()),
            None => None,
        }
    }

    /// Whether cancellation of the job was requested.
    pub fn is_cancelled(&self, id: u128) -> (r: bool)
        ensures
            r == (self@.contains_key(id) && self@[id].cancelled),
    {
        match self.entries.get(&id) {
            Some(e) => e.cancelled,
            None => false,
        }
    }

    /// Requests cancellation of a job: a finished job is returned as it is;
    /// otherwise it is flagged and marked cancelling, and the process
    /// working on it, if any, is returned for the caller to terminate.
    pub fn cancel(&mut self, id: u128) -> (r: Result<(JobRecord, Option<u32>), String>)
        ensures
            flags_kept(old(self)@, final(self)@),
            !old(self)@.contains_key(id) ==> (r matches Err(m) && m@ == "job does not exist"@ && final(self)@ == old(self)@),
            old(self)@.contains_key(id) && is_terminal(old(self)@[id].record.status) ==> (r matches Ok((rec, pid))
                && rec@ == old(self)@[id].record && pid is None && final(self)@ == old(self)@),
            old(self)@.contains_key(id) && !is_terminal(old(self)@[id].record.status) ==> (r matches Ok((rec, pid))
                && pid == old(self)@[id].process_id
                && exists|now: Seq<char>| {
                    &&& final(self)@ == old(self)@.insert(id, cancel_entry(old(self)@[id], now))
                    &&& rec@ == cancel_entry(old(self)@[id], now).record
                }),
    {
        let ghost before = self@;
        let mut e = match self.entries.remove(&id) {
            Some(e) => e,
            None => {
                assert(self@ =~= before);
                return Err(String::from_str("job does not exist"));
            },
        };
        assert(e@ == before[id]);
        let st = e.record.status;
        if st == JobStatus::Completed || st == JobStatus::Failed || st == JobStatus::Cancelled {
            let rec = e.record.copy();
            self.entries.insert(id, e);
            assert(self@ =~= before);
            return Ok((rec, None));
        }
        let now = current_timestamp();
        let ghost now_view = now@;
        e.cancelled = true;
        e.record.status = JobStatus::Cancelling;
        e.record.message = String::from_str("Cancelling…");
        e.record.updated_at = now;
        assert(e@ =~= cancel_entry(before[id], now_view));
        let pid = e.process_id;
        let rec = e.record.copy();
        self.entries.insert(id, e);
        assert(self@ =~= before.insert(id, cancel_entry(before[id], now_view)));
        proof {
            lemma_cancel_flag_sticks(before, id, JobUpdate::FinishCancelled, now_view, Seq::empty(), None);
        }
        Ok((rec, pid))
    }

    /// Applies an update to a job, stamped now; returns the updated record,
    /// or nothing when there is no such job.
    pub fn update(&mut self, id: u128, u: JobUpdate) -> (r: Option<JobRecord>)
        ensures
            flags_kept(old(self)@, final(self)@),
            !old(self)@.contains_key(id) ==> r is None && final(self)@ == old(self)@,
            old(self)@.contains_key(id) ==> (r matches Some(rec) && exists|now: Seq<char>| {
                &&& final(self)@ == old(self)@.insert(id, updated_entry(old(self)@[id], u, now))
                &&& rec@ == updated_entry(old(self)@[id], u, now).record
            }),
    {
        let ghost before = self@;
        let ghost uu = u;
        let mut e = match self.entries.remove(&id) {
            Some(e) => e,
            None => {
                assert(self@ =~= before);
                return None;
            },
        };
        assert(e@ == before[id]);
        let now = current_timestamp();
        let ghost now_view = now@;
        match u {
            JobUpdate::Running(message, progress) => {
                e.record.status = JobStatus::Running;
                e.record.message = message;
                e.record.progress = if progress < 0 {
                    0
                } else if progress > FIXED_ONE {
                    FIXED_ONE
                } else {
                    progress
                };
            },
            JobUpdate::Process(pid) => {
                e.process_id = pid;
            },
            JobUpdate::Complete(result) => {
                e.process_id = None;
                e.record.status = JobStatus::Completed;
                e.record.progress = FIXED_ONE;
                e.record.message = String::from_str("Complete");
                e.record.result = Some(result);
            },
            JobUpdate::Fail(error) => {
                e.process_id = None;
                e.record.status = JobStatus::Failed;
                e.record.message = String::from_str("Failed");
                e.record.error = Some(error);
            },
            JobUpdate::FinishCancelled => {
                e.process_id = None;
                e.record.status = JobStatus::Cancelled;
                e.record.message = String::from_str("Cancelled");
            },
        }
        e.record.updated_at = now;
        assert(e@ =~= updated_entry(before[id], uu, now_view));
        let rec = e.record.copy();
        self.entries.insert(id, e);
        assert(self@ =~= before.insert(id, updated_entry(before[id], uu, now_view)));
        proof {
            lemma_cancel_flag_sticks(before, id, uu, now_view, Seq::empty(), None);
        }
        Some(rec)
    }
}

impl JobContext {
    /// Whether cancellation of this job was requested.
    pub fn is_cancelled(&self, jobs: &JobManager) -> (r: bool)
        ensures
            r == (jobs@.contains_key(self.id) && jobs@[self.id].cancelled),
    {
        jobs.is_cancelled(self.id)
    }

    /// Reports progress (clamped to 0..=`FIXED_ONE`) with a message.
    pub fn running(&self, jobs: &mut JobManager, message: String, progress: i64) -> (r: Option<JobRecord>)
        ensures
            flags_kept(old(jobs)@, final(jobs)@),
            !old(jobs)@.contains_key(self.id) ==> r is None && final(jobs)@ == old(jobs)@,
            old(jobs)@.contains_key(self.id) ==> (r matches Some(rec) && exists|now: Seq<char>| {
                &&& final(jobs)@ == old(jobs)@.insert(self.id, running_entry(old(jobs)@[self.id], message@, progress, now))
                &&& rec@ == running_entry(old(jobs)@[self.id], message@, progress, now).record
            }),
    {
        jobs.update(self.id, JobUpdate::Running(message, progress))
    }

    /// Records the process working on the job, or that none is.
    pub fn register_process(&self, jobs: &mut JobManager, process_id: Option<u32>) -> (r: Option<JobRecord>)
        ensures
            flags_kept(old(jobs)@, final(jobs)@),
            !old(jobs)@.contains_key(self.id) ==> r is None && final(jobs)@ == old(jobs)@,
            old(jobs)@.contains_key(self.id) ==> (r matches Some(rec) && exists|now: Seq<char>| {
                &&& final(jobs)@ == old(jobs)@.insert(self.id, process_entry(old(jobs)@[self.id], process_id, now))
                &&& rec@ == process_entry(old(jobs)@[self.id], process_id, now).record
            }),
    {
        jobs.update(self.id, JobUpdate::Process(process_id))
    }

    /// Marks the job completed with its JSON result.
    pub fn complete(&self, jobs: &mut JobManager, result: String) -> (r: Option<JobRecord>)
        ensures
            flags_kept(old(jobs)@, final(jobs)@),
            !old(jobs)@.contains_key(self.id) ==> r is None && final(jobs)@ == old(jobs)@,
            old(jobs)@.contains_key(self.id) ==> (r matches Some(rec) && exists|now: Seq<char>| {
                &&& final(jobs)@ == old(jobs)@.insert(self.id, completed_entry(old(jobs)@[self.id], result@, now))
                &&& rec@ == completed_entry(old(jobs)@[self.id], result@, now).record
            }),
    {
        jobs.update(self.id, JobUpdate::Complete(result))
    }

    /// Marks the job failed with an error message.
    pub fn fail(&self, jobs: &mut JobManager, error: String) -> (r: Option<JobRecord>)
        ensures
            flags_kept(old(jobs)@, final(jobs)@),
            !old(jobs)@.contains_key(self.id) ==> r is None && final(jobs)@ == old(jobs)@,
            old(jobs)@.contains_key(self.id) ==> (r matches Some(rec) && exists|now: Seq<char>| {
                &&& final(jobs)@ == old(jobs)@.insert(self.id, failed_entry(old(jobs)@[self.id], error@, now))
                &&& rec@ == failed_entry(old(jobs)@[self.id], error@, now).record
            }),
    {
        jobs.update(self.id, JobUpdate::Fail(error))
    }

    /// Marks the job cancelled.
    pub fn finish_cancelled(&self, jobs: &mut JobManager) -> (r: Option<JobRecord>)
        ensures
            flags_kept(old(jobs)@, final(jobs)@),
            !old(jobs)@.contains_key(self.id) ==> r is None && final(jobs)@ == old(jobs)@,
            old(jobs)@.contains_key(self.id) ==> (r matches Some(rec) && exists|now: Seq<char>| {
                &&& final(jobs)@ == old(jobs)@.insert(self.id, cancelled_entry(old(jobs)@[self.id], now))
                &&& rec@ == cancelled_entry(old(jobs)@[self.id], now).record
            }),
    {
        jobs.update(self.id, JobUpdate::FinishCancelled)
    }
}

/// Once a job has finished, a cancellation request changes nothing; a job
/// not yet finished is flagged by it, and finishing the cancellation leaves
/// it finished and still flagged. Reported progress always lies between
/// none and all.
pub proof fn lemma_cancellation(e: JobEntryView, message: Seq<char>, progress: i64, n1: Seq<char>, n2: Seq<char>, n3: Seq<char>)
    ensures
        is_terminal(e.record.status) ==> cancel_entry(e, n1) == e,
        !is_terminal(e.record.status) ==> cancel_entry(e, n1).cancelled && cancel_entry(e, n1).record.status is Cancelling,
        is_terminal(cancelled_entry(e, n2).record.status),
        cancel_entry(cancelled_entry(cancel_entry(e, n1), n2), n3) == cancelled_entry(cancel_entry(e, n1), n2),
        cancel_entry(e, n1).cancelled ==> cancelled_entry(cancel_entry(e, n1), n2).cancelled,
        0 <= running_entry(e, message, progress, n1).record.progress <= FIXED_ONE,
{
}

/// Every job flagged for cancellation in `before` is still there, and
/// still flagged, in `after`.
pub open spec fn flags_kept(before: Map<u128, JobEntryView>, after: Map<u128, JobEntryView>) -> bool {
    forall|k: u128| #[trigger] before.contains_key(k) && before[k].cancelled ==> after.contains_key(k) && after[k].cancelled
}

/// Once a job is flagged for cancellation, no change the table makes clears
/// the flag: no update of any kind, no further cancellation request, and no
/// registration of a job, which only ever takes an identifier the table does
/// not hold yet. Every method that changes the table states `flags_kept`
/// from this; every context of the job, copies included, reads that flag.
pub proof fn lemma_cancel_flag_sticks(
    m: Map<u128, JobEntryView>,
    id: u128,
    u: JobUpdate,
    now: Seq<char>,
    kind: Seq<char>,
    asset_id: Option<u128>,
)
    ensures
        m.contains_key(id) ==> flags_kept(m, m.insert(id, updated_entry(m[id], u, now))),
        m.contains_key(id) ==> flags_kept(m, m.insert(id, cancel_entry(m[id], now))),
        !m.contains_key(id) ==> flags_kept(m, m.insert(id, queued_entry(id, kind, asset_id, now))),
        flags_kept(m, m),
{
}

/// Keeping the flags composes: over any run of calls on the table, each of
/// which keeps them, a job flagged at the start is still flagged at the end,
/// so its contexts keep reading it as cancelled.
pub proof fn lemma_flags_kept_across_calls(states: Seq<Map<u128, JobEntryView>>, id: u128)
    requires
        states.len() > 0,
        forall|i: int| 0 <= i < states.len() - 1 ==> flags_kept(#[trigger] states[i], states[i + 1]),
        states[0].contains_key(id) && states[0][id].cancelled,
    ensures
        states.last().contains_key(id) && states.last()[id].cancelled,
    decreases states.len(),
{
    if states.len() > 1 {
        let rest = states.drop_last();
        assert forall|i: int| 0 <= i < rest.len() - 1 implies flags_kept(#[trigger] rest[i], rest[i + 1]) by {
            assert(rest[i] == states[i] && rest[i + 1] == states[i + 1]);
        }
        lemma_flags_kept_across_calls(rest, id);
        assert(flags_kept(states[states.len() - 2], states[states.len() - 1]));
    }
}

/// A job's cancellation flag is clear when the job is registered, and only
/// a cancellation request on an unfinished job sets it: no update of any
/// kind changes it, and a request on a finished job leaves it as it was.
pub proof fn lemma_flag_set_only_by_cancel(
    e: JobEntryView,
    u: JobUpdate,
    now: Seq<char>,
    id: u128,
    kind: Seq<char>,
    asset_id: Option<u128>,
)
    ensures
        !queued_entry(id, kind, asset_id, now).cancelled,
        updated_entry(e, u, now).cancelled == e.cancelled,
        cancel_entry(e, now).cancelled == (e.cancelled || !is_terminal(e.record.status)),
{
}

} // verus!
