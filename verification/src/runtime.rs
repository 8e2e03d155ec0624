//! Runtime bookkeeping: managed-runtime states and diagnoses, runtime
//! errors, and the book of model download jobs with its rules (one active
//! download per model, recovery after a restart, progress and outcomes).

use crate::order::{lemma_text_lt_total, lemma_text_lt_transitive, text_less, text_lt};
use crate::platform::{fresh_id, uuid_hyphenated, uuid_text};
use crate::text::{concat2, owned, str_eq};
use crate::types::{ModelDownloadProgress, ModelDownloadState, ModelId, ProviderId, RuntimeJobId};
use vstd::prelude::*;

verus! {

#[derive(Debug, Clone, Copy, PartialEq, Eq, Structural)]
pub enum ManagedRuntimeState {
    Initializing,
    Ready,
    Stopped,
    Degraded,
    Error,
    RepairRequired,
}

/// A finding about a managed runtime.
#[derive(Debug, Clone, PartialEq, Eq)]
pub struct RuntimeDiagnosis {
    pub code: String,
    pub summary: String,
    pub detail: String,
    pub repairable: bool,
    pub destructive: bool,
}

#[derive(Debug, Clone, PartialEq, Eq)]
pub enum RuntimeError {
    Unavailable(String),
    InvalidRequest(String),
    Cancelled,
    Failed(String),
}

pub open spec fn runtime_error_text(e: RuntimeError) -> Seq<char> {
    match e {
        RuntimeError::Unavailable(m) => "runtime is unavailable: "@ + m@,
        RuntimeError::InvalidRequest(m) => "runtime request is invalid: "@ + m@,
        RuntimeError::Cancelled => "runtime operation was cancelled"@,
        RuntimeError::Failed(m) => "runtime operation failed: "@ + m@,
    }
}

impl RuntimeError {
    /// The message this error displays.
    pub fn to_text(&self) -> (r: String)
        ensures
            r@ == runtime_error_text(*self),
    {
        match self {
            RuntimeError::Unavailable(m) => concat2("runtime is unavailable: ", m.as_str()),
            RuntimeError::InvalidRequest(m) => concat2("runtime request is invalid: ", m.as_str()),
            RuntimeError::Cancelled => owned("runtime operation was cancelled"),
            RuntimeError::Failed(m) => concat2("runtime operation failed: ", m.as_str()),
        }
    }
}

/// A diagnosis with a readable summary of its code (each '_' read as a
/// space) and a redacted detail.
pub fn diagnosis(code: &str, detail: &str, repairable: bool, destructive: bool) -> (d: RuntimeDiagnosis)
    ensures
        d.code@ == code@,
        d.summary@ == crate::text::replace_char_seq(code@, '_', ' '),
        d.detail@ == crate::postgres_runtime::redacted(detail@),
        d.repairable == repairable,
        d.destructive == destructive,
{
    RuntimeDiagnosis {
        code: owned(code),
        summary: crate::text::replace_char(code, '_', ' '),
        detail: crate::postgres_runtime::redact_error(detail),
        repairable,
        destructive,
    }
}

/// A missing runtime is unavailable; every other failure is a failed operation.
pub fn to_runtime_error(e: crate::postgres_runtime::ManagedPostgresError) -> (r: RuntimeError)
    ensures
        match e {
            crate::postgres_runtime::ManagedPostgresError::RuntimeMissing(m) => r
                == RuntimeError::Unavailable(m),
            _ => r matches RuntimeError::Failed(m) && m@
                == crate::postgres_runtime::postgres_error_text(e),
        },
{
    match e {
        crate::postgres_runtime::ManagedPostgresError::RuntimeMissing(m) => RuntimeError::Unavailable(m),
        other => RuntimeError::Failed(other.to_text()),
    }
}

/// One model download.
#[derive(Debug, Clone, PartialEq, Eq)]
pub struct ModelDownloadJob {
    pub id: RuntimeJobId,
    pub provider_id: ProviderId,
    pub model_id: ModelId,
    pub state: ModelDownloadState,
    pub status: String,
    pub completed_bytes: u64,
    pub total_bytes: Option<u64>,
    pub error_message: Option<String>,
    pub created_at: crate::developer::Timestamp,
    pub updated_at: crate::developer::Timestamp,
}

/// Queued, running and cancelling downloads are active.
pub open spec fn is_active(s: ModelDownloadState) -> bool {
    s == ModelDownloadState::Queued || s == ModelDownloadState::Running || s
        == ModelDownloadState::Cancelling
}

pub fn active_state(s: ModelDownloadState) -> (b: bool)
    ensures
        b == is_active(s),
{
    s == ModelDownloadState::Queued || s == ModelDownloadState::Running || s
        == ModelDownloadState::Cancelling
}

/// The schema of the persisted job document.
pub const JOB_SCHEMA_VERSION: u32 = 1;

/// A job document of another schema is refused.
pub fn check_job_schema(version: u32) -> (r: Result<(), RuntimeError>)
    ensures
        r is Ok <==> version == JOB_SCHEMA_VERSION,
        r matches Err(e) ==> e matches RuntimeError::Failed(m) && m@
            == "unsupported runtime job schema "@ + crate::numtext::dec(version as nat),
{
    if version != JOB_SCHEMA_VERSION {
        return Err(
            RuntimeError::Failed(
                concat2(
                    "unsupported runtime job schema ",
                    crate::numtext::u64_text(version as u64).as_str(),
                ),
            ),
        );
    }
    Ok(())
}

/// `t` is job `j` after a restart at `now`: an active download is marked
/// interrupted; any other job is kept.
pub open spec fn job_recovered(j: ModelDownloadJob, t: ModelDownloadJob, now: crate::developer::Timestamp) -> bool {
    if is_active(j.state) {
        t == ModelDownloadJob {
            state: ModelDownloadState::Interrupted,
            status: t.status,
            updated_at: now,
            ..j
        } && t.status@ == "application_restarted"@
    } else {
        t == j
    }
}

fn copy_job(j: &ModelDownloadJob) -> (r: ModelDownloadJob)
    ensures
        r == *j,
{
    ModelDownloadJob {
        id: j.id.clone(),
        provider_id: j.provider_id.clone(),
        model_id: j.model_id.clone(),
        state: j.state,
        status: j.status.clone(),
        completed_bytes: j.completed_bytes,
        total_bytes: j.total_bytes,
        error_message: crate::relay::copy_opt_string(&j.error_message),
        created_at: j.created_at,
        updated_at: j.updated_at,
    }
}

/// The download jobs, by identifier (each at most once).
pub struct DownloadBook {
    pub jobs: Vec<ModelDownloadJob>,
}

pub open spec fn job_has(id: Seq<char>) -> spec_fn(ModelDownloadJob) -> bool {
    |j: ModelDownloadJob| j.id@ == id
}

pub open spec fn job_pos(s: Seq<ModelDownloadJob>, id: Seq<char>) -> int {
    crate::seqs::first_pos(s, job_has(id))
}

/// Some download of this model on this runtime is active.
pub open spec fn has_active_download(s: Seq<ModelDownloadJob>, provider: Seq<char>, model: Seq<char>) -> bool {
    exists|i: int|
        0 <= i < s.len() && (#[trigger] s[i]).provider_id@ == provider && s[i].model_id@ == model
            && is_active(s[i].state)
}

/// Whether job `a` is listed before job `b`: it was created later, or at
/// the same instant under a smaller identifier.
pub open spec fn listed_before(a: ModelDownloadJob, b: ModelDownloadJob) -> bool {
    a.created_at > b.created_at || (a.created_at == b.created_at && text_lt(a.id@, b.id@))
}

fn listed_first(a: &ModelDownloadJob, b: &ModelDownloadJob) -> (r: bool)
    ensures
        r == listed_before(*a, *b),
{
    a.created_at > b.created_at || (a.created_at == b.created_at && text_less(a.id.as_str(), b.id.as_str()))
}

proof fn lemma_listed_before_order(a: ModelDownloadJob, b: ModelDownloadJob, c: ModelDownloadJob)
    ensures
        !(listed_before(a, b) && listed_before(b, a)),
        listed_before(a, b) && listed_before(b, c) ==> listed_before(a, c),
{
    lemma_text_lt_total(a.id@, b.id@);
    if listed_before(a, b) && listed_before(b, c) && a.created_at == b.created_at && b.created_at == c.created_at {
        lemma_text_lt_transitive(a.id@, b.id@, c.id@);
    }
}

/// Inserting `c` where every earlier job does not follow it, and the next
/// job (if any) does follow it, keeps a listing in order.
proof fn lemma_insert_keeps_listing(s: Seq<ModelDownloadJob>, c: ModelDownloadJob, p: int)
    requires
        0 <= p <= s.len(),
        forall|a: int, b: int| 0 <= a < b < s.len() ==> !listed_before(#[trigger] s[b], #[trigger] s[a]),
        forall|a: int| 0 <= a < p ==> !listed_before(c, #[trigger] s[a]),
        p < s.len() ==> listed_before(c, s[p]),
    ensures
        forall|a: int, b: int|
            0 <= a < b < s.insert(p, c).len() ==> !listed_before(
                #[trigger] s.insert(p, c)[b],
                #[trigger] s.insert(p, c)[a],
            ),
{
    let t = s.insert(p, c);
    assert forall|a: int, b: int| 0 <= a < b < t.len() implies !listed_before(#[trigger] t[b], #[trigger] t[a]) by {
        if b == p {
            assert(t[a] == s[a]);
        } else if a == p {
            assert(t[b] == s[b - 1]);
            if b - 1 > p {
                lemma_listed_before_order(s[b - 1], c, s[p]);
                lemma_listed_before_order(s[b - 1], s[p], s[p]);
            } else {
                lemma_listed_before_order(c, s[p], s[p]);
            }
        } else {
            let sa = if a < p { a } else { a - 1 };
            let sb = if b < p { b } else { b - 1 };
            assert(t[a] == s[sa]);
            assert(t[b] == s[sb]);
        }
    }
}

impl DownloadBook {
    /// The jobs read back after the application restarted at `now`: every
    /// download that was still active is interrupted.
    pub fn recovered(jobs: Vec<ModelDownloadJob>, now: crate::developer::Timestamp) -> (b: DownloadBook)
        ensures
            b.jobs@.len() == jobs@.len(),
            forall|i: int| 0 <= i < jobs@.len() ==> job_recovered(jobs@[i], #[trigger] b.jobs@[i], now),
    {
        let ghost all = jobs@;
        let n = jobs.len();
        let mut rest = jobs;
        let mut out: Vec<ModelDownloadJob> = Vec::new();
        let mut i: usize = 0;
        while i < n
            invariant
                i <= n == all.len(),
                rest@ == all.subrange(i as int, n as int),
                out@.len() == i,
                forall|k: int| 0 <= k < i ==> job_recovered(all[k], #[trigger] out@[k], now),
            decreases n - i,
        {
            let mut j = rest.remove(0);
            assert(j == all[i as int]);
            assert(rest@ =~= all.subrange(i + 1, n as int));
            if active_state(j.state) {
                j.state = ModelDownloadState::Interrupted;
                j.status = owned("application_restarted");
                j.updated_at = now;
            }
            out.push(j);
            i += 1;
        }
        DownloadBook { jobs: out }
    }

    fn find(&self, id: &RuntimeJobId) -> (r: Option<usize>)
        ensures
            match r {
                Some(i) => i < self.jobs@.len() && i as int == job_pos(self.jobs@, id@)
                    && self.jobs@[i as int].id@ == id@,
                None => job_pos(self.jobs@, id@) < 0,
            },
    {
        let ghost p = job_has(id@);
        let mut i: usize = 0;
        while i < self.jobs.len()
            invariant
                i <= self.jobs@.len(),
                p == job_has(id@),
                forall|j: int| 0 <= j < i ==> !p(#[trigger] self.jobs@[j]),
            decreases self.jobs.len() - i,
        {
            if str_eq(self.jobs[i].id.as_str(), id.as_str()) {
                proof {
                    crate::seqs::lemma_first_pos_is(self.jobs@, p, i as int);
                }
                return Some(i);
            }
            i += 1;
        }
        proof {
            crate::seqs::lemma_first_pos_is(self.jobs@, p, -1);
        }
        None
    }

    /// Opens a download of `model_id` on `provider_id` at `now` under job
    /// `id`, unless one is already active for that model.
    pub fn start_at(
        &mut self,
        provider_id: ProviderId,
        model_id: ModelId,
        id: RuntimeJobId,
        now: crate::developer::Timestamp,
    ) -> (r: Result<ModelDownloadJob, RuntimeError>)
        ensures
            has_active_download(old(self).jobs@, provider_id@, model_id@) ==> (r matches Err(e)
                && e matches RuntimeError::InvalidRequest(m) && m@
                == "a download for this model is already active"@ && final(self).jobs@ == old(
                self,
            ).jobs@),
            !has_active_download(old(self).jobs@, provider_id@, model_id@) ==> (r matches Ok(j) && {
                &&& j.id == id
                &&& j.provider_id == provider_id && j.model_id == model_id
                &&& j.state == ModelDownloadState::Queued && j.status@ == "queued"@
                &&& j.completed_bytes == 0 && j.total_bytes is None && j.error_message is None
                &&& j.created_at == now && j.updated_at == now
                &&& final(self).jobs@ == old(self).jobs@.push(j)
            }),
    {
        let mut i: usize = 0;
        while i < self.jobs.len()
            invariant
                i <= self.jobs@.len(),
                forall|k: int|
                    0 <= k < i ==> !((#[trigger] self.jobs@[k]).provider_id@ == provider_id@
                        && self.jobs@[k].model_id@ == model_id@ && is_active(self.jobs@[k].state)),
            decreases self.jobs.len() - i,
        {
            let j = &self.jobs[i];
            if str_eq(j.provider_id.as_str(), provider_id.as_str()) && str_eq(
                j.model_id.as_str(),
                model_id.as_str(),
            ) && active_state(j.state) {
                return Err(
                    RuntimeError::InvalidRequest(owned("a download for this model is already active")),
                );
            }
            i += 1;
        }
        let job = ModelDownloadJob {
            id,
            provider_id,
            model_id,
            state: ModelDownloadState::Queued,
            status: owned("queued"),
            completed_bytes: 0,
            total_bytes: None,
            error_message: None,
            created_at: now,
            updated_at: now,
        };
        let copy = copy_job(&job);
        self.jobs.push(job);
        Ok(copy)
    }

    /// Whether a download of `model_id` on `provider_id` is active.
    pub fn has_active(&self, provider_id: &ProviderId, model_id: &ModelId) -> (b: bool)
        ensures
            b == has_active_download(self.jobs@, provider_id@, model_id@),
    {
        let mut i: usize = 0;
        while i < self.jobs.len()
            invariant
                i <= self.jobs@.len(),
                forall|k: int|
                    0 <= k < i ==> !((#[trigger] self.jobs@[k]).provider_id@ == provider_id@
                        && self.jobs@[k].model_id@ == model_id@ && is_active(self.jobs@[k].state)),
            decreases self.jobs.len() - i,
        {
            let j = &self.jobs[i];
            if str_eq(j.provider_id.as_str(), provider_id.as_str()) && str_eq(
                j.model_id.as_str(),
                model_id.as_str(),
            ) && active_state(j.state) {
                return true;
            }
            i += 1;
        }
        false
    }

    /// Opens a download of `model_id` on `provider_id` at `now` under a
    /// fresh job id, `runtime-job:` and a random UUID, unless one is already
    /// active for that model.
    pub fn start(&mut self, provider_id: ProviderId, model_id: ModelId, now: crate::developer::Timestamp) -> (r:
        Result<ModelDownloadJob, RuntimeError>)
        ensures
            has_active_download(old(self).jobs@, provider_id@, model_id@) ==> (r matches Err(e)
                && e matches RuntimeError::InvalidRequest(m) && m@
                == "a download for this model is already active"@ && final(self).jobs@ == old(
                self,
            ).jobs@),
            !has_active_download(old(self).jobs@, provider_id@, model_id@) ==> (r matches Err(e)
                && e matches RuntimeError::Unavailable(m) && m@ == crate::platform::RANDOM_UNAVAILABLE@
                && final(self).jobs@ == old(self).jobs@) || (r matches Ok(j) && {
                &&& exists|v: u128| j.id@ == "runtime-job:"@ + uuid_hyphenated(v)
                &&& j.provider_id == provider_id && j.model_id == model_id
                &&& j.state == ModelDownloadState::Queued && j.status@ == "queued"@
                &&& j.completed_bytes == 0 && j.total_bytes is None && j.error_message is None
                &&& j.created_at == now && j.updated_at == now
                &&& final(self).jobs@ == old(self).jobs@.push(j)
            }),
    {
        if self.has_active(&provider_id, &model_id) {
            return Err(RuntimeError::InvalidRequest(owned("a download for this model is already active")));
        }
        let v = match fresh_id() {
            Some(x) => x,
            None => {
                return Err(RuntimeError::Unavailable(owned(crate::platform::RANDOM_UNAVAILABLE)));
            },
        };
        let text = concat2("runtime-job:", uuid_text(v).as_str());
        proof {
            reveal_strlit("runtime-job:");
            assert(text@[0] == 'r');
            assert(!crate::text::is_ws(text@[0]));
        }
        let id = RuntimeJobId::new(text.as_str()).unwrap();
        self.start_at(provider_id, model_id, id, now)
    }

    /// The jobs, newest first; jobs created at the same instant come in
    /// identifier order.
    pub fn list(&self) -> (r: Vec<ModelDownloadJob>)
        ensures
            r@.to_multiset() == self.jobs@.to_multiset(),
            forall|a: int, b: int| 0 <= a < b < r@.len() ==> !listed_before(#[trigger] r@[b], #[trigger] r@[a]),
    {
        let mut out: Vec<ModelDownloadJob> = Vec::new();
        let mut i: usize = 0;
        assert(out@ =~= self.jobs@.take(0));
        while i < self.jobs.len()
            invariant
                i <= self.jobs@.len(),
                out@.to_multiset() == self.jobs@.take(i as int).to_multiset(),
                forall|a: int, b: int| 0 <= a < b < out@.len() ==> !listed_before(#[trigger] out@[b], #[trigger] out@[a]),
            decreases self.jobs.len() - i,
        {
            let c = copy_job(&self.jobs[i]);
            let mut p: usize = 0;
            while p < out.len() && !listed_first(&c, &out[p])
                invariant
                    p <= out@.len(),
                    forall|a: int| 0 <= a < p ==> !listed_before(c, #[trigger] out@[a]),
                decreases out.len() - p,
            {
                p += 1;
            }
            proof {
                lemma_insert_keeps_listing(out@, c, p as int);
                vstd::seq_lib::to_multiset_insert(out@, p as int, c);
                vstd::seq_lib::to_multiset_build(self.jobs@.take(i as int), c);
                assert(self.jobs@.take(i + 1) =~= self.jobs@.take(i as int).push(c));
            }
            out.insert(p, c);
            i += 1;
        }
        assert(self.jobs@.take(self.jobs.len() as int) =~= self.jobs@);
        out
    }
    /// The job with this identifier.
    pub fn get(&self, id: &RuntimeJobId) -> (r: Result<ModelDownloadJob, RuntimeError>)
        ensures
            job_pos(self.jobs@, id@) >= 0 ==> r == Ok::<ModelDownloadJob, RuntimeError>(
                self.jobs@[job_pos(self.jobs@, id@)],
            ),
            job_pos(self.jobs@, id@) < 0 ==> (r matches Err(e) && e matches RuntimeError::InvalidRequest(m)
                && m@ == "download job was not found"@),
    {
        match self.find(id) {
            Some(i) => Ok(copy_job(&self.jobs[i])),
            None => Err(RuntimeError::InvalidRequest(owned("download job was not found"))),
        }
    }

    fn update_job(&mut self, i: usize, j: ModelDownloadJob)
        requires
            i < old(self).jobs@.len(),
        ensures
            final(self).jobs@ == old(self).jobs@.update(i as int, j),
    {
        self.jobs.set(i, j);
    }

    /// Marks an active download as cancelling at `now`; only a download with
    /// a running worker (`has_worker`) can be cancelled.
    pub fn cancel_at(&mut self, id: &RuntimeJobId, has_worker: bool, now: crate::developer::Timestamp) -> (r:
        Result<(), RuntimeError>)
        ensures
            !has_worker ==> (r matches Err(e) && e matches RuntimeError::InvalidRequest(m) && m@
                == "download job is not active"@ && final(self).jobs@ == old(self).jobs@),
            has_worker && job_pos(old(self).jobs@, id@) < 0 ==> (r matches Err(e)
                && e matches RuntimeError::InvalidRequest(m) && m@ == "download job was not found"@
                && final(self).jobs@ == old(self).jobs@),
            has_worker && job_pos(old(self).jobs@, id@) >= 0 ==> r is Ok && {
                let p = job_pos(old(self).jobs@, id@);
                let j = old(self).jobs@[p];
                let t = final(self).jobs@[p];
                &&& final(self).jobs@ == old(self).jobs@.update(p, t)
                &&& t == ModelDownloadJob {
                    state: ModelDownloadState::Cancelling,
                    status: t.status,
                    updated_at: now,
                    ..j
                }
                &&& t.status@ == "cancelling"@
            },
    {
        if !has_worker {
            return Err(RuntimeError::InvalidRequest(owned("download job is not active")));
        }
        match self.find(id) {
            None => Err(RuntimeError::InvalidRequest(owned("download job was not found"))),
            Some(i) => {
                let mut j = copy_job(&self.jobs[i]);
                j.state = ModelDownloadState::Cancelling;
                j.status = owned("cancelling");
                j.updated_at = now;
                self.update_job(i, j);
                Ok(())
            },
        }
    }

    /// Records a progress report at `now`; a report without a total keeps the
    /// known total.
    pub fn apply_progress(&mut self, id: &RuntimeJobId, progress: ModelDownloadProgress, now: crate::developer::Timestamp) -> (r: Result<
        (),
        RuntimeError,
    >)
        ensures
            job_pos(old(self).jobs@, id@) < 0 ==> (r matches Err(e)
                && e matches RuntimeError::InvalidRequest(m) && m@ == "download job was not found"@
                && final(self).jobs@ == old(self).jobs@),
            job_pos(old(self).jobs@, id@) >= 0 ==> r is Ok && {
                let p = job_pos(old(self).jobs@, id@);
                let j = old(self).jobs@[p];
                final(self).jobs@ == old(self).jobs@.update(
                    p,
                    ModelDownloadJob {
                        status: progress.status,
                        completed_bytes: progress.completed_bytes,
                        total_bytes: match progress.total_bytes {
                            Some(t) => Some(t),
                            None => j.total_bytes,
                        },
                        updated_at: now,
                        ..j
                    },
                )
            },
    {
        match self.find(id) {
            None => Err(RuntimeError::InvalidRequest(owned("download job was not found"))),
            Some(i) => {
                let mut j = copy_job(&self.jobs[i]);
                j.status = progress.status;
                j.completed_bytes = progress.completed_bytes;
                j.total_bytes = match progress.total_bytes {
                    Some(t) => Some(t),
                    None => j.total_bytes,
                };
                j.updated_at = now;
                self.update_job(i, j);
                Ok(())
            },
        }
    }

    /// Moves a queued download to running at `now` when its worker starts; a
    /// download cancelled before its worker started ends cancelled instead.
    pub fn begin_at(&mut self, id: &RuntimeJobId, cancelled: bool, now: crate::developer::Timestamp) -> (r: Result<
        (),
        RuntimeError,
    >)
        ensures
            job_pos(old(self).jobs@, id@) < 0 ==> r is Err && final(self).jobs@ == old(self).jobs@,
            job_pos(old(self).jobs@, id@) >= 0 ==> r is Ok && {
                let p = job_pos(old(self).jobs@, id@);
                let j = old(self).jobs@[p];
                let t = final(self).jobs@[p];
                &&& final(self).jobs@ == old(self).jobs@.update(p, t)
                &&& if cancelled {
                    t == ModelDownloadJob {
                        state: ModelDownloadState::Cancelled,
                        status: t.status,
                        updated_at: now,
                        ..j
                    } && t.status@ == "cancelled"@
                } else if j.state == ModelDownloadState::Queued {
                    t == ModelDownloadJob {
                        state: ModelDownloadState::Running,
                        status: t.status,
                        updated_at: now,
                        ..j
                    } && t.status@ == "starting"@
                } else {
                    t == ModelDownloadJob { updated_at: now, ..j }
                }
            },
    {
        match self.find(id) {
            None => Err(RuntimeError::InvalidRequest(owned("download job was not found"))),
            Some(i) => {
                let mut j = copy_job(&self.jobs[i]);
                if cancelled {
                    j.state = ModelDownloadState::Cancelled;
                    j.status = owned("cancelled");
                } else if j.state == ModelDownloadState::Queued {
                    j.state = ModelDownloadState::Running;
                    j.status = owned("starting");
                }
                j.updated_at = now;
                self.update_job(i, j);
                Ok(())
            },
        }
    }

    /// Records how a download ended at `now`: success completes the byte count
    /// when the total is known; a cancellation is kept apart from failures,
    /// whose message is recorded.
    pub fn finish_at(&mut self, id: &RuntimeJobId, result: Result<(), RuntimeError>, now: crate::developer::Timestamp) -> (r: Result<
        (),
        RuntimeError,
    >)
        ensures
            job_pos(old(self).jobs@, id@) < 0 ==> r is Err && final(self).jobs@ == old(self).jobs@,
            job_pos(old(self).jobs@, id@) >= 0 ==> r is Ok && {
                let p = job_pos(old(self).jobs@, id@);
                let j = old(self).jobs@[p];
                let t = final(self).jobs@[p];
                &&& final(self).jobs@ == old(self).jobs@.update(p, t)
                &&& t.updated_at == now
                &&& t.id == j.id && t.provider_id == j.provider_id && t.model_id == j.model_id
                &&& t.created_at == j.created_at && t.total_bytes == j.total_bytes
                &&& match result {
                    Ok(()) => t.state == ModelDownloadState::Succeeded && t.status@ == "success"@
                        && t.completed_bytes == match j.total_bytes {
                        Some(total) => total,
                        None => j.completed_bytes,
                    } && t.error_message == j.error_message,
                    Err(RuntimeError::Cancelled) => t.state == ModelDownloadState::Cancelled
                        && t.status@ == "cancelled"@ && t.completed_bytes == j.completed_bytes
                        && t.error_message == j.error_message,
                    Err(e) => t.state == ModelDownloadState::Failed && t.status@ == "failed"@
                        && t.completed_bytes == j.completed_bytes && (t.error_message matches Some(
                        m,
                    ) && m@ == runtime_error_text(e)),
                }
            },
    {
        match self.find(id) {
            None => Err(RuntimeError::InvalidRequest(owned("download job was not found"))),
            Some(i) => {
                let mut j = copy_job(&self.jobs[i]);
                match &result {
                    Ok(()) => {
                        j.state = ModelDownloadState::Succeeded;
                        j.status = owned("success");
                        match j.total_bytes {
                            Some(total) => {
                                j.completed_bytes = total;
                            },
                            None => {},
                        }
                    },
                    Err(RuntimeError::Cancelled) => {
                        j.state = ModelDownloadState::Cancelled;
                        j.status = owned("cancelled");
                    },
                    Err(e) => {
                        j.state = ModelDownloadState::Failed;
                        j.status = owned("failed");
                        j.error_message = Some(e.to_text());
                    },
                }
                j.updated_at = now;
                self.update_job(i, j);
                Ok(())
            },
        }
    }
}

/// After a restart no download is active.
pub proof fn no_download_stays_active_after_restart(
    jobs: Seq<ModelDownloadJob>,
    recovered: Seq<ModelDownloadJob>,
    now: crate::developer::Timestamp,
    i: int,
)
    requires
        recovered.len() == jobs.len(),
        forall|k: int| 0 <= k < jobs.len() ==> job_recovered(jobs[k], #[trigger] recovered[k], now),
        0 <= i < recovered.len(),
    ensures
        !is_active(recovered[i].state),
{
    assert(job_recovered(jobs[i], recovered[i], now));
}

} // verus!

verus! {

/// What a managed service runtime (such as the memory database) reported.
#[derive(Debug, Clone, PartialEq, Eq)]
pub struct ManagedRuntimeSnapshot {
    pub id: String,
    pub display_name: String,
    pub state: ManagedRuntimeState,
    pub version: Option<String>,
    pub runtime_location: String,
    pub data_location: String,
    pub host: Option<String>,
    pub port: Option<u16>,
    pub database: Option<String>,
    pub schema_version: Option<String>,
    pub database_size_bytes: Option<u64>,
    pub connection_count: Option<u32>,
    pub backup_state: String,
    pub last_successful_start: Option<crate::developer::Timestamp>,
    pub last_error: Option<String>,
    pub observed_at: crate::developer::Timestamp,
}

#[derive(Debug, Clone, PartialEq, Eq)]
pub struct RuntimeBackupSnapshot {
    pub state: String,
    pub last_backup: Option<crate::developer::Timestamp>,
    pub location: Option<String>,
    pub last_result: Option<String>,
}

#[derive(Debug, Clone, Copy, PartialEq, Eq, Structural)]
pub enum RuntimeModelStateKind {
    Loaded,
    Loading,
    Unloading,
    Unloaded,
    Unavailable,
    Error,
}

/// Whether a model is resident in a runtime, as the runtime itself reported.
#[derive(Debug, Clone, PartialEq, Eq)]
pub struct RuntimeModelState {
    pub runtime_id: ProviderId,
    pub model_id: ModelId,
    pub state: RuntimeModelStateKind,
    pub observed: bool,
    pub detail: String,
    pub observed_at: crate::developer::Timestamp,
}

/// What a long runtime operation is told to do next.
#[derive(Debug, Clone, Copy, PartialEq, Eq, Structural)]
pub enum RuntimeOperationControl {
    Continue,
    Pause,
    Cancel,
}

#[derive(Debug, Clone, PartialEq, Eq)]
pub enum RuntimeRegistryError {
    DuplicateRuntime(ProviderId),
    RuntimeNotFound(ProviderId),
}

pub open spec fn runtime_registry_error_text(e: RuntimeRegistryError) -> Seq<char> {
    match e {
        RuntimeRegistryError::DuplicateRuntime(p) => "runtime is already registered: "@ + p@,
        RuntimeRegistryError::RuntimeNotFound(p) => "runtime is not registered: "@ + p@,
    }
}

impl RuntimeRegistryError {
    /// The message this error displays.
    pub fn to_text(&self) -> (r: String)
        ensures
            r@ == runtime_registry_error_text(*self),
    {
        match self {
            RuntimeRegistryError::DuplicateRuntime(p) => concat2(
                "runtime is already registered: ",
                p.as_str(),
            ),
            RuntimeRegistryError::RuntimeNotFound(p) => concat2("runtime is not registered: ", p.as_str()),
        }
    }
}

/// The local runtimes, each identifier once, in identifier order. `R` is how
/// the application holds a runtime.
pub struct RuntimeRegistry<R> {
    runtimes: crate::provider::ProviderRegistry<R>,
}

impl<R: crate::provider::Registrable> RuntimeRegistry<R> {
    /// Registers a runtime under the identifier it tells; an identifier is
    /// taken once.
    pub fn register(&mut self, runtime: R) -> (r: Result<(), RuntimeRegistryError>)
        ensures
            ({
                let id = runtime.registered_id();
                let keys = crate::provider::provider_keys(old(self).entries());
                let p = crate::models::key_pos(keys, id@);
                &&& p >= 0 ==> r == Err::<(), RuntimeRegistryError>(RuntimeRegistryError::DuplicateRuntime(id))
                    && final(self).entries() == old(self).entries()
                &&& p < 0 ==> r is Ok && final(self).entries() == old(self).entries().insert(
                    crate::models::key_slot(keys, id@),
                    (id, runtime),
                )
            }),
    {
        match self.runtimes.register(runtime) {
            Ok(()) => Ok(()),
            Err(crate::provider::RegistryError::DuplicateProvider(id)) => Err(
                RuntimeRegistryError::DuplicateRuntime(id),
            ),
            Err(_) => {
                proof {
                    assert(false);
                }
                Ok(())
            },
        }
    }
}

impl<R> RuntimeRegistry<R> {
    /// The runtimes, in identifier order.
    pub closed spec fn entries(&self) -> Seq<(ProviderId, R)> {
        self.runtimes.entries()
    }

    pub fn new() -> (r: RuntimeRegistry<R>)
        ensures
            r.entries().len() == 0,
    {
        RuntimeRegistry { runtimes: crate::provider::ProviderRegistry::new() }
    }

    /// The runtime registered under this identifier.
    pub fn get(&self, id: &ProviderId) -> (r: Result<&R, RuntimeRegistryError>)
        ensures
            ({
                let p = crate::models::key_pos(crate::provider::provider_keys(self.entries()), id@);
                &&& p >= 0 ==> r == Ok::<&R, RuntimeRegistryError>(&self.entries()[p].1)
                &&& p < 0 ==> r == Err::<&R, RuntimeRegistryError>(RuntimeRegistryError::RuntimeNotFound(*id))
            }),
    {
        match self.runtimes.get(id) {
            Ok(r) => Ok(r),
            Err(_) => Err(RuntimeRegistryError::RuntimeNotFound(id.clone())),
        }
    }

    /// The runtimes, in identifier order.
    pub fn list(&self) -> (r: Vec<&R>)
        ensures
            r@.len() == self.entries().len(),
            forall|i: int| 0 <= i < r@.len() ==> *(#[trigger] r@[i]) == self.entries()[i].1,
    {
        let ids = self.runtimes.ids();
        let ghost keys = crate::provider::provider_keys(self.entries());
        let mut r: Vec<&R> = Vec::new();
        let mut i: usize = 0;
        while i < ids.len()
            invariant
                i <= ids@.len() == self.entries().len(),
                forall|k: int| 0 <= k < ids@.len() ==> #[trigger] ids@[k] == self.entries()[k].0,
                keys == crate::provider::provider_keys(self.entries()),
                crate::order::keys_sorted(keys),
                r@.len() == i,
                forall|k: int| 0 <= k < i ==> *(#[trigger] r@[k]) == self.entries()[k].1,
            decreases ids.len() - i,
        {
            let x = self.runtimes.get(&ids[i]);
            proof {
                crate::models::lemma_sorted_key_pos(crate::provider::provider_keys(self.entries()), i as int);
                assert(crate::provider::provider_keys(self.entries())[i as int] == ids@[i as int]@);
            }
            match x {
                Ok(rt) => r.push(rt),
                Err(_) => {
                    proof {
                        assert(false);
                    }
                },
            }
            i += 1;
        }
        r
    }
}

} // verus!

verus! {

/// No two active downloads are for the same model on the same runtime.
pub open spec fn one_active_per_model(s: Seq<ModelDownloadJob>) -> bool {
    forall|i: int, j: int|
        0 <= i < j < s.len() && is_active(s[i].state) && is_active(s[j].state) ==> !(
        #[trigger] s[i].provider_id@ == #[trigger] s[j].provider_id@ && s[i].model_id@ == s[j].model_id@)
}

/// Starting a download keeps at most one active download per model: a
/// start is only accepted (and a job appended) when no download of that
/// model on that runtime is active.
pub proof fn starting_keeps_one_active_download_per_model(jobs: Seq<ModelDownloadJob>, j: ModelDownloadJob)
    requires
        one_active_per_model(jobs),
        !has_active_download(jobs, j.provider_id@, j.model_id@),
    ensures
        one_active_per_model(jobs.push(j)),
{
    let s = jobs.push(j);
    assert forall|a: int, b: int|
        0 <= a < b < s.len() && is_active(s[a].state) && is_active(s[b].state) implies !(
        #[trigger] s[a].provider_id@ == #[trigger] s[b].provider_id@ && s[a].model_id@ == s[b].model_id@) by {
        if b == jobs.len() {
            assert(s[a] == jobs[a]);
            assert(s[b] == j);
        } else {
            assert(s[a] == jobs[a]);
            assert(s[b] == jobs[b]);
        }
    }
}

} // verus!
