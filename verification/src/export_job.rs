//! The async export-job table: each job's lifecycle
//! `queued -> running -> complete | failed`, the transitions the job runner
//! reports, and the status payload read back by the status endpoint.
use vstd::prelude::*;

use crate::admin::views::hex_digit;
use crate::text::{push_str, str_to_string};

verus! {

/// Lifecycle state of an async export job.
#[derive(Debug, Clone, Copy, PartialEq, Eq, Structural)]
pub enum ExportJobStatus {
    /// Accepted and registered; generation has not started yet.
    Queued,
    /// Generation is in flight.
    Running,
    /// Artifact is written to storage and ready to download.
    Complete,
    /// Generation failed; the record's `error` carries the reason.
    Failed,
}

pub open spec fn status_text(s: ExportJobStatus) -> Seq<char> {
    match s {
        ExportJobStatus::Queued => "queued"@,
        ExportJobStatus::Running => "running"@,
        ExportJobStatus::Complete => "complete"@,
        ExportJobStatus::Failed => "failed"@,
    }
}

impl ExportJobStatus {
    /// Stable lowercase wire string for the status payload.
    pub fn as_str(self) -> (s: &'static str)
        ensures
            s@ == status_text(self),
    {
        match self {
            ExportJobStatus::Queued => "queued",
            ExportJobStatus::Running => "running",
            ExportJobStatus::Complete => "complete",
            ExportJobStatus::Failed => "failed",
        }
    }
}

/// The record of one export job.
#[derive(Debug, Clone)]
pub struct ExportJobRecord {
    /// Opaque job id.
    pub job_id: String,
    /// Schema the export targets.
    pub schema_name: String,
    /// Subject that initiated the job, or `None` for an anonymous caller.
    pub owner_sub: Option<String>,
    /// Requested deliverable format, as its wire name.
    pub format: String,
    /// Current lifecycle state.
    pub status: ExportJobStatus,
    /// Object-storage key of the artifact once complete.
    pub object_key: Option<String>,
    /// Row count of the finished artifact.
    pub row_count: Option<usize>,
    /// Failure reason when failed.
    pub error: Option<String>,
}

fn copy_opt(o: &Option<String>) -> (r: Option<String>)
    ensures
        r == *o,
{
    match o {
        Some(s) => Some(s.clone()),
        None => None,
    }
}

impl ExportJobRecord {
    /// A field-by-field copy.
    pub fn copy(&self) -> (r: Self)
        ensures
            r == *self,
    {
        ExportJobRecord {
            job_id: self.job_id.clone(),
            schema_name: self.schema_name.clone(),
            owner_sub: copy_opt(&self.owner_sub),
            format: self.format.clone(),
            status: self.status,
            object_key: copy_opt(&self.object_key),
            row_count: self.row_count,
            error: copy_opt(&self.error),
        }
    }
}

/// A value in the status payload.
#[derive(Debug, Clone, PartialEq, Eq)]
pub enum StatusValue {
    Text(String),
    Count(usize),
}

/// The status payload of a record, as (key, value) pairs in order:
/// `job_id`, `schema`, `format`, `status`, then `row_count` and `error` when
/// present. (A download URL, minted per poll, is added by the caller.)
pub open spec fn status_fields_spec(r: ExportJobRecord) -> Seq<(Seq<char>, StatusValue)> {
    let base = seq![
        ("job_id"@, StatusValue::Text(r.job_id)),
        ("schema"@, StatusValue::Text(r.schema_name)),
        ("format"@, StatusValue::Text(r.format)),
    ];
    let with_rows = match r.row_count {
        Some(n) => seq![("row_count"@, StatusValue::Count(n))],
        None => Seq::empty(),
    };
    let with_error = match r.error {
        Some(e) => seq![("error"@, StatusValue::Text(e))],
        None => Seq::empty(),
    };
    base + with_rows + with_error
}

/// The payload's `status` value.
pub open spec fn status_value_spec(r: ExportJobRecord) -> Seq<char> {
    status_text(r.status)
}

impl ExportJobRecord {
    /// The status payload fields other than `status`, in order (see
    /// `status_fields_spec`).
    pub fn status_fields(&self) -> (v: Vec<(String, StatusValue)>)
        ensures
            v@.map_values(|p: (String, StatusValue)| (p.0@, p.1)) == status_fields_spec(*self),
    {
        let mut v: Vec<(String, StatusValue)> = Vec::new();
        v.push((str_to_string("job_id"), StatusValue::Text(self.job_id.clone())));
        v.push((str_to_string("schema"), StatusValue::Text(self.schema_name.clone())));
        v.push((str_to_string("format"), StatusValue::Text(self.format.clone())));
        let ghost base = v@.map_values(|p: (String, StatusValue)| (p.0@, p.1));
        match self.row_count {
            Some(n) => {
                v.push((str_to_string("row_count"), StatusValue::Count(n)));
            },
            None => {},
        }
        let ghost rows = v@.map_values(|p: (String, StatusValue)| (p.0@, p.1));
        match &self.error {
            Some(e) => {
                v.push((str_to_string("error"), StatusValue::Text(e.clone())));
            },
            None => {},
        }
        assert(v@.map_values(|p: (String, StatusValue)| (p.0@, p.1)) =~= status_fields_spec(*self));
        v
    }
}

/// The job table: records by job id.
pub struct ExportJobTable {
    jobs: Vec<ExportJobRecord>,
}

/// No two records share a job id.
pub open spec fn ids_distinct(jobs: Seq<ExportJobRecord>) -> bool {
    forall|a: int, b: int| 0 <= a < b < jobs.len() ==> jobs[a].job_id@ != jobs[b].job_id@
}

/// Records by job id.
pub open spec fn jobs_map(jobs: Seq<ExportJobRecord>) -> Map<Seq<char>, ExportJobRecord> {
    Map::new(
        |id: Seq<char>| exists|i: int| 0 <= i < jobs.len() && jobs[i].job_id@ == id,
        |id: Seq<char>| jobs[choose|i: int| 0 <= i < jobs.len() && jobs[i].job_id@ == id],
    )
}

impl ExportJobTable {
    #[verifier::type_invariant]
    spec fn wf(self) -> bool {
        ids_distinct(self.jobs@)
    }

    /// The records, by job id.
    pub closed spec fn view(&self) -> Map<Seq<char>, ExportJobRecord> {
        jobs_map(self.jobs@)
    }

    /// An empty table.
    pub fn new() -> (t: Self)
        ensures
            t.view() == Map::<Seq<char>, ExportJobRecord>::empty(),
    {
        let t = ExportJobTable { jobs: Vec::new() };
        assert(t.view() =~= Map::<Seq<char>, ExportJobRecord>::empty());
        t
    }

    /// The position of `job_id`'s record.
    fn find(&self, job_id: &str) -> (r: Option<usize>)
        ensures
            match r {
                Some(i) => i < self.jobs@.len() && self.jobs@[i as int].job_id@ == job_id@,
                None => forall|i: int| 0 <= i < self.jobs@.len() ==> self.jobs@[i].job_id@ != job_id@,
            },
    {
        let key = str_to_string(job_id);
        let mut i: usize = 0;
        while i < self.jobs.len()
            invariant
                i <= self.jobs@.len(),
                key@ == job_id@,
                forall|k: int| 0 <= k < i ==> self.jobs@[k].job_id@ != job_id@,
            decreases self.jobs@.len() - i,
        {
            if self.jobs[i].job_id == key {
                return Some(i);
            }
            i += 1;
        }
        None
    }

    /// The record of `job_id`, if known.
    pub fn get(&self, job_id: &str) -> (r: Option<ExportJobRecord>)
        ensures
            match r {
                Some(rec) => self.view().contains_key(job_id@) && rec == self.view()[job_id@],
                None => !self.view().contains_key(job_id@),
            },
    {
        proof {
            use_type_invariant(self);
        }
        match self.find(job_id) {
            Some(i) => {
                proof {
                    lemma_map_at(self.jobs@, i as int);
                }
                Some(self.jobs[i].copy())
            },
            None => None,
        }
    }

    /// Registers a job as queued, before any work begins (replacing any
    /// record with the same id).
    pub fn register(&mut self, job_id: String, schema_name: String, owner_sub: Option<String>, format: String)
        ensures
            final(self).view() == old(self).view().insert(
                job_id@,
                ExportJobRecord {
                    job_id,
                    schema_name,
                    owner_sub,
                    format,
                    status: ExportJobStatus::Queued,
                    object_key: None,
                    row_count: None,
                    error: None,
                },
            ),
    {
        proof {
            use_type_invariant(&*self);
        }
        let rec = ExportJobRecord {
            job_id,
            schema_name,
            owner_sub,
            format,
            status: ExportJobStatus::Queued,
            object_key: None,
            row_count: None,
            error: None,
        };
        let ghost before = self.jobs@;
        match self.find(rec.job_id.as_str()) {
            Some(i) => {
                let mut jobs: Vec<ExportJobRecord> = Vec::new();
                std::mem::swap(&mut jobs, &mut self.jobs);
                let ghost r = rec;
                jobs.set(i, rec);
                proof {
                    lemma_replace(before, i as int, r);
                }
                self.jobs = jobs;
            },
            None => {
                let mut jobs: Vec<ExportJobRecord> = Vec::new();
                std::mem::swap(&mut jobs, &mut self.jobs);
                let ghost r = rec;
                jobs.push(rec);
                proof {
                    lemma_push(before, r);
                }
                self.jobs = jobs;
            },
        }
    }

    /// Replaces the record at position `i` with `rec`, which has the same id.
    fn update_at(&mut self, i: usize, rec: ExportJobRecord)
        requires
            i < old(self).jobs@.len(),
            rec.job_id@ == old(self).jobs@[i as int].job_id@,
        ensures
            final(self).view() == old(self).view().insert(rec.job_id@, rec),
    {
        proof {
            use_type_invariant(&*self);
        }
        let ghost before = self.jobs@;
        let ghost r = rec;
        let mut jobs: Vec<ExportJobRecord> = Vec::new();
        std::mem::swap(&mut jobs, &mut self.jobs);
        jobs.set(i, rec);
        proof {
            lemma_replace(before, i as int, r);
        }
        self.jobs = jobs;
    }

    /// Generation started: a queued job becomes running. Any other job, and
    /// an unknown id, is left as it is.
    pub fn mark_running(&mut self, job_id: &str)
        ensures
            old(self).view().contains_key(job_id@) && old(self).view()[job_id@].status
                == ExportJobStatus::Queued ==> final(self).view() == old(self).view().insert(
                job_id@,
                ExportJobRecord { status: ExportJobStatus::Running, ..old(self).view()[job_id@] },
            ),
            !(old(self).view().contains_key(job_id@) && old(self).view()[job_id@].status
                == ExportJobStatus::Queued) ==> final(self).view() == old(self).view(),
    {
        proof {
            use_type_invariant(&*self);
        }
        match self.find(job_id) {
            Some(i) => {
                proof {
                    lemma_map_at(self.jobs@, i as int);
                }
                if self.jobs[i].status == ExportJobStatus::Queued {
                    let mut rec = self.jobs[i].copy();
                    rec.status = ExportJobStatus::Running;
                    self.update_at(i, rec);
                }
            },
            None => {
                proof {
                    lemma_absent(self.jobs@, job_id@);
                }
            },
        }
    }

    /// The artifact is stored: the job becomes complete with its object key
    /// and row count. An unknown id is ignored.
    pub fn complete(&mut self, job_id: &str, object_key: String, row_count: usize)
        ensures
            old(self).view().contains_key(job_id@) ==> final(self).view() == old(self).view().insert(
                job_id@,
                ExportJobRecord {
                    status: ExportJobStatus::Complete,
                    object_key: Some(object_key),
                    row_count: Some(row_count),
                    ..old(self).view()[job_id@]
                },
            ),
            !old(self).view().contains_key(job_id@) ==> final(self).view() == old(self).view(),
    {
        proof {
            use_type_invariant(&*self);
        }
        match self.find(job_id) {
            Some(i) => {
                proof {
                    lemma_map_at(self.jobs@, i as int);
                }
                let mut rec = self.jobs[i].copy();
                rec.status = ExportJobStatus::Complete;
                rec.object_key = Some(object_key);
                rec.row_count = Some(row_count);
                self.update_at(i, rec);
            },
            None => {
                proof {
                    lemma_absent(self.jobs@, job_id@);
                }
            },
        }
    }

    /// Generation failed: the job becomes failed with the reason. An unknown
    /// id is ignored.
    pub fn fail(&mut self, job_id: &str, error: String)
        ensures
            old(self).view().contains_key(job_id@) ==> final(self).view() == old(self).view().insert(
                job_id@,
                ExportJobRecord {
                    status: ExportJobStatus::Failed,
                    error: Some(error),
                    ..old(self).view()[job_id@]
                },
            ),
            !old(self).view().contains_key(job_id@) ==> final(self).view() == old(self).view(),
    {
        proof {
            use_type_invariant(&*self);
        }
        match self.find(job_id) {
            Some(i) => {
                proof {
                    lemma_map_at(self.jobs@, i as int);
                }
                let mut rec = self.jobs[i].copy();
                rec.status = ExportJobStatus::Failed;
                rec.error = Some(error);
                self.update_at(i, rec);
            },
            None => {
                proof {
                    lemma_absent(self.jobs@, job_id@);
                }
            },
        }
    }
}

proof fn lemma_map_at(jobs: Seq<ExportJobRecord>, i: int)
    requires
        ids_distinct(jobs),
        0 <= i < jobs.len(),
    ensures
        jobs_map(jobs).contains_key(jobs[i].job_id@),
        jobs_map(jobs)[jobs[i].job_id@] == jobs[i],
{
    let id = jobs[i].job_id@;
    assert(jobs_map(jobs).dom().contains(id));
    let k = choose|k: int| 0 <= k < jobs.len() && jobs[k].job_id@ == id;
    if k != i {
        if k < i {
            assert(jobs[k].job_id@ != jobs[i].job_id@);
        } else {
            assert(jobs[i].job_id@ != jobs[k].job_id@);
        }
    }
}

proof fn lemma_absent(jobs: Seq<ExportJobRecord>, id: Seq<char>)
    requires
        forall|i: int| 0 <= i < jobs.len() ==> jobs[i].job_id@ != id,
    ensures
        !jobs_map(jobs).contains_key(id),
{
}

proof fn lemma_replace(jobs: Seq<ExportJobRecord>, i: int, r: ExportJobRecord)
    requires
        ids_distinct(jobs),
        0 <= i < jobs.len(),
        r.job_id@ == jobs[i].job_id@,
    ensures
        ids_distinct(jobs.update(i, r)),
        jobs_map(jobs.update(i, r)) == jobs_map(jobs).insert(r.job_id@, r),
{
    let after = jobs.update(i, r);
    assert forall|a: int, b: int| 0 <= a < b < after.len() implies after[a].job_id@ != after[b].job_id@ by {
        assert(after[a].job_id@ == jobs[a].job_id@);
        assert(after[b].job_id@ == jobs[b].job_id@);
    }
    lemma_map_at(after, i);
    let m1 = jobs_map(after);
    let m2 = jobs_map(jobs).insert(r.job_id@, r);
    assert forall|id: Seq<char>| m1.contains_key(id) <==> m2.contains_key(id) by {
        if m1.contains_key(id) {
            let k = choose|k: int| 0 <= k < after.len() && after[k].job_id@ == id;
            assert(jobs[k].job_id@ == id);
        }
        if jobs_map(jobs).contains_key(id) {
            let k = choose|k: int| 0 <= k < jobs.len() && jobs[k].job_id@ == id;
            assert(after[k].job_id@ == id);
        }
    }
    assert forall|id: Seq<char>| m1.contains_key(id) implies m1[id] == m2[id] by {
        let k = choose|k: int| 0 <= k < after.len() && after[k].job_id@ == id;
        lemma_map_at(after, k);
        if k != i {
            lemma_map_at(jobs, k);
            assert(after[k] == jobs[k]);
        }
    }
    assert(m1 =~= m2);
}

proof fn lemma_push(jobs: Seq<ExportJobRecord>, r: ExportJobRecord)
    requires
        ids_distinct(jobs),
        forall|i: int| 0 <= i < jobs.len() ==> jobs[i].job_id@ != r.job_id@,
    ensures
        ids_distinct(jobs.push(r)),
        jobs_map(jobs.push(r)) == jobs_map(jobs).insert(r.job_id@, r),
{
    let after = jobs.push(r);
    assert forall|a: int, b: int| 0 <= a < b < after.len() implies after[a].job_id@ != after[b].job_id@ by {
        if b == jobs.len() {
            assert(after[a] == jobs[a]);
        } else {
            assert(after[a] == jobs[a] && after[b] == jobs[b]);
        }
    }
    let m1 = jobs_map(after);
    let m2 = jobs_map(jobs).insert(r.job_id@, r);
    lemma_map_at(after, jobs.len() as int);
    assert forall|id: Seq<char>| m1.contains_key(id) <==> m2.contains_key(id) by {
        if m1.contains_key(id) {
            let k = choose|k: int| 0 <= k < after.len() && after[k].job_id@ == id;
            if k < jobs.len() {
                assert(jobs[k].job_id@ == id);
            }
        }
        if jobs_map(jobs).contains_key(id) {
            let k = choose|k: int| 0 <= k < jobs.len() && jobs[k].job_id@ == id;
            assert(after[k].job_id@ == id);
        }
    }
    assert forall|id: Seq<char>| m1.contains_key(id) implies m1[id] == m2[id] by {
        let k = choose|k: int| 0 <= k < after.len() && after[k].job_id@ == id;
        lemma_map_at(after, k);
        if k < jobs.len() {
            lemma_map_at(jobs, k);
            assert(after[k] == jobs[k]);
        }
    }
    assert(m1 =~= m2);
}

/// A lowercase hexadecimal digit.
pub open spec fn is_lower_hex(c: char) -> bool {
    exists|d: int| 0 <= d < 16 && c == hex_digit(d)
}

/// The simple form of a random (version 4, RFC 4122 variant) UUID: 32
/// lowercase hex digits, the version digit `4` at index 12, and the
/// variant digit at index 16 one of `8`, `9`, `a`, `b`.
pub open spec fn is_simple_v4_uuid(s: Seq<char>) -> bool {
    &&& s.len() == 32
    &&& forall|i: int| 0 <= i < 32 ==> is_lower_hex(#[trigger] s[i])
    &&& s[12] == '4'
    &&& (s[16] == '8' || s[16] == '9' || s[16] == 'a' || s[16] == 'b')
}

/// uuid `Uuid::new_v4`, written in its simple form. The value is random:
/// only its form is claimed, which `new_v4` fixes (the version and variant
/// bits) and the simple form writes as 32 lowercase hex digits.
#[verifier::external_body]
pub(crate) fn random_uuid_simple() -> (r: String)
    ensures
        is_simple_v4_uuid(r@),
{
    uuid::Uuid::new_v4().simple().to_string()
}

/// A fresh export job id: `exp_` followed by a random UUID in simple form.
pub fn new_job_id() -> (id: String)
    ensures
        exists|u: Seq<char>| is_simple_v4_uuid(u) && id@ == "exp_"@ + u,
{
    let u = random_uuid_simple();
    let mut id = str_to_string("exp_");
    push_str(&mut id, u.as_str());
    id
}

} // verus!
