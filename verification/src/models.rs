use vstd::prelude::*;

verus! {

/// Lifecycle state of a transcription job, as stored in the database.
#[derive(Debug, Clone, Copy, PartialEq, Eq, Structural)]
pub enum JobStatus {
    Pending,
    Processing,
    Completed,
    Error,
    Reviewed,
    Exported,
}

/// The database text of each job status.
pub open spec fn job_status_text(status: JobStatus) -> Seq<char> {
    match status {
        JobStatus::Pending => "pending"@,
        JobStatus::Processing => "processing"@,
        JobStatus::Completed => "completed"@,
        JobStatus::Error => "error"@,
        JobStatus::Reviewed => "reviewed"@,
        JobStatus::Exported => "exported"@,
    }
}

/// Distinct statuses are stored under distinct texts, so a stored status
/// names exactly one status.
pub proof fn lemma_job_status_text_distinct(a: JobStatus, b: JobStatus)
    requires
        a != b,
    ensures
        job_status_text(a) != job_status_text(b),
{
    reveal_strlit("pending");
    reveal_strlit("processing");
    reveal_strlit("completed");
    reveal_strlit("error");
    reveal_strlit("reviewed");
    reveal_strlit("exported");
    let ta = job_status_text(a);
    let tb = job_status_text(b);
    if ta.len() == tb.len() {
        assert(ta[0] != tb[0] || ta[1] != tb[1] || ta[2] != tb[2]);
    }
}

impl JobStatus {
    /// The snake_case name under which the status is stored.
    pub fn as_str(&self) -> (text: &'static str)
        ensures
            text@ == job_status_text(*self),
    {
        match self {
            JobStatus::Pending => "pending",
            JobStatus::Processing => "processing",
            JobStatus::Completed => "completed",
            JobStatus::Error => "error",
            JobStatus::Reviewed => "reviewed",
            JobStatus::Exported => "exported",
        }
    }
}

} // verus!
