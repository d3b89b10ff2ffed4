//! The decisions of the access-advisor job protocol: a job is submitted,
//! then its status is fetched after a fixed wait, at most a fixed number of
//! times, until it completes, fails, or the attempts run out.
use vstd::prelude::*;

verus! {

/// How many times the status of a job is fetched at most.
pub const MAX_POLL_ATTEMPTS: u32 = 10;

/// The wait before each fetch of the status, in seconds.
pub const POLL_INTERVAL_SECS: u64 = 3;

/// The status of a job as the provider reports it.
#[derive(Clone, Copy, Debug, PartialEq, Eq, Structural)]
pub enum JobStatus {
    Completed,
    InProgress,
    Failed,
    /// A status that this library does not know.
    Unknown,
}

#[derive(Clone, Copy, Debug, PartialEq, Eq, Structural)]
pub enum JobError {
    /// The submission returned no job identifier.
    MissingJobId,
    /// The job ended in a status other than completed.
    InvalidStatus(JobStatus),
    /// Every attempt found the job still in progress.
    Timeout,
}

/// What to do after a status was fetched.
#[derive(Clone, Copy, Debug, PartialEq, Eq, Structural)]
pub enum PollStep {
    /// Wait, then fetch the status again.
    PollAgain,
    /// The job is done: its report holds the result.
    Completed,
    Failed(JobError),
}

/// A submitted job and how many times its status has been fetched.
#[derive(Debug)]
pub struct JobPoller {
    pub job_id: String,
    pub attempts: u32,
}

/// The step after the `attempt`-th fetch of the status (counting from one)
/// found `status`.
pub open spec fn poll_step(attempt: int, status: JobStatus) -> PollStep {
    match status {
        JobStatus::Completed => PollStep::Completed,
        JobStatus::InProgress => if attempt < MAX_POLL_ATTEMPTS {
            PollStep::PollAgain
        } else {
            PollStep::Failed(JobError::Timeout)
        },
        _ => PollStep::Failed(JobError::InvalidStatus(status)),
    }
}

/// A job still in progress is polled again on every attempt but the last,
/// times out on the last, and a completed status ends polling on any
/// attempt: a job that completes on the last attempt succeeds.
pub proof fn lemma_poll_bound(attempt: int)
    requires
        1 <= attempt <= MAX_POLL_ATTEMPTS,
    ensures
        attempt < MAX_POLL_ATTEMPTS ==> poll_step(attempt, JobStatus::InProgress) == PollStep::PollAgain,
        attempt == MAX_POLL_ATTEMPTS ==> poll_step(attempt, JobStatus::InProgress) == PollStep::Failed(
            JobError::Timeout,
        ),
        poll_step(attempt, JobStatus::Completed) == PollStep::Completed,
{
}

impl JobPoller {
    /// Starts polling the job that a submission returned; a submission
    /// without an identifier is an error.
    pub fn start(job_id: Option<String>) -> (r: Result<JobPoller, JobError>)
        ensures
            job_id is None <==> r is Err,
            r is Err ==> r->Err_0 == JobError::MissingJobId,
            r is Ok ==> r->Ok_0.job_id@ == job_id->Some_0@ && r->Ok_0.attempts == 0,
    {
        match job_id {
            Some(job_id) => Ok(JobPoller { job_id, attempts: 0 }),
            None => Err(JobError::MissingJobId),
        }
    }

    /// Whether another fetch of the status is allowed.
    pub fn poll_due(&self) -> (r: bool)
        ensures
            r == (self.attempts < MAX_POLL_ATTEMPTS),
    {
        self.attempts < MAX_POLL_ATTEMPTS
    }

    /// Records one fetch of the status and decides what comes next.
    pub fn observe(&mut self, status: JobStatus) -> (r: PollStep)
        requires
            old(self).attempts < MAX_POLL_ATTEMPTS,
        ensures
            final(self).attempts == old(self).attempts + 1,
            final(self).job_id == old(self).job_id,
            r == poll_step(final(self).attempts as int, status),
    {
        self.attempts = self.attempts + 1;
        match status {
            JobStatus::Completed => PollStep::Completed,
            JobStatus::InProgress => if self.attempts < MAX_POLL_ATTEMPTS {
                PollStep::PollAgain
            } else {
                PollStep::Failed(JobError::Timeout)
            },
            _ => PollStep::Failed(JobError::InvalidStatus(status)),
        }
    }
}

} // verus!
