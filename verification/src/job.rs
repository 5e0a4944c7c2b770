//! Job state labels and the job data types: what a caller submits and what a
//! fetch hands back.

use vstd::prelude::*;
use vstd::string::StringExecFns;

use crate::queue::QueuePolicy;
use crate::queue::spec_parse_policy;
use crate::text;

verus! {

/// A job's state.
///
/// The database stores these as an enum whose order is relied on:
/// `created < retry < active < completed < cancelled < failed`.
#[derive(Debug, Clone, Copy, PartialEq, Eq, Structural)]
pub enum JobState {
    /// Job has been registered.
    Created,
    /// Job has failed and can now be retried.
    Retry,
    /// Job has been consumed and is being processed by a worker.
    Active,
    /// Job has been completed.
    Completed,
    /// Job has been cancelled.
    Cancelled,
    /// Job has failed terminally.
    Failed,
}

impl Default for JobState {
    fn default() -> (r: Self)
        ensures
            r == JobState::Created,
    {
        JobState::Created
    }
}

/// Position of a state in the database enum order.
pub open spec fn spec_state_position(s: JobState) -> int {
    match s {
        JobState::Created => 0,
        JobState::Retry => 1,
        JobState::Active => 2,
        JobState::Completed => 3,
        JobState::Cancelled => 4,
        JobState::Failed => 5,
    }
}

/// The textual label the database uses for a state.
pub open spec fn spec_state_label(s: JobState) -> Seq<char> {
    match s {
        JobState::Created => "created"@,
        JobState::Retry => "retry"@,
        JobState::Active => "active"@,
        JobState::Completed => "completed"@,
        JobState::Cancelled => "cancelled"@,
        JobState::Failed => "failed"@,
    }
}

/// The state a label names, if any.
pub open spec fn spec_parse_state(s: Seq<char>) -> Option<JobState> {
    if s == "created"@ {
        Some(JobState::Created)
    } else if s == "retry"@ {
        Some(JobState::Retry)
    } else if s == "active"@ {
        Some(JobState::Active)
    } else if s == "completed"@ {
        Some(JobState::Completed)
    } else if s == "cancelled"@ {
        Some(JobState::Cancelled)
    } else if s == "failed"@ {
        Some(JobState::Failed)
    } else {
        None
    }
}

impl JobState {
    /// Position of this state in the database enum order.
    pub fn position(&self) -> (r: u8)
        ensures
            r as int == spec_state_position(*self),
    {
        match self {
            JobState::Created => 0,
            JobState::Retry => 1,
            JobState::Active => 2,
            JobState::Completed => 3,
            JobState::Cancelled => 4,
            JobState::Failed => 5,
        }
    }

    /// The textual label the database uses for this state.
    pub fn as_str(&self) -> (r: &'static str)
        ensures
            r@ == spec_state_label(*self),
    {
        match self {
            JobState::Created => "created",
            JobState::Retry => "retry",
            JobState::Active => "active",
            JobState::Completed => "completed",
            JobState::Cancelled => "cancelled",
            JobState::Failed => "failed",
        }
    }

    /// Parses a database label; unknown labels are reported back in the error.
    pub fn try_from(value: &str) -> (r: Result<JobState, String>)
        ensures
            match spec_parse_state(value@) {
                Some(s) => r == Ok::<JobState, String>(s),
                None => (r matches Err(m) && m@ == "Unsupported job state: "@ + value@),
            },
    {
        if text::str_eq(value, "created") {
            Ok(JobState::Created)
        } else if text::str_eq(value, "retry") {
            Ok(JobState::Retry)
        } else if text::str_eq(value, "active") {
            Ok(JobState::Active)
        } else if text::str_eq(value, "completed") {
            Ok(JobState::Completed)
        } else if text::str_eq(value, "cancelled") {
            Ok(JobState::Cancelled)
        } else if text::str_eq(value, "failed") {
            Ok(JobState::Failed)
        } else {
            let mut m = String::from_str("Unsupported job state: ");
            m.append(value);
            Err(m)
        }
    }
}

fn clone_opt_string(o: &Option<String>) -> (r: Option<String>)
    ensures
        r == *o,
{
    match o {
        Some(s) => Some(s.clone()),
        None => None,
    }
}

/// The job options the submission statement sends beside id, queue name and
/// payload. All durations are in seconds; timestamps are epoch seconds.
#[derive(Debug)]
pub struct JobOptions {
    /// Higher is fetched first.
    pub priority: usize,
    /// Dead letter queue override for this job.
    pub dead_letter: Option<String>,
    /// Retry limit override.
    pub retry_limit: Option<usize>,
    /// Retry delay override, in seconds.
    pub retry_delay: Option<u64>,
    /// Backoff override.
    pub retry_backoff: Option<bool>,
    /// Expiry override, in seconds.
    pub expire_in: Option<u64>,
    /// Absolute retention deadline.
    pub keep_until: Option<i64>,
    /// Absolute visibility time.
    pub start_after: Option<i64>,
    /// Width of the throttling slot, in seconds.
    pub singleton_for: Option<u64>,
    /// Throttling key.
    pub singleton_key: Option<String>,
}

impl Default for JobOptions {
    fn default() -> (r: Self)
        ensures
            r.priority == 0,
            r.dead_letter is None,
            r.retry_limit is None,
            r.retry_delay is None,
            r.retry_backoff is None,
            r.expire_in is None,
            r.keep_until is None,
            r.start_after is None,
            r.singleton_for is None,
            r.singleton_key is None,
    {
        JobOptions {
            priority: 0,
            dead_letter: None,
            retry_limit: None,
            retry_delay: None,
            retry_backoff: None,
            expire_in: None,
            keep_until: None,
            start_after: None,
            singleton_for: None,
            singleton_key: None,
        }
    }
}

/// A job to be sent. Timestamps are epoch seconds, durations are seconds,
/// ids are the 128 bits of a uuid, and the payload is opaque text.
#[derive(Debug)]
pub struct Job {
    /// Id to assign; when unset the server generates one.
    pub id: Option<u128>,
    /// Name of the queue to put this job onto.
    pub queue_name: String,
    /// Job's payload.
    pub data: String,
    /// Job's priority: higher is fetched first.
    pub priority: usize,
    /// Dead letter queue for this job.
    pub dead_letter: Option<String>,
    /// Number of retry attempts; falls back to the queue's, then to 2.
    pub retry_limit: Option<usize>,
    /// Seconds to wait before a retry attempt.
    pub retry_delay: Option<u64>,
    /// Whether to use a backoff between retry attempts.
    pub retry_backoff: Option<bool>,
    /// Seconds this job may be active before it expires.
    pub expire_in: Option<u64>,
    /// When this job may be archived.
    pub keep_until: Option<i64>,
    /// When this job becomes visible to consumers.
    pub start_after: Option<i64>,
    /// For how long only one job instance is allowed, in seconds.
    pub singleton_for: Option<u64>,
    /// Key to use for throttling.
    pub singleton_key: Option<String>,
}

impl Job {
    /// Creates a builder for a job.
    pub fn builder() -> (r: JobBuilder)
        ensures
            r.is_unset(),
    {
        JobBuilder {
            id: None,
            queue_name: String::new(),
            data: String::new(),
            priority: 0,
            dead_letter: None,
            retry_limit: None,
            retry_delay: None,
            retry_backoff: None,
            expire_in: None,
            keep_until: None,
            start_after: None,
            singleton_for: None,
            singleton_key: None,
        }
    }

    /// The options record the submission statement sends for this job.
    pub fn opts(&self) -> (r: JobOptions)
        ensures
            r.priority == self.priority,
            r.dead_letter == self.dead_letter,
            r.retry_limit == self.retry_limit,
            r.retry_delay == self.retry_delay,
            r.retry_backoff == self.retry_backoff,
            r.expire_in == self.expire_in,
            r.keep_until == self.keep_until,
            r.start_after == self.start_after,
            r.singleton_for == self.singleton_for,
            r.singleton_key == self.singleton_key,
    {
        JobOptions {
            priority: self.priority,
            dead_letter: clone_opt_string(&self.dead_letter),
            retry_limit: self.retry_limit,
            retry_delay: self.retry_delay,
            retry_backoff: self.retry_backoff,
            expire_in: self.expire_in,
            keep_until: self.keep_until,
            start_after: self.start_after,
            singleton_for: self.singleton_for,
            singleton_key: clone_opt_string(&self.singleton_key),
        }
    }
}

/// A job fetched from the server, with plain values for every column:
/// timestamps are epoch seconds, `expire_in` is in microseconds, ids are
/// the 128 bits of a uuid, and the payload is opaque text.
#[derive(Debug)]
pub struct JobDetails {
    /// Id of this job.
    pub id: u128,
    /// Name of the queue this job was fetched from.
    pub queue_name: String,
    /// Job's payload.
    pub data: String,
    /// Execution timeout, in microseconds.
    pub expire_in: u64,
    /// This job's state.
    pub state: JobState,
    /// Policy applied to this job; `None` for jobs of dead letter queues.
    pub policy: Option<QueuePolicy>,
    /// Job's priority.
    pub priority: usize,
    /// Retry limit for this job.
    pub retry_limit: usize,
    /// Seconds to wait before a retry attempt.
    pub retry_delay: u64,
    /// How many times this job was retried.
    pub retry_count: usize,
    /// Whether to use a backoff between retry attempts.
    pub retry_backoff: bool,
    /// When the job was registered by the server.
    pub created_at: i64,
    /// When to make this job visible for consumers.
    pub start_after: i64,
    /// When this job was last consumed, if ever.
    pub started_at: Option<i64>,
    /// The throttling slot, kept by the system internally.
    pub singleton_at: Option<i64>,
    /// Key used for throttling.
    pub singleton_key: Option<String>,
    /// When this job completed.
    pub completed_at: Option<i64>,
    /// Name of the dead letter queue for this job, if any.
    pub dead_letter: Option<String>,
    /// When this job can be archived.
    pub keep_until: i64,
}

impl JobDetails {
    /// Builds the details from one fetched row's raw column values,
    /// validating each as it is read: the interval and the counters must be
    /// non-negative, and the policy and state labels must parse. The first
    /// failing column, in reading order, is reported.
    pub fn from_columns(
        id: u128,
        queue_name: String,
        dead_letter: Option<String>,
        data: String,
        expire_in_us: i64,
        policy: Option<String>,
        priority: i32,
        retry_limit: i32,
        retry_delay: i32,
        retry_count: i32,
        retry_backoff: bool,
        created_at: i64,
        started_at: Option<i64>,
        completed_at: Option<i64>,
        start_after: i64,
        singleton_at: Option<i64>,
        singleton_key: Option<String>,
        state: String,
        keep_until: i64,
    ) -> (r: Result<JobDetails, crate::error::DecodeError>)
        ensures
            ({
                let e_expire = expire_in_us < 0;
                let e_policy = !e_expire && (policy matches Some(p) && spec_parse_policy(p@)
                    is None);
                let e_priority = !e_expire && !e_policy && priority < 0;
                let e_retry_limit = !e_expire && !e_policy && !e_priority && retry_limit < 0;
                let e_retry_delay = !e_expire && !e_policy && !e_priority && !e_retry_limit
                    && retry_delay < 0;
                let e_retry_count = !e_expire && !e_policy && !e_priority && !e_retry_limit
                    && !e_retry_delay && retry_count < 0;
                let e_state = !e_expire && !e_policy && !e_priority && !e_retry_limit
                    && !e_retry_delay && !e_retry_count && spec_parse_state(state@) is None;
                &&& e_expire ==> (r matches Err(e) && e.column@ == "expire_in"@ && e.message@
                    == "'expire_in' should be non-negative"@)
                &&& e_policy ==> (r matches Err(e) && e.column@ == "policy"@ && e.message@
                    == "Unsupported queue policy: "@ + policy->0@)
                &&& e_priority ==> (r matches Err(e) && e.column@ == "priority"@ && e.message@
                    == "'priority' should be non-negative, got: "@ + crate::text::spec_int_decimal(
                    priority as int,
                ))
                &&& e_retry_limit ==> (r matches Err(e) && e.column@ == "retry_limit"@
                    && e.message@ == "'retry_limit' should be non-negative, got: "@
                    + crate::text::spec_int_decimal(retry_limit as int))
                &&& e_retry_delay ==> (r matches Err(e) && e.column@ == "retry_delay"@
                    && e.message@ == "'retry_delay' should be non-negative, got: "@
                    + crate::text::spec_int_decimal(retry_delay as int))
                &&& e_retry_count ==> (r matches Err(e) && e.column@ == "retry_count"@
                    && e.message@ == "'retry_count' should be non-negative, got: "@
                    + crate::text::spec_int_decimal(retry_count as int))
                &&& e_state ==> (r matches Err(e) && e.column@ == "state"@ && e.message@
                    == "Unsupported job state: "@ + state@)
                &&& !e_expire && !e_policy && !e_priority && !e_retry_limit && !e_retry_delay
                    && !e_retry_count && !e_state ==> (r matches Ok(d) && d.id == id
                    && d.queue_name == queue_name && d.data == data && d.expire_in == expire_in_us
                    && d.state == spec_parse_state(state@)->0 && (match policy {
                    Some(p) => d.policy == spec_parse_policy(p@),
                    None => d.policy is None,
                }) && d.priority == priority && d.retry_limit == retry_limit && d.retry_delay
                    == retry_delay && d.retry_count == retry_count && d.retry_backoff
                    == retry_backoff && d.created_at == created_at && d.start_after == start_after
                    && d.started_at == started_at && d.singleton_at == singleton_at
                    && d.singleton_key == singleton_key && d.completed_at == completed_at
                    && d.dead_letter == dead_letter && d.keep_until == keep_until)
            }),
    {
        if expire_in_us < 0 {
            return Err(
                crate::error::DecodeError {
                    column: "expire_in",
                    message: String::from_str("'expire_in' should be non-negative"),
                },
            );
        }
        let parsed_policy: Option<QueuePolicy> = match &policy {
            Some(p) => {
                match QueuePolicy::try_from(p.as_str()) {
                    Ok(v) => Some(v),
                    Err(m) => {
                        return Err(crate::error::DecodeError { column: "policy", message: m });
                    },
                }
            },
            None => None,
        };
        if priority < 0 {
            let mut m = String::from_str("'priority' should be non-negative, got: ");
            let d = crate::text::int_string(priority as i64);
            m.append(d.as_str());
            return Err(crate::error::DecodeError { column: "priority", message: m });
        }
        if retry_limit < 0 {
            let mut m = String::from_str("'retry_limit' should be non-negative, got: ");
            let d = crate::text::int_string(retry_limit as i64);
            m.append(d.as_str());
            return Err(crate::error::DecodeError { column: "retry_limit", message: m });
        }
        if retry_delay < 0 {
            let mut m = String::from_str("'retry_delay' should be non-negative, got: ");
            let d = crate::text::int_string(retry_delay as i64);
            m.append(d.as_str());
            return Err(crate::error::DecodeError { column: "retry_delay", message: m });
        }
        if retry_count < 0 {
            let mut m = String::from_str("'retry_count' should be non-negative, got: ");
            let d = crate::text::int_string(retry_count as i64);
            m.append(d.as_str());
            return Err(crate::error::DecodeError { column: "retry_count", message: m });
        }
        let parsed_state = match JobState::try_from(state.as_str()) {
            Ok(v) => v,
            Err(m) => {
                return Err(crate::error::DecodeError { column: "state", message: m });
            },
        };
        Ok(
            JobDetails {
                id,
                queue_name,
                data,
                expire_in: expire_in_us as u64,
                state: parsed_state,
                policy: parsed_policy,
                priority: priority as usize,
                retry_limit: retry_limit as usize,
                retry_delay: retry_delay as u64,
                retry_count: retry_count as usize,
                retry_backoff,
                created_at,
                start_after,
                started_at,
                singleton_at,
                singleton_key,
                completed_at,
                dead_letter,
                keep_until,
            },
        )
    }
}

/// A builder for a job.
#[derive(Debug)]
pub struct JobBuilder {
    /// Id to assign.
    pub id: Option<u128>,
    /// Name of the queue to put this job onto.
    pub queue_name: String,
    /// Job's payload.
    pub data: String,
    /// Job's priority.
    pub priority: usize,
    /// Dead letter queue for this job.
    pub dead_letter: Option<String>,
    /// Number of retry attempts.
    pub retry_limit: Option<usize>,
    /// Seconds to wait before a retry attempt.
    pub retry_delay: Option<u64>,
    /// Whether to use a backoff between retry attempts.
    pub retry_backoff: Option<bool>,
    /// Seconds this job may be active before it expires.
    pub expire_in: Option<u64>,
    /// When this job may be archived.
    pub keep_until: Option<i64>,
    /// When this job becomes visible to consumers.
    pub start_after: Option<i64>,
    /// For how long only one job instance is allowed, in seconds.
    pub singleton_for: Option<u64>,
    /// Key to use for throttling.
    pub singleton_key: Option<String>,
}

impl JobBuilder {
    /// A builder nothing has been set on.
    pub open spec fn is_unset(&self) -> bool {
        &&& self.id is None
        &&& self.queue_name@ == Seq::<char>::empty()
        &&& self.data@ == Seq::<char>::empty()
        &&& self.priority == 0
        &&& self.dead_letter is None
        &&& self.retry_limit is None
        &&& self.retry_delay is None
        &&& self.retry_backoff is None
        &&& self.expire_in is None
        &&& self.keep_until is None
        &&& self.start_after is None
        &&& self.singleton_for is None
        &&& self.singleton_key is None
    }

    /// Id to assign to this job.
    pub fn id(self, value: u128) -> (r: Self)
        ensures
            r == (JobBuilder { id: Some(value), ..self }),
    {
        JobBuilder { id: Some(value), ..self }
    }

    /// Name of the queue to put this job onto.
    pub fn queue_name(self, value: String) -> (r: Self)
        ensures
            r == (JobBuilder { queue_name: value, ..self }),
    {
        JobBuilder { queue_name: value, ..self }
    }

    /// Job's payload.
    pub fn data(self, value: String) -> (r: Self)
        ensures
            r == (JobBuilder { data: value, ..self }),
    {
        JobBuilder { data: value, ..self }
    }

    /// Job's priority.
    pub fn priority(self, value: usize) -> (r: Self)
        ensures
            r == (JobBuilder { priority: value, ..self }),
    {
        JobBuilder { priority: value, ..self }
    }

    /// Name of the dead letter queue for this job.
    pub fn dead_letter(self, value: String) -> (r: Self)
        ensures
            r == (JobBuilder { dead_letter: Some(value), ..self }),
    {
        JobBuilder { dead_letter: Some(value), ..self }
    }

    /// Maximum number of retry attempts.
    pub fn retry_limit(self, value: usize) -> (r: Self)
        ensures
            r == (JobBuilder { retry_limit: Some(value), ..self }),
    {
        JobBuilder { retry_limit: Some(value), ..self }
    }

    /// Seconds to wait before a retry attempt.
    pub fn retry_delay(self, value: u64) -> (r: Self)
        ensures
            r == (JobBuilder { retry_delay: Some(value), ..self }),
    {
        JobBuilder { retry_delay: Some(value), ..self }
    }

    /// Whether to use a backoff between retry attempts.
    pub fn retry_backoff(self, value: bool) -> (r: Self)
        ensures
            r == (JobBuilder { retry_backoff: Some(value), ..self }),
    {
        JobBuilder { retry_backoff: Some(value), ..self }
    }

    /// Seconds this job may be active before it expires.
    ///
    /// Should be between 1 second and 24 hours, or simply unset (default).
    pub fn expire_in(self, value: u64) -> (r: Self)
        ensures
            r == (JobBuilder { expire_in: Some(value), ..self }),
    {
        JobBuilder { expire_in: Some(value), ..self }
    }

    /// When this job may be archived, as an absolute time.
    pub fn keep_until(self, value: i64) -> (r: Self)
        ensures
            r == (JobBuilder { keep_until: Some(value), ..self }),
    {
        JobBuilder { keep_until: Some(value), ..self }
    }

    /// For how long this job should be retained, counted from `now`.
    ///
    /// Will calculate and set [`JobBuilder::keep_until`].
    pub fn retain_for(self, now: i64, seconds: u64) -> (r: Self)
        requires
            0 <= now,
            now + seconds <= i64::MAX,
        ensures
            r == (JobBuilder { keep_until: Some((now + seconds) as i64), ..self }),
    {
        JobBuilder { keep_until: Some(now + seconds as i64), ..self }
    }

    /// When to make this job visible for consumers.
    pub fn start_after(self, value: i64) -> (r: Self)
        ensures
            r == (JobBuilder { start_after: Some(value), ..self }),
    {
        JobBuilder { start_after: Some(value), ..self }
    }

    /// For how long this job should _not_ be visible to consumers, counted
    /// from `now`.
    ///
    /// A convenience method that, internally, sets
    /// [`JobBuilder::start_after`].
    pub fn delay_for(self, now: i64, seconds: u64) -> (r: Self)
        requires
            0 <= now,
            now + seconds <= i64::MAX,
        ensures
            r == (JobBuilder { start_after: Some((now + seconds) as i64), ..self }),
    {
        JobBuilder { start_after: Some(now + seconds as i64), ..self }
    }

    /// For how long only one job instance is allowed, in seconds.
    pub fn singleton_for(self, value: u64) -> (r: Self)
        ensures
            r == (JobBuilder { singleton_for: Some(value), ..self }),
    {
        JobBuilder { singleton_for: Some(value), ..self }
    }

    /// Key to use for throttling.
    pub fn singleton_key(self, value: String) -> (r: Self)
        ensures
            r == (JobBuilder { singleton_key: Some(value), ..self }),
    {
        JobBuilder { singleton_key: Some(value), ..self }
    }

    /// Creates the job.
    pub fn build(self) -> (r: Job)
        ensures
            r == (Job {
                id: self.id,
                queue_name: self.queue_name,
                data: self.data,
                priority: self.priority,
                dead_letter: self.dead_letter,
                retry_limit: self.retry_limit,
                retry_delay: self.retry_delay,
                retry_backoff: self.retry_backoff,
                expire_in: self.expire_in,
                keep_until: self.keep_until,
                start_after: self.start_after,
                singleton_for: self.singleton_for,
                singleton_key: self.singleton_key,
            }),
    {
        Job {
            id: self.id,
            queue_name: self.queue_name,
            data: self.data,
            priority: self.priority,
            dead_letter: self.dead_letter,
            retry_limit: self.retry_limit,
            retry_delay: self.retry_delay,
            retry_backoff: self.retry_backoff,
            expire_in: self.expire_in,
            keep_until: self.keep_until,
            start_after: self.start_after,
            singleton_for: self.singleton_for,
            singleton_key: self.singleton_key,
        }
    }
}

} // verus!
