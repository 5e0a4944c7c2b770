//! The state-transition rules of one installation, as plain verified
//! computation: one value of [`Database`] stands for the installation's
//! version row, queue table and job table, and each operation changes it
//! exactly as the corresponding SQL statement changes the schema.
//!
//! Everything nondeterministic at the database — `now()`, `random()`,
//! `gen_random_uuid()` — is an explicit argument here, so every rule is a
//! function and is verified for all values of those arguments.

use vstd::prelude::*;
use vstd::string::StringExecFns;

use vstd::arithmetic::div_mod::lemma_fundamental_div_mod;
use vstd::arithmetic::div_mod::lemma_mod_bound;

use crate::error::Error;
use crate::job::JobOptions;
use crate::job::JobState;
use crate::job::spec_state_position;
use crate::queue::Queue;
use crate::queue::QueuePolicy;
use crate::text;

verus! {

/// Largest timestamp (epoch seconds) an operation accepts as input.
pub const TIME_IN_MAX: i64 = 0x0800_0000_0000_0000;

/// Largest timestamp a stored row can carry (inputs plus computed delays).
pub const TIME_WF_MAX: i64 = 0x1000_0000_0000_0000;

/// Bound on `keep_until`, which dead-letter routing can stretch beyond
/// [`TIME_WF_MAX`].
pub const KEEP_WF_MAX: i64 = 0x4000_0000_0000_0000;

/// Ceiling of the database's `int` columns: priority, retry limit and retry
/// count stay at or below it.
pub const INT_COLUMN_MAX: u64 = 0x7FFF_FFFF;

/// Largest retry delay (seconds) a row can carry.
pub const DELAY_MAX: u64 = 0xFFFF_FFFF;

/// Default `expire_in`, in seconds: 15 minutes.
pub const DEFAULT_EXPIRE_SECONDS: u64 = 900;

/// Default retention, in seconds: 14 days.
pub const DEFAULT_KEEP_SECONDS: i64 = 1209600;

/// Default retry limit when neither the job nor the queue sets one.
pub const DEFAULT_RETRY_LIMIT: usize = 2;

/// One row of the `queue` table.
#[derive(Debug)]
pub struct QueueRec {
    /// Queue name, the primary key.
    pub name: String,
    /// Policy applied to this queue's jobs.
    pub policy: QueuePolicy,
    /// Default retry limit for the queue's jobs.
    pub retry_limit: Option<usize>,
    /// Default retry delay, in seconds.
    pub retry_delay: Option<u64>,
    /// Default backoff flag.
    pub retry_backoff: Option<bool>,
    /// Default expiry, in seconds.
    pub expire_seconds: Option<u64>,
    /// Default retention, in minutes.
    pub retention_minutes: Option<u64>,
    /// Default dead letter queue.
    pub dead_letter: Option<String>,
    /// When the row was created.
    pub created_on: i64,
    /// When the row was last updated.
    pub updated_on: i64,
}

/// One row of the `job` table.
#[derive(Debug)]
pub struct JobRec {
    /// Job id; unique together with `name`.
    pub id: u128,
    /// Queue name: the partition the row lives in.
    pub name: String,
    /// Higher is fetched first.
    pub priority: usize,
    /// Payload text, opaque to these rules.
    pub data: String,
    /// Current state.
    pub state: JobState,
    /// Retries allowed before the job fails terminally.
    pub retry_limit: usize,
    /// Retries consumed so far.
    pub retry_count: u64,
    /// Retry delay, in seconds.
    pub retry_delay: u64,
    /// Whether retry delays back off exponentially.
    pub retry_backoff: bool,
    /// The row is invisible to fetch before this time.
    pub start_after: i64,
    /// When the job was last claimed, if ever.
    pub started_on: Option<i64>,
    /// Throttling key.
    pub singleton_key: Option<String>,
    /// Throttling slot: a discretized timestamp used as an equality key.
    pub singleton_on: Option<i64>,
    /// Seconds an active job may run before it is considered expired.
    pub expire_in: u64,
    /// When the row was created.
    pub created_on: i64,
    /// When the job completed, failed or was cancelled.
    pub completed_on: Option<i64>,
    /// When the row may be archived.
    pub keep_until: i64,
    /// Output recorded by completion or failure.
    pub output: Option<String>,
    /// Dead letter queue for terminal failures.
    pub dead_letter: Option<String>,
    /// Policy copied from the queue at submission.
    pub policy: Option<QueuePolicy>,
}

/// The key the throttling indexes compare: the singleton key, with absent
/// and empty collapsed, as `COALESCE(singleton_key, '')` does.
pub open spec fn key_of(k: Option<String>) -> Seq<char> {
    match k {
        Some(s) => s@,
        None => Seq::<char>::empty(),
    }
}

/// View of an optional string.
pub open spec fn opt_str_view(o: Option<String>) -> Option<Seq<char>> {
    match o {
        Some(s) => Some(s@),
        None => None,
    }
}

impl QueueRec {
    /// Bounds the database's column types put on a queue row.
    pub open spec fn wf(self) -> bool {
        &&& (self.retry_limit matches Some(l) ==> l <= INT_COLUMN_MAX)
        &&& (self.retry_delay matches Some(d) ==> d <= DELAY_MAX)
        &&& (self.retention_minutes matches Some(m) ==> m <= DELAY_MAX)
        &&& 0 <= self.created_on <= TIME_WF_MAX
        &&& 0 <= self.updated_on <= TIME_WF_MAX
    }

    /// An exact copy of the row.
    pub fn duplicate(&self) -> (r: QueueRec)
        ensures
            r == *self,
    {
        QueueRec {
            name: self.name.clone(),
            policy: self.policy,
            retry_limit: self.retry_limit,
            retry_delay: self.retry_delay,
            retry_backoff: self.retry_backoff,
            expire_seconds: self.expire_seconds,
            retention_minutes: self.retention_minutes,
            dead_letter: clone_opt_string(&self.dead_letter),
            created_on: self.created_on,
            updated_on: self.updated_on,
        }
    }
}

impl JobRec {
    /// Bounds the database's column types put on a job row.
    pub open spec fn wf(self) -> bool {
        &&& self.priority <= INT_COLUMN_MAX
        &&& self.retry_limit <= INT_COLUMN_MAX
        &&& self.retry_count <= INT_COLUMN_MAX
        &&& self.retry_delay <= DELAY_MAX
        &&& 0 <= self.start_after <= TIME_WF_MAX
        &&& 0 <= self.created_on <= TIME_WF_MAX
        &&& (self.started_on matches Some(t) ==> 0 <= t <= TIME_WF_MAX)
        &&& (self.singleton_on matches Some(t) ==> 0 <= t <= TIME_WF_MAX)
        &&& (self.completed_on matches Some(t) ==> 0 <= t <= TIME_WF_MAX)
        &&& -KEEP_WF_MAX <= self.keep_until <= KEEP_WF_MAX
        &&& (self.dead_letter is Some ==> 0 <= self.keep_until <= TIME_WF_MAX)
    }

    /// An exact copy of the row.
    pub fn duplicate(&self) -> (r: JobRec)
        ensures
            r == *self,
    {
        JobRec {
            id: self.id,
            name: self.name.clone(),
            priority: self.priority,
            data: self.data.clone(),
            state: self.state,
            retry_limit: self.retry_limit,
            retry_count: self.retry_count,
            retry_delay: self.retry_delay,
            retry_backoff: self.retry_backoff,
            start_after: self.start_after,
            started_on: self.started_on,
            singleton_key: clone_opt_string(&self.singleton_key),
            singleton_on: self.singleton_on,
            expire_in: self.expire_in,
            created_on: self.created_on,
            completed_on: self.completed_on,
            keep_until: self.keep_until,
            output: clone_opt_string(&self.output),
            dead_letter: clone_opt_string(&self.dead_letter),
            policy: self.policy,
        }
    }
}

fn clone_opt_string(o: &Option<String>) -> (r: Option<String>)
    ensures
        r == *o,
{
    match o {
        Some(s) => Some(s.clone()),
        None => None,
    }
}

fn pow2_exec(e: u64) -> (r: u64)
    requires
        e <= 16,
    ensures
        r as nat == vstd::arithmetic::power2::pow2(e as nat),
        r <= 65536,
{
    let mut r: u64 = 1;
    let mut c: u64 = 0;
    proof {
        vstd::arithmetic::power2::lemma2_to64();
    }
    while c < e
        invariant
            c <= e,
            e <= 16,
            r as nat == vstd::arithmetic::power2::pow2(c as nat),
        decreases e - c,
    {
        proof {
            vstd::arithmetic::power2::lemma2_to64();
            if (c as nat) < 16 {
                vstd::arithmetic::power2::lemma_pow2_strictly_increases(c as nat, 16);
            }
            vstd::arithmetic::power2::lemma_pow2_unfold((c + 1) as nat);
        }
        r = r * 2;
        c = c + 1;
    }
    proof {
        vstd::arithmetic::power2::lemma2_to64();
        if (e as nat) < 16 {
            vstd::arithmetic::power2::lemma_pow2_strictly_increases(e as nat, 16);
        }
    }
    r
}

/// Is `id` among the given ids?
fn contains_id(ids: &Vec<u128>, id: u128) -> (r: bool)
    ensures
        r == ids@.contains(id),
{
    let mut k: usize = 0;
    while k < ids.len()
        invariant
            k <= ids@.len(),
            forall|i: int| 0 <= i < k ==> ids@[i] != id,
        decreases ids@.len() - k,
    {
        if ids[k] == id {
            return true;
        }
        k = k + 1;
    }
    false
}

fn scan_state_policy_key(
    rows: &Vec<JobRec>,
    name: &str,
    st: JobState,
    pol: QueuePolicy,
    key: &Option<String>,
) -> (r: bool)
    ensures
        r == Database::spec_state_policy_key_taken(rows@, name@, st, pol, key_of(*key)),
{
    let mut k: usize = 0;
    while k < rows.len()
        invariant
            k <= rows@.len(),
            forall|i: int|
                0 <= i < k ==> !((#[trigger] rows@[i]).name@ == name@ && rows@[i].state == st
                    && rows@[i].policy == Some(pol) && key_of(rows@[i].singleton_key) == key_of(
                    *key,
                )),
        decreases rows@.len() - k,
    {
        let j = &rows[k];
        let policy_hit = match j.policy {
            Some(p) => p == pol,
            None => false,
        };
        if j.state == st && policy_hit && same_key(&j.singleton_key, key) && text::str_eq(
            j.name.as_str(),
            name,
        ) {
            return true;
        }
        k = k + 1;
    }
    false
}

fn scan_slot_taken(rows: &Vec<JobRec>, name: &str, slot: i64, key: &Option<String>) -> (r: bool)
    ensures
        r == Database::spec_slot_taken(rows@, name@, slot as int, key_of(*key)),
{
    let mut k: usize = 0;
    while k < rows.len()
        invariant
            k <= rows@.len(),
            forall|i: int|
                0 <= i < k ==> !((#[trigger] rows@[i]).name@ == name@ && (
                rows@[i].singleton_on matches Some(t) && t == slot) && key_of(
                    rows@[i].singleton_key,
                ) == key_of(*key) && rows@[i].state != JobState::Cancelled),
        decreases rows@.len() - k,
    {
        let j = &rows[k];
        let slot_hit = match j.singleton_on {
            Some(t) => t == slot,
            None => false,
        };
        if slot_hit && !(j.state == JobState::Cancelled) && same_key(&j.singleton_key, key)
            && text::str_eq(j.name.as_str(), name) {
            return true;
        }
        k = k + 1;
    }
    false
}

/// Do two singleton keys collide under `COALESCE(singleton_key, '')`?
fn same_key(a: &Option<String>, b: &Option<String>) -> (r: bool)
    ensures
        r == (key_of(*a) == key_of(*b)),
{
    match (a, b) {
        (None, None) => true,
        (Some(x), Some(y)) => text::str_eq(x.as_str(), y.as_str()),
        (Some(x), None) => {
            let empty = x.as_str().unicode_len() == 0;
            proof {
                if empty {
                    assert(x@ =~= Seq::<char>::empty());
                }
            }
            empty
        },
        (None, Some(y)) => {
            let empty = y.as_str().unicode_len() == 0;
            proof {
                if empty {
                    assert(y@ =~= Seq::<char>::empty());
                }
            }
            empty
        },
    }
}

/// Is some queue named `name` in the table?
pub open spec fn spec_has_queue(qs: Seq<QueueRec>, name: Seq<char>) -> bool {
    exists|k: int| 0 <= k < qs.len() && (#[trigger] qs[k]).name@ == name
}

/// Is some job row keyed `(name, id)` in the table?
pub open spec fn spec_has_job(jobs: Seq<JobRec>, name: Seq<char>, id: u128) -> bool {
    exists|k: int| 0 <= k < jobs.len() && (#[trigger] jobs[k]).name@ == name && jobs[k].id == id
}

/// One installation's state: the version row, the queue table and the job
/// table.
#[derive(Debug)]
pub struct Database {
    /// Whether the version table exists at all.
    pub installed: bool,
    /// The version row's value, meaningful only when installed.
    pub version: i32,
    /// The queue table.
    pub queues: Vec<QueueRec>,
    /// The job table: every partition's rows together.
    pub jobs: Vec<JobRec>,
}

impl Database {
    /// The invariants the schema enforces: unique queue names, the
    /// partitions' primary keys, every job row inside a registered queue's
    /// partition, dead letter references resolving to registered queues,
    /// and the columns' bounds.
    pub open spec fn wf(self) -> bool {
        &&& forall|i: int, j: int|
            0 <= i < j < self.queues@.len() ==> (#[trigger] self.queues@[i]).name@ != (
            #[trigger] self.queues@[j]).name@
        &&& forall|i: int|
            0 <= i < self.queues@.len() ==> (#[trigger] self.queues@[i]).wf()
        &&& forall|k: int|
            0 <= k < self.queues@.len() ==> ((#[trigger] self.queues@[k]).dead_letter matches Some(
                d,
            ) ==> spec_has_queue(self.queues@, d@))
        &&& forall|i: int, j: int|
            0 <= i < j < self.jobs@.len() ==> !((#[trigger] self.jobs@[i]).name@ == (
            #[trigger] self.jobs@[j]).name@ && self.jobs@[i].id == self.jobs@[j].id)
        &&& forall|i: int|
            0 <= i < self.jobs@.len() ==> (#[trigger] self.jobs@[i]).wf()
        &&& forall|i: int|
            0 <= i < self.jobs@.len() ==> spec_has_queue(
                self.queues@,
                (#[trigger] self.jobs@[i]).name@,
            )
        &&& forall|i: int|
            0 <= i < self.jobs@.len() ==> ((#[trigger] self.jobs@[i]).dead_letter matches Some(d)
                ==> spec_has_queue(self.queues@, d@))
    }

    /// An empty, not yet installed schema.
    pub fn new() -> (r: Database)
        ensures
            !r.installed,
            r.queues@.len() == 0,
            r.jobs@.len() == 0,
            r.wf(),
    {
        Database { installed: false, version: 0, queues: Vec::new(), jobs: Vec::new() }
    }

    /// What installation leaves behind: an untouched installation, or the
    /// schema with the current version row written.
    pub open spec fn spec_install(self) -> Database {
        if self.installed {
            self
        } else {
            Database { installed: true, version: crate::CURRENT_APP_VERSION as i32, ..self }
        }
    }

    /// Installs the schema. The first caller writes the current version
    /// row; once a version row exists the tables are left exactly as they
    /// are, so concurrent and repeated installs are safe.
    pub fn install(&mut self)
        ensures
            *final(self) == old(self).spec_install(),
    {
        if !self.installed {
            self.installed = true;
            self.version = crate::CURRENT_APP_VERSION as i32;
        }
    }

    /// Index of the queue named `name`, if registered.
    pub fn find_queue(&self, name: &str) -> (r: Option<usize>)
        ensures
            match r {
                Some(k) => k < self.queues@.len() && self.queues@[k as int].name@ == name@,
                None => !spec_has_queue(self.queues@, name@),
            },
    {
        let mut k: usize = 0;
        while k < self.queues.len()
            invariant
                k <= self.queues@.len(),
                forall|i: int| 0 <= i < k ==> (#[trigger] self.queues@[i]).name@ != name@,
            decreases self.queues@.len() - k,
        {
            if text::str_eq(self.queues[k].name.as_str(), name) {
                return Some(k);
            }
            k = k + 1;
        }
        None
    }

    /// Is some job row keyed `(name, id)` in the table?
    pub fn has_job(&self, name: &str, id: u128) -> (r: bool)
        ensures
            r == spec_has_job(self.jobs@, name@, id),
    {
        let mut k: usize = 0;
        while k < self.jobs.len()
            invariant
                k <= self.jobs@.len(),
                forall|i: int|
                    0 <= i < k ==> !((#[trigger] self.jobs@[i]).name@ == name@ && self.jobs@[i].id
                        == id),
            decreases self.jobs@.len() - k,
        {
            if self.jobs[k].id == id && text::str_eq(self.jobs[k].name.as_str(), name) {
                return true;
            }
            k = k + 1;
        }
        false
    }

    /// The queue row [`create_queue`](Self::create_queue) would insert.
    pub open spec fn spec_queue_rec_fields(rec: QueueRec, q: Queue, now: int) -> bool {
        &&& rec.name@ == q.name@
        &&& rec.policy == q.policy
        &&& opt_str_view(rec.dead_letter) == opt_str_view(q.dead_letter)
        &&& rec.retry_limit == q.retry_limit
        &&& rec.retry_delay == q.retry_delay
        &&& rec.retry_backoff == q.retry_backoff
        &&& rec.expire_seconds == q.expire_in
        &&& rec.retention_minutes == (match q.retain_for {
            Some(s) => Some(s / 60 as u64),
            None => None,
        })
        &&& rec.created_on == now
        &&& rec.updated_on == now
    }

    /// Registers a queue, as the `create_queue` procedure does: inserts the
    /// configuration row with retention discretized to minutes, or returns
    /// silently when the queue already exists.
    ///
    /// A dead letter queue must already be registered (or be the queue
    /// itself); the schema's foreign key enforces that, so it is required
    /// here rather than reported as a typed error.
    pub fn create_queue(&mut self, q: &Queue, now: i64)
        requires
            old(self).wf(),
            0 <= now <= TIME_IN_MAX,
            (q.retry_limit matches Some(l) ==> l <= INT_COLUMN_MAX),
            (q.retry_delay matches Some(d) ==> d <= DELAY_MAX),
            (q.retain_for matches Some(s) ==> s <= DELAY_MAX),
            (q.dead_letter matches Some(d) ==> spec_has_queue(old(self).queues@, d@) || d@
                == q.name@),
        ensures
            final(self).wf(),
            final(self).installed == old(self).installed,
            final(self).version == old(self).version,
            final(self).jobs@ == old(self).jobs@,
            spec_has_queue(old(self).queues@, q.name@) ==> final(self).queues@ == old(
                self,
            ).queues@,
            !spec_has_queue(old(self).queues@, q.name@) ==> final(self).queues@.len() == old(
                self,
            ).queues@.len() + 1 && final(self).queues@.take(old(self).queues@.len() as int) == old(
                self,
            ).queues@ && Self::spec_queue_rec_fields(final(self).queues@.last(), *q, now as int),
    {
        if self.find_queue(q.name.as_str()).is_some() {
            return ;
        }
        let rec = QueueRec {
            name: q.name.clone(),
            policy: q.policy,
            retry_limit: q.retry_limit,
            retry_delay: q.retry_delay,
            retry_backoff: q.retry_backoff,
            expire_seconds: q.expire_in,
            retention_minutes: match &q.retain_for {
                Some(s) => Some(*s / 60),
                None => None,
            },
            dead_letter: clone_opt_string(&q.dead_letter),
            created_on: now,
            updated_on: now,
        };
        self.queues.push(rec);
        proof {
            assert(self.queues@.take(old(self).queues@.len() as int) =~= old(self).queues@);
            assert forall|i: int| 0 <= i < self.jobs@.len() implies spec_has_queue(
                self.queues@,
                (#[trigger] self.jobs@[i]).name@,
            ) by {
                let k = choose|k: int|
                    0 <= k < old(self).queues@.len() && (#[trigger] old(self).queues@[k]).name@
                        == self.jobs@[i].name@;
                assert(self.queues@[k].name@ == self.jobs@[i].name@);
            }
            assert forall|i: int|
                0 <= i < self.jobs@.len() && (#[trigger] self.jobs@[i]).dead_letter is Some
                implies spec_has_queue(self.queues@, self.jobs@[i].dead_letter->0@) by {
                let d = self.jobs@[i].dead_letter->0;
                let k = choose|k: int|
                    0 <= k < old(self).queues@.len() && (#[trigger] old(self).queues@[k]).name@
                        == d@;
                assert(self.queues@[k].name@ == d@);
            }
            assert forall|k: int|
                0 <= k < self.queues@.len() && (#[trigger] self.queues@[k]).dead_letter is Some
                implies spec_has_queue(self.queues@, self.queues@[k].dead_letter->0@) by {
                let d = self.queues@[k].dead_letter->0;
                if k < old(self).queues@.len() {
                    let m = choose|m: int|
                        0 <= m < old(self).queues@.len() && (#[trigger] old(
                            self,
                        ).queues@[m]).name@ == d@;
                    assert(self.queues@[m].name@ == d@);
                } else {
                    if d@ == self.queues@[k].name@ {
                        assert(self.queues@[k].name@ == d@);
                    } else {
                        let m = choose|m: int|
                            0 <= m < old(self).queues@.len() && (#[trigger] old(
                                self,
                            ).queues@[m]).name@ == d@;
                        assert(self.queues@[m].name@ == d@);
                    }
                }
            }
        }
    }
    /// The job rows left after dropping those `drop` selects, in order.
    pub open spec fn spec_rows_kept(jobs: Seq<JobRec>, drop: spec_fn(JobRec) -> bool) -> Seq<
        JobRec,
    >
        decreases jobs.len(),
    {
        if jobs.len() == 0 {
            Seq::<JobRec>::empty()
        } else {
            let prefix = Self::spec_rows_kept(jobs.drop_last(), drop);
            if drop(jobs.last()) {
                prefix
            } else {
                prefix.push(jobs.last())
            }
        }
    }

    /// The job rows `drop` selects, in order.
    pub open spec fn spec_rows_taken(jobs: Seq<JobRec>, drop: spec_fn(JobRec) -> bool) -> Seq<
        JobRec,
    >
        decreases jobs.len(),
    {
        if jobs.len() == 0 {
            Seq::<JobRec>::empty()
        } else {
            let prefix = Self::spec_rows_taken(jobs.drop_last(), drop);
            if drop(jobs.last()) {
                prefix.push(jobs.last())
            } else {
                prefix
            }
        }
    }

    proof fn lemma_rows_kept_props(jobs: Seq<JobRec>, drop: spec_fn(JobRec) -> bool)
        requires
            forall|i: int, j: int|
                0 <= i < j < jobs.len() ==> !((#[trigger] jobs[i]).name@ == (
                #[trigger] jobs[j]).name@ && jobs[i].id == jobs[j].id),
        ensures
            ({
                let r = Self::spec_rows_kept(jobs, drop);
                &&& r.len() + Self::spec_rows_taken(jobs, drop).len() == jobs.len()
                &&& forall|i: int|
                    0 <= i < r.len() ==> jobs.contains(#[trigger] r[i]) && !drop(r[i])
                &&& forall|i: int, j: int|
                    0 <= i < j < r.len() ==> !((#[trigger] r[i]).name@ == (#[trigger] r[j]).name@
                        && r[i].id == r[j].id)
            }),
        decreases jobs.len(),
    {
        if jobs.len() > 0 {
            let prefix = jobs.drop_last();
            Self::lemma_rows_kept_props(prefix, drop);
            let rp = Self::spec_rows_kept(prefix, drop);
            let r = Self::spec_rows_kept(jobs, drop);
            assert forall|i: int| 0 <= i < rp.len() implies jobs.contains(#[trigger] rp[i]) by {
                let k = choose|k: int| 0 <= k < prefix.len() && prefix[k] == rp[i];
                assert(jobs[k] == rp[i]);
            }
            if !drop(jobs.last()) {
                let last = jobs.last();
                assert forall|i: int| 0 <= i < rp.len() implies !((#[trigger] rp[i]).name@
                    == last.name@ && rp[i].id == last.id) by {
                    let k = choose|k: int| 0 <= k < prefix.len() && prefix[k] == rp[i];
                    assert(!(jobs[k].name@ == jobs[jobs.len() - 1].name@ && jobs[k].id
                        == jobs[jobs.len() - 1].id));
                }
                assert(jobs.contains(last));
            }
        }
    }

    /// The rows `drop` selects, taken in order — also the rows of `jobs`
    /// that [`Self::spec_rows_kept`] leaves out.
    proof fn lemma_rows_taken_props(jobs: Seq<JobRec>, drop: spec_fn(JobRec) -> bool)
        requires
            forall|i: int, j: int|
                0 <= i < j < jobs.len() ==> !((#[trigger] jobs[i]).name@ == (
                #[trigger] jobs[j]).name@ && jobs[i].id == jobs[j].id),
        ensures
            ({
                let t = Self::spec_rows_taken(jobs, drop);
                &&& forall|i: int|
                    0 <= i < t.len() ==> jobs.contains(#[trigger] t[i]) && drop(t[i])
                &&& forall|i: int, j: int|
                    0 <= i < j < t.len() ==> !((#[trigger] t[i]).name@ == (#[trigger] t[j]).name@
                        && t[i].id == t[j].id)
            }),
        decreases jobs.len(),
    {
        if jobs.len() > 0 {
            let prefix = jobs.drop_last();
            Self::lemma_rows_taken_props(prefix, drop);
            let tp = Self::spec_rows_taken(prefix, drop);
            assert forall|i: int| 0 <= i < tp.len() implies jobs.contains(#[trigger] tp[i]) by {
                let k = choose|k: int| 0 <= k < prefix.len() && prefix[k] == tp[i];
                assert(jobs[k] == tp[i]);
            }
            if drop(jobs.last()) {
                let last = jobs.last();
                assert forall|i: int| 0 <= i < tp.len() implies !((#[trigger] tp[i]).name@
                    == last.name@ && tp[i].id == last.id) by {
                    let k = choose|k: int| 0 <= k < prefix.len() && prefix[k] == tp[i];
                    assert(!(jobs[k].name@ == jobs[jobs.len() - 1].name@ && jobs[k].id
                        == jobs[jobs.len() - 1].id));
                }
                assert(jobs.contains(last));
            }
        }
    }

    /// Deletes a queue, as the `delete_queue` procedure does: removes the
    /// configuration row and drops the partition with every job in it; jobs
    /// of other queues are untouched.
    ///
    /// The schema's foreign keys refuse to drop a queue that another queue
    /// or another queue's job still names as dead letter, so that is
    /// required here.
    pub fn delete_queue(&mut self, name: &str)
        requires
            old(self).wf(),
            forall|i: int|
                0 <= i < old(self).jobs@.len() ==> !((#[trigger] old(self).jobs@[i]).name@ != name@
                    && (old(self).jobs@[i].dead_letter matches Some(d) && d@ == name@)),
            forall|k: int|
                0 <= k < old(self).queues@.len() ==> !((#[trigger] old(self).queues@[k]).name@
                    != name@ && (old(self).queues@[k].dead_letter matches Some(d) && d@
                    == name@)),
        ensures
            final(self).wf(),
            final(self).installed == old(self).installed,
            final(self).version == old(self).version,
            final(self).jobs@ == Self::spec_rows_kept(
                old(self).jobs@,
                |j: JobRec| j.name@ == name@,
            ),
            !spec_has_queue(final(self).queues@, name@),
            forall|n: Seq<char>|
                n != name@ ==> #[trigger] spec_has_queue(final(self).queues@, n)
                    == spec_has_queue(old(self).queues@, n),
            !spec_has_queue(old(self).queues@, name@) ==> final(self).queues@ == old(
                self,
            ).queues@,
            spec_has_queue(old(self).queues@, name@) ==> ({
                exists|k: int|
                    0 <= k < old(self).queues@.len() && (#[trigger] old(self).queues@[k]).name@
                        == name@ && final(self).queues@ == old(self).queues@.remove(k)
            }),
    {
        proof {
            Self::lemma_rows_kept_props(self.jobs@, |j: JobRec| j.name@ == name@);
        }
        match self.find_queue(name) {
            Some(k) => {
                self.queues.remove(k);
                proof {
                    let oldq = old(self).queues@;
                    let newq = self.queues@;
                    assert forall|i: int| 0 <= i < newq.len() implies oldq.contains(
                        #[trigger] newq[i],
                    ) && newq[i].name@ != name@ by {
                        if i < k {
                            assert(newq[i] == oldq[i]);
                        } else {
                            assert(newq[i] == oldq[i + 1]);
                        }
                    }
                    assert forall|i: int, j: int| 0 <= i < j < newq.len() implies (
                    #[trigger] newq[i]).name@ != (#[trigger] newq[j]).name@ by {
                        if j < k {
                            assert(newq[i] == oldq[i] && newq[j] == oldq[j]);
                        } else if i < k {
                            assert(newq[i] == oldq[i] && newq[j] == oldq[j + 1]);
                        } else {
                            assert(newq[i] == oldq[i + 1] && newq[j] == oldq[j + 1]);
                        }
                    }
                    assert forall|n: Seq<char>|
                        n != name@ && spec_has_queue(oldq, n) implies #[trigger] spec_has_queue(
                        newq,
                        n,
                    ) by {
                        let m = choose|m: int|
                            0 <= m < oldq.len() && (#[trigger] oldq[m]).name@ == n;
                        if m < k {
                            assert(newq[m] == oldq[m]);
                            assert(newq[m].name@ == n);
                        } else {
                            assert(m != k);
                            assert(newq[m - 1] == oldq[m]);
                            assert(newq[m - 1].name@ == n);
                        }
                    }
                    assert forall|n: Seq<char>| #[trigger]
                        spec_has_queue(newq, n) implies spec_has_queue(oldq, n) by {
                        let i = choose|i: int|
                            0 <= i < newq.len() && (#[trigger] newq[i]).name@ == n;
                        let m = choose|m: int| 0 <= m < oldq.len() && oldq[m] == newq[i];
                        assert(oldq[m].name@ == n);
                    }
                }
            },
            None => {
                proof {
                    let oldq = old(self).queues@;
                    assert forall|i: int| 0 <= i < oldq.len() implies oldq.contains(
                        #[trigger] oldq[i],
                    ) && oldq[i].name@ != name@ by {
                        assert(exists|m: int| 0 <= m < oldq.len() && oldq[m] == oldq[i]);
                    }
                }
            },
        }
        let ghost mid_queues = self.queues@;
        proof {
            assert forall|i: int| 0 <= i < mid_queues.len() implies (#[trigger] mid_queues[i]).wf()
            by {
                let m = choose|m: int|
                    0 <= m < old(self).queues@.len() && old(self).queues@[m] == mid_queues[i];
                assert(old(self).queues@[m].wf());
            }
        }
        let mut kept: Vec<JobRec> = Vec::new();
        let mut i: usize = 0;
        while i < self.jobs.len()
            invariant
                i <= self.jobs@.len(),
                kept@ == Self::spec_rows_kept(
                    self.jobs@.take(i as int),
                    |j: JobRec| j.name@ == name@,
                ),
            decreases self.jobs@.len() - i,
        {
            proof {
                assert(self.jobs@.take(i + 1).drop_last() =~= self.jobs@.take(i as int));
                assert(self.jobs@.take(i + 1).last() == self.jobs@[i as int]);
            }
            if !text::str_eq(self.jobs[i].name.as_str(), name) {
                kept.push(self.jobs[i].duplicate());
            }
            i = i + 1;
        }
        proof {
            assert(self.jobs@.take(self.jobs@.len() as int) =~= self.jobs@);
        }
        self.jobs = kept;
        proof {
            let survivors = Self::spec_rows_kept(old(self).jobs@, |j: JobRec| j.name@ == name@);
            assert forall|i: int| 0 <= i < survivors.len() implies spec_has_queue(
                self.queues@,
                (#[trigger] survivors[i]).name@,
            ) && ((#[trigger] survivors[i]).dead_letter matches Some(d) ==> spec_has_queue(
                self.queues@,
                d@,
            )) by {
                let x = survivors[i];
                let k = choose|k: int| 0 <= k < old(self).jobs@.len() && old(self).jobs@[k] == x;
                assert(spec_has_queue(old(self).queues@, x.name@));
                assert(spec_has_queue(self.queues@, x.name@));
                if x.dead_letter is Some {
                    let d = x.dead_letter->0;
                    assert(spec_has_queue(old(self).queues@, d@));
                    assert(d@ != name@);
                    assert(spec_has_queue(self.queues@, d@));
                }
            }
            assert forall|i: int| 0 <= i < survivors.len() implies (#[trigger] survivors[i]).wf()
                by {
                let x = survivors[i];
                let k = choose|k: int| 0 <= k < old(self).jobs@.len() && old(self).jobs@[k] == x;
                assert(old(self).jobs@[k].wf());
            }
            assert forall|k: int|
                0 <= k < self.queues@.len() && (#[trigger] self.queues@[k]).dead_letter is Some
                implies spec_has_queue(self.queues@, self.queues@[k].dead_letter->0@) by {
                let q = self.queues@[k];
                assert(mid_queues.contains(q));
                let m = choose|m: int|
                    0 <= m < old(self).queues@.len() && old(self).queues@[m] == q;
                let d = q.dead_letter->0;
                assert(spec_has_queue(old(self).queues@, d@));
                assert(d@ != name@);
            }
        }
    }

    /// One queue's configuration row, if registered.
    pub fn get_queue(&self, name: &str) -> (r: Option<QueueRec>)
        ensures
            match r {
                Some(rec) => rec.name@ == name@ && self.queues@.contains(rec),
                None => !spec_has_queue(self.queues@, name@),
            },
    {
        match self.find_queue(name) {
            Some(k) => Some(self.queues[k].duplicate()),
            None => None,
        }
    }

    /// Every queue's configuration row, in registration order.
    pub fn get_queues(&self) -> (r: Vec<QueueRec>)
        ensures
            r@ == self.queues@,
    {
        let mut out: Vec<QueueRec> = Vec::new();
        let mut i: usize = 0;
        while i < self.queues.len()
            invariant
                i <= self.queues@.len(),
                out@ == self.queues@.take(i as int),
            decreases self.queues@.len() - i,
        {
            out.push(self.queues[i].duplicate());
            proof {
                assert(out@ =~= self.queues@.take(i + 1));
            }
            i = i + 1;
        }
        proof {
            assert(self.queues@.take(self.queues@.len() as int) =~= self.queues@);
        }
        out
    }

    /// The registered queue named `name` (meaningful only when one exists).
    pub open spec fn spec_queue_named(qs: Seq<QueueRec>, name: Seq<char>) -> QueueRec {
        qs[choose|k: int| 0 <= k < qs.len() && (#[trigger] qs[k]).name@ == name]
    }

    /// The id a submission uses: the caller's, or the generated one.
    pub open spec fn spec_chosen_id(id: Option<u128>, generated: u128) -> u128 {
        match id {
            Some(v) => v,
            None => generated,
        }
    }

    /// The throttling slot for a submission at `now` with slot width `s`:
    /// the floor of `now / s` scaled back to seconds.
    pub open spec fn spec_slot_val(s: u64, now: i64) -> int {
        s * (now as int / s as int)
    }

    /// When the job becomes visible: the job's own time, or now.
    pub open spec fn spec_resolved_start_after(opts: JobOptions, now: i64) -> int {
        match opts.start_after {
            Some(t) => t as int,
            None => now as int,
        }
    }

    /// Expiry: job, else queue, else 15 minutes.
    pub open spec fn spec_resolved_expire(opts: JobOptions, q: QueueRec) -> u64 {
        match opts.expire_in {
            Some(e) => e,
            None => match q.expire_seconds {
                Some(e) => e,
                None => DEFAULT_EXPIRE_SECONDS,
            },
        }
    }

    /// Retry limit: job, else queue, else 2.
    pub open spec fn spec_resolved_retry_limit(opts: JobOptions, q: QueueRec) -> usize {
        match opts.retry_limit {
            Some(l) => l,
            None => match q.retry_limit {
                Some(l) => l,
                None => DEFAULT_RETRY_LIMIT,
            },
        }
    }

    /// Backoff: job, else queue, else false.
    pub open spec fn spec_resolved_backoff(opts: JobOptions, q: QueueRec) -> bool {
        match opts.retry_backoff {
            Some(b) => b,
            None => match q.retry_backoff {
                Some(b) => b,
                None => false,
            },
        }
    }

    /// Retry delay: job, else queue, else 0 — raised to at least 1 when
    /// backoff is in effect.
    pub open spec fn spec_resolved_retry_delay(opts: JobOptions, q: QueueRec) -> u64 {
        let base: u64 = match opts.retry_delay {
            Some(d) => d,
            None => match q.retry_delay {
                Some(d) => d,
                None => 0u64,
            },
        };
        if Self::spec_resolved_backoff(opts, q) && base < 1 {
            1u64
        } else {
            base
        }
    }

    /// Retention deadline: the job's absolute time, else visibility plus the
    /// queue's retention, else visibility plus 14 days.
    pub open spec fn spec_resolved_keep_until(opts: JobOptions, q: QueueRec, now: i64) -> int {
        match opts.keep_until {
            Some(t) => t as int,
            None => match q.retention_minutes {
                Some(m) => Self::spec_resolved_start_after(opts, now) + m * 60,
                None => Self::spec_resolved_start_after(opts, now) + DEFAULT_KEEP_SECONDS,
            },
        }
    }

    /// Dead letter: the job's, else the queue's.
    pub open spec fn spec_resolved_dead_letter(opts: JobOptions, q: QueueRec) -> Option<
        Seq<char>,
    > {
        match opts.dead_letter {
            Some(d) => Some(d@),
            None => opt_str_view(q.dead_letter),
        }
    }

    /// A `created` job of the given policy in this queue holds the key:
    /// what the partial unique indexes over `(name, singleton key)` for one
    /// state and policy reject a second row against.
    pub open spec fn spec_state_policy_key_taken(
        jobs: Seq<JobRec>,
        name: Seq<char>,
        st: JobState,
        pol: QueuePolicy,
        key: Seq<char>,
    ) -> bool {
        exists|k: int|
            0 <= k < jobs.len() && (#[trigger] jobs[k]).name@ == name && jobs[k].state == st
                && jobs[k].policy == Some(pol) && key_of(jobs[k].singleton_key) == key
    }

    /// A non-cancelled job in this queue holds the throttling slot and key:
    /// what the slot index rejects a second row against.
    pub open spec fn spec_slot_taken(
        jobs: Seq<JobRec>,
        name: Seq<char>,
        slot: int,
        key: Seq<char>,
    ) -> bool {
        exists|k: int|
            0 <= k < jobs.len() && (#[trigger] jobs[k]).name@ == name && (
            jobs[k].singleton_on matches Some(t) && t == slot) && key_of(jobs[k].singleton_key)
                == key && jobs[k].state != JobState::Cancelled
    }


    /// Submits a job, as the `create_job` procedure plus the client's error
    /// translation do. Defaults resolve from the queue's configuration; the
    /// checks are tried in the order the schema raises them: no queue row
    /// joins (no queue), then the partition's primary key, then the partial
    /// unique indexes of the `short` and `stately` policies and of the
    /// throttling slot, then the deferred dead letter foreign key.
    ///
    /// `generated_id` stands for the id the server would generate when the
    /// caller supplies none, so it is required to be fresh.
    pub fn create_job(
        &mut self,
        id: Option<u128>,
        generated_id: u128,
        name: &str,
        data: &str,
        opts: &JobOptions,
        now: i64,
    ) -> (r: Result<u128, Error>)
        requires
            old(self).wf(),
            0 <= now <= TIME_IN_MAX,
            opts.priority <= INT_COLUMN_MAX,
            (opts.retry_limit matches Some(l) ==> l <= INT_COLUMN_MAX),
            (opts.retry_delay matches Some(d) ==> d <= DELAY_MAX),
            (opts.keep_until matches Some(t) ==> 0 <= t <= TIME_IN_MAX),
            (opts.start_after matches Some(t) ==> 0 <= t <= TIME_IN_MAX),
            (opts.singleton_for matches Some(s) ==> 1 <= s <= DELAY_MAX),
            id is None ==> !spec_has_job(old(self).jobs@, name@, generated_id),
        ensures
            final(self).wf(),
            final(self).installed == old(self).installed,
            final(self).version == old(self).version,
            final(self).queues@ == old(self).queues@,
            ({
                let jobs = old(self).jobs@;
                let queues = old(self).queues@;
                let q = Self::spec_queue_named(queues, name@);
                let cid = Self::spec_chosen_id(id, generated_id);
                let key = key_of(opts.singleton_key);
                let no_queue = !spec_has_queue(queues, name@);
                let dup = !no_queue && spec_has_job(jobs, name@, cid);
                let i1 = !no_queue && !dup && q.policy == QueuePolicy::Short
                    && Self::spec_state_policy_key_taken(
                    jobs,
                    name@,
                    JobState::Created,
                    QueuePolicy::Short,
                    key,
                );
                let i3 = !no_queue && !dup && !i1 && q.policy == QueuePolicy::Stately
                    && Self::spec_state_policy_key_taken(
                    jobs,
                    name@,
                    JobState::Created,
                    QueuePolicy::Stately,
                    key,
                );
                let i4 = !no_queue && !dup && !i1 && !i3 && (opts.singleton_for matches Some(s)
                    && Self::spec_slot_taken(jobs, name@, Self::spec_slot_val(s, now), key));
                let dl = Self::spec_resolved_dead_letter(*opts, q);
                let dlq_missing = !no_queue && !dup && !i1 && !i3 && !i4 && (dl matches Some(d)
                    && !spec_has_queue(queues, d));
                let ok = !no_queue && !dup && !i1 && !i3 && !i4 && !dlq_missing;
                &&& no_queue ==> (r matches Err(e) && e matches Error::DoesNotExist { msg }
                    && msg@ == "queue does not exist"@)
                &&& dup ==> (r matches Err(e) && e matches Error::Conflict { msg } && msg@
                    == "job with this id already exists"@)
                &&& i1 ==> (r matches Err(e) && e matches Error::Throttled { msg } && msg@
                    == "policy 'short' is applied to jobs with state 'created'"@)
                &&& i3 ==> (r matches Err(e) && e matches Error::Throttled { msg } && msg@
                    == "policy 'stately' is applied to jobs with state 'created', 'retry' or 'active'"@)
                &&& i4 ==> (r matches Err(e) && e matches Error::Throttled { msg } && msg@
                    == "singleton policy applied to jobs with 'singleton_on' property and state not 'cancelled'"@)
                &&& dlq_missing ==> (r matches Err(e) && e matches Error::DoesNotExist { msg }
                    && msg@ == "dead letter queue does not exist"@)
                &&& !ok ==> final(self).jobs@ == jobs
                &&& ok ==> ({
                    let nj = final(self).jobs@.last();
                    &&& r == Ok::<u128, Error>(cid)
                    &&& final(self).jobs@ == jobs.push(nj)
                    &&& nj.id == cid
                    &&& nj.name@ == name@
                    &&& nj.data@ == data@
                    &&& nj.priority == opts.priority
                    &&& nj.state == JobState::Created
                    &&& nj.retry_limit == Self::spec_resolved_retry_limit(*opts, q)
                    &&& nj.retry_count == 0
                    &&& nj.retry_delay == Self::spec_resolved_retry_delay(*opts, q)
                    &&& nj.retry_backoff == Self::spec_resolved_backoff(*opts, q)
                    &&& nj.start_after == Self::spec_resolved_start_after(*opts, now)
                    &&& nj.started_on is None
                    &&& opt_str_view(nj.singleton_key) == opt_str_view(opts.singleton_key)
                    &&& (match opts.singleton_for {
                        Some(s) => nj.singleton_on matches Some(t) && t == Self::spec_slot_val(
                            s,
                            now,
                        ),
                        None => nj.singleton_on is None,
                    })
                    &&& nj.expire_in == Self::spec_resolved_expire(*opts, q)
                    &&& nj.created_on == now
                    &&& nj.completed_on is None
                    &&& nj.keep_until == Self::spec_resolved_keep_until(*opts, q, now)
                    &&& nj.output is None
                    &&& opt_str_view(nj.dead_letter) == dl
                    &&& nj.policy == Some(q.policy)
                })
            }),
    {
        let qi = match self.find_queue(name) {
            Some(k) => k,
            None => {
                return Err(Error::DoesNotExist { msg: "queue does not exist" });
            },
        };
        proof {
            let k = choose|k: int|
                0 <= k < self.queues@.len() && (#[trigger] self.queues@[k]).name@ == name@;
            assert(self.queues@[k] == self.queues@[qi as int]);
            assert(Self::spec_queue_named(self.queues@, name@) == self.queues@[qi as int]);
        }
        let cid = match id {
            Some(v) => v,
            None => generated_id,
        };
        if self.has_job(name, cid) {
            return Err(Error::Conflict { msg: "job with this id already exists" });
        }
        let qpolicy = self.queues[qi].policy;
        if qpolicy == QueuePolicy::Short && scan_state_policy_key(
            &self.jobs,
            name,
            JobState::Created,
            QueuePolicy::Short,
            &opts.singleton_key,
        ) {
            return Err(
                Error::Throttled { msg: "policy 'short' is applied to jobs with state 'created'" },
            );
        }
        if qpolicy == QueuePolicy::Stately && scan_state_policy_key(
            &self.jobs,
            name,
            JobState::Created,
            QueuePolicy::Stately,
            &opts.singleton_key,
        ) {
            return Err(
                Error::Throttled {
                    msg: "policy 'stately' is applied to jobs with state 'created', 'retry' or 'active'",
                },
            );
        }
        let slot: Option<i64> = match opts.singleton_for {
            Some(s) => {
                let now_u: u64 = now as u64;
                let d: u64 = now_u / s;
                proof {
                    lemma_fundamental_div_mod(now_u as int, s as int);
                    lemma_mod_bound(now_u as int, s as int);
                    assert(d * s <= now_u) by (nonlinear_arith)
                        requires
                            now_u >= 0,
                            s >= 1,
                            d == now_u as int / s as int,
                    ;
                }
                let slot_u: u64 = d * s;
                proof {
                    assert(d as int * s as int == s as int * d as int) by (nonlinear_arith);
                    assert(slot_u as int == Self::spec_slot_val(s, now));
                }
                Some(slot_u as i64)
            },
            None => None,
        };
        match slot {
            Some(sl) => {
                if scan_slot_taken(&self.jobs, name, sl, &opts.singleton_key) {
                    return Err(
                        Error::Throttled {
                            msg: "singleton policy applied to jobs with 'singleton_on' property and state not 'cancelled'",
                        },
                    );
                }
            },
            None => {},
        }
        let dl: Option<String> = match &opts.dead_letter {
            Some(d) => Some(d.clone()),
            None => clone_opt_string(&self.queues[qi].dead_letter),
        };
        match &dl {
            Some(d) => {
                if self.find_queue(d.as_str()).is_none() {
                    return Err(Error::DoesNotExist { msg: "dead letter queue does not exist" });
                }
            },
            None => {},
        }
        let retry_limit = match opts.retry_limit {
            Some(l) => l,
            None => match self.queues[qi].retry_limit {
                Some(l) => l,
                None => DEFAULT_RETRY_LIMIT,
            },
        };
        let retry_backoff = match opts.retry_backoff {
            Some(b) => b,
            None => match self.queues[qi].retry_backoff {
                Some(b) => b,
                None => false,
            },
        };
        let base_delay = match opts.retry_delay {
            Some(d) => d,
            None => match self.queues[qi].retry_delay {
                Some(d) => d,
                None => 0,
            },
        };
        let retry_delay = if retry_backoff && base_delay < 1 {
            1
        } else {
            base_delay
        };
        let start_after = match opts.start_after {
            Some(t) => t,
            None => now,
        };
        let expire_in = match opts.expire_in {
            Some(e) => e,
            None => match self.queues[qi].expire_seconds {
                Some(e) => e,
                None => DEFAULT_EXPIRE_SECONDS,
            },
        };
        let keep_until = match opts.keep_until {
            Some(t) => t,
            None => match self.queues[qi].retention_minutes {
                Some(m) => start_after + (m * 60) as i64,
                None => start_after + DEFAULT_KEEP_SECONDS,
            },
        };
        let nj = JobRec {
            id: cid,
            name: String::from_str(name),
            priority: opts.priority,
            data: String::from_str(data),
            state: JobState::Created,
            retry_limit,
            retry_count: 0,
            retry_delay,
            retry_backoff,
            start_after,
            started_on: None,
            singleton_key: clone_opt_string(&opts.singleton_key),
            singleton_on: slot,
            expire_in,
            created_on: now,
            completed_on: None,
            keep_until,
            output: None,
            dead_letter: dl,
            policy: Some(qpolicy),
        };
        self.jobs.push(nj);
        proof {
            assert forall|i: int, j: int| 0 <= i < j < self.jobs@.len() implies !((
            #[trigger] self.jobs@[i]).name@ == (#[trigger] self.jobs@[j]).name@ && self.jobs@[i].id
                == self.jobs@[j].id) by {
                if j == self.jobs@.len() - 1 {
                    assert(!(old(self).jobs@[i].name@ == name@ && old(self).jobs@[i].id == cid));
                }
            }
        }
        Ok(cid)
    }

    /// How many rows of `jobs` satisfy `pred`.
    pub open spec fn spec_count_rows(jobs: Seq<JobRec>, pred: spec_fn(JobRec) -> bool) -> int
        decreases jobs.len(),
    {
        if jobs.len() == 0 {
            0
        } else {
            Self::spec_count_rows(jobs.drop_last(), pred) + if pred(jobs.last()) {
                1int
            } else {
                0int
            }
        }
    }

    proof fn lemma_count_rows_le_len(jobs: Seq<JobRec>, pred: spec_fn(JobRec) -> bool)
        ensures
            0 <= Self::spec_count_rows(jobs, pred) <= jobs.len(),
        decreases jobs.len(),
    {
        if jobs.len() > 0 {
            Self::lemma_count_rows_le_len(jobs.drop_last(), pred);
        }
    }

    /// The row `complete_jobs` touches: an active job of this queue among
    /// the given ids.
    pub open spec fn spec_complete_target(j: JobRec, name: Seq<char>, ids: Seq<u128>) -> bool {
        j.name@ == name && ids.contains(j.id) && j.state == JobState::Active
    }

    /// Completes the targeted active jobs, recording the caller's output,
    /// and reports how many rows that touched; jobs in any other state, of
    /// other queues or outside `ids` are untouched.
    pub fn complete_jobs(&mut self, name: &str, ids: &Vec<u128>, output: &str, now: i64) -> (r:
        usize)
        requires
            old(self).wf(),
            0 <= now <= TIME_IN_MAX,
        ensures
            final(self).wf(),
            final(self).installed == old(self).installed,
            final(self).version == old(self).version,
            final(self).queues@ == old(self).queues@,
            final(self).jobs@.len() == old(self).jobs@.len(),
            forall|k: int|
                0 <= k < old(self).jobs@.len() ==> {
                    let a = #[trigger] old(self).jobs@[k];
                    let b = final(self).jobs@[k];
                    if Self::spec_complete_target(a, name@, ids@) {
                        b == (JobRec {
                            state: JobState::Completed,
                            completed_on: Some(now),
                            output: b.output,
                            ..a
                        }) && opt_str_view(b.output) == Some(output@)
                    } else {
                        b == a
                    }
                },
            r == Self::spec_count_rows(
                old(self).jobs@,
                |j: JobRec| Self::spec_complete_target(j, name@, ids@),
            ),
    {
        let ghost pred = |j: JobRec| Self::spec_complete_target(j, name@, ids@);
        let mut count: usize = 0;
        let mut i: usize = 0;
        while i < self.jobs.len()
            invariant
                old(self).wf(),
                pred == (|j: JobRec| Self::spec_complete_target(j, name@, ids@)),
                self.wf(),
                self.installed == old(self).installed,
                self.version == old(self).version,
                self.queues@ == old(self).queues@,
                self.jobs@.len() == old(self).jobs@.len(),
                0 <= now <= TIME_IN_MAX,
                i <= self.jobs@.len(),
                forall|k: int| i <= k < self.jobs@.len() ==> self.jobs@[k] == old(self).jobs@[k],
                forall|k: int|
                    0 <= k < i ==> {
                        let a = #[trigger] old(self).jobs@[k];
                        let b = self.jobs@[k];
                        if Self::spec_complete_target(a, name@, ids@) {
                            b == (JobRec {
                                state: JobState::Completed,
                                completed_on: Some(now),
                                output: b.output,
                                ..a
                            }) && opt_str_view(b.output) == Some(output@)
                        } else {
                            b == a
                        }
                    },
                count == Self::spec_count_rows(old(self).jobs@.take(i as int), pred),
                count <= i,
            decreases self.jobs@.len() - i,
        {
            proof {
                assert(old(self).jobs@.take(i + 1).drop_last() =~= old(self).jobs@.take(i as int));
                assert(old(self).jobs@.take(i + 1).last() == old(self).jobs@[i as int]);
            }
            let is_target = self.jobs[i].state == JobState::Active && contains_id(
                ids,
                self.jobs[i].id,
            ) && text::str_eq(self.jobs[i].name.as_str(), name);
            if is_target {
                let mut row = self.jobs[i].duplicate();
                row.state = JobState::Completed;
                row.completed_on = Some(now);
                row.output = Some(String::from_str(output));
                self.jobs[i] = row;
                count = count + 1;
            }
            proof {
                assert forall|a: int, b: int| 0 <= a < b < self.jobs@.len() implies !((
                #[trigger] self.jobs@[a]).name@ == (#[trigger] self.jobs@[b]).name@
                    && self.jobs@[a].id == self.jobs@[b].id) by {
                    assert(self.jobs@[a].name@ == old(self).jobs@[a].name@ && self.jobs@[a].id
                        == old(self).jobs@[a].id);
                    assert(self.jobs@[b].name@ == old(self).jobs@[b].name@ && self.jobs@[b].id
                        == old(self).jobs@[b].id);
                }
                assert forall|k: int| 0 <= k < self.jobs@.len() implies (
                #[trigger] self.jobs@[k]).wf() && spec_has_queue(self.queues@, self.jobs@[k].name@)
                    && (self.jobs@[k].dead_letter is Some ==> spec_has_queue(
                    self.queues@,
                    self.jobs@[k].dead_letter->0@,
                )) by {
                    assert(old(self).jobs@[k].wf());
                    assert(spec_has_queue(old(self).queues@, old(self).jobs@[k].name@));
                }
            }
            i = i + 1;
        }
        proof {
            assert(old(self).jobs@.take(old(self).jobs@.len() as int) =~= old(self).jobs@);
        }
        count
    }

    /// The row `cancel_jobs` touches: a non-terminal job (state before
    /// `completed`) of this queue among the given ids.
    pub open spec fn spec_cancel_target(j: JobRec, name: Seq<char>, ids: Seq<u128>) -> bool {
        j.name@ == name && ids.contains(j.id) && spec_state_position(j.state) < 3
    }

    /// Cancels the targeted non-terminal jobs and reports how many rows that
    /// touched. The singleton key is preserved; because the slot index
    /// excludes `cancelled`, a cancelled job frees its throttling slot.
    pub fn cancel_jobs(&mut self, name: &str, ids: &Vec<u128>, now: i64) -> (r: usize)
        requires
            old(self).wf(),
            0 <= now <= TIME_IN_MAX,
        ensures
            final(self).wf(),
            final(self).installed == old(self).installed,
            final(self).version == old(self).version,
            final(self).queues@ == old(self).queues@,
            final(self).jobs@.len() == old(self).jobs@.len(),
            forall|k: int|
                0 <= k < old(self).jobs@.len() ==> {
                    let a = #[trigger] old(self).jobs@[k];
                    let b = final(self).jobs@[k];
                    if Self::spec_cancel_target(a, name@, ids@) {
                        b == (JobRec {
                            state: JobState::Cancelled,
                            completed_on: Some(now),
                            ..a
                        })
                    } else {
                        b == a
                    }
                },
            r == Self::spec_count_rows(
                old(self).jobs@,
                |j: JobRec| Self::spec_cancel_target(j, name@, ids@),
            ),
    {
        let ghost pred = |j: JobRec| Self::spec_cancel_target(j, name@, ids@);
        let mut count: usize = 0;
        let mut i: usize = 0;
        while i < self.jobs.len()
            invariant
                old(self).wf(),
                pred == (|j: JobRec| Self::spec_cancel_target(j, name@, ids@)),
                self.wf(),
                self.installed == old(self).installed,
                self.version == old(self).version,
                self.queues@ == old(self).queues@,
                self.jobs@.len() == old(self).jobs@.len(),
                0 <= now <= TIME_IN_MAX,
                i <= self.jobs@.len(),
                forall|k: int| i <= k < self.jobs@.len() ==> self.jobs@[k] == old(self).jobs@[k],
                forall|k: int|
                    0 <= k < i ==> {
                        let a = #[trigger] old(self).jobs@[k];
                        let b = self.jobs@[k];
                        if Self::spec_cancel_target(a, name@, ids@) {
                            b == (JobRec {
                                state: JobState::Cancelled,
                                completed_on: Some(now),
                                ..a
                            })
                        } else {
                            b == a
                        }
                    },
                count == Self::spec_count_rows(old(self).jobs@.take(i as int), pred),
                count <= i,
            decreases self.jobs@.len() - i,
        {
            proof {
                assert(old(self).jobs@.take(i + 1).drop_last() =~= old(self).jobs@.take(i as int));
                assert(old(self).jobs@.take(i + 1).last() == old(self).jobs@[i as int]);
            }
            let is_target = self.jobs[i].state.position() < 3 && contains_id(ids, self.jobs[i].id)
                && text::str_eq(self.jobs[i].name.as_str(), name);
            if is_target {
                let mut row = self.jobs[i].duplicate();
                row.state = JobState::Cancelled;
                row.completed_on = Some(now);
                self.jobs[i] = row;
                count = count + 1;
            }
            proof {
                assert forall|a: int, b: int| 0 <= a < b < self.jobs@.len() implies !((
                #[trigger] self.jobs@[a]).name@ == (#[trigger] self.jobs@[b]).name@
                    && self.jobs@[a].id == self.jobs@[b].id) by {
                    assert(self.jobs@[a].name@ == old(self).jobs@[a].name@ && self.jobs@[a].id
                        == old(self).jobs@[a].id);
                    assert(self.jobs@[b].name@ == old(self).jobs@[b].name@ && self.jobs@[b].id
                        == old(self).jobs@[b].id);
                }
                assert forall|k: int| 0 <= k < self.jobs@.len() implies (
                #[trigger] self.jobs@[k]).wf() && spec_has_queue(self.queues@, self.jobs@[k].name@)
                    && (self.jobs@[k].dead_letter is Some ==> spec_has_queue(
                    self.queues@,
                    self.jobs@[k].dead_letter->0@,
                )) by {
                    assert(old(self).jobs@[k].wf());
                    assert(spec_has_queue(old(self).queues@, old(self).jobs@[k].name@));
                }
            }
            i = i + 1;
        }
        proof {
            assert(old(self).jobs@.take(old(self).jobs@.len() as int) =~= old(self).jobs@);
        }
        count
    }

    /// The row `resume_jobs` touches: a cancelled job of this queue among
    /// the given ids.
    pub open spec fn spec_resume_target(j: JobRec, name: Seq<char>, ids: Seq<u128>) -> bool {
        j.name@ == name && ids.contains(j.id) && j.state == JobState::Cancelled
    }

    /// Resumes the targeted cancelled jobs back to `created` and reports how
    /// many rows that touched; everything else about each row, `start_after`
    /// included, stays as it was.
    pub fn resume_jobs(&mut self, name: &str, ids: &Vec<u128>) -> (r: usize)
        requires
            old(self).wf(),
        ensures
            final(self).wf(),
            final(self).installed == old(self).installed,
            final(self).version == old(self).version,
            final(self).queues@ == old(self).queues@,
            final(self).jobs@.len() == old(self).jobs@.len(),
            forall|k: int|
                0 <= k < old(self).jobs@.len() ==> {
                    let a = #[trigger] old(self).jobs@[k];
                    let b = final(self).jobs@[k];
                    if Self::spec_resume_target(a, name@, ids@) {
                        b == (JobRec { state: JobState::Created, completed_on: None, ..a })
                    } else {
                        b == a
                    }
                },
            r == Self::spec_count_rows(
                old(self).jobs@,
                |j: JobRec| Self::spec_resume_target(j, name@, ids@),
            ),
    {
        let ghost pred = |j: JobRec| Self::spec_resume_target(j, name@, ids@);
        let mut count: usize = 0;
        let mut i: usize = 0;
        while i < self.jobs.len()
            invariant
                old(self).wf(),
                pred == (|j: JobRec| Self::spec_resume_target(j, name@, ids@)),
                self.wf(),
                self.installed == old(self).installed,
                self.version == old(self).version,
                self.queues@ == old(self).queues@,
                self.jobs@.len() == old(self).jobs@.len(),
                i <= self.jobs@.len(),
                forall|k: int| i <= k < self.jobs@.len() ==> self.jobs@[k] == old(self).jobs@[k],
                forall|k: int|
                    0 <= k < i ==> {
                        let a = #[trigger] old(self).jobs@[k];
                        let b = self.jobs@[k];
                        if Self::spec_resume_target(a, name@, ids@) {
                            b == (JobRec { state: JobState::Created, completed_on: None, ..a })
                        } else {
                            b == a
                        }
                    },
                count == Self::spec_count_rows(old(self).jobs@.take(i as int), pred),
                count <= i,
            decreases self.jobs@.len() - i,
        {
            proof {
                assert(old(self).jobs@.take(i + 1).drop_last() =~= old(self).jobs@.take(i as int));
                assert(old(self).jobs@.take(i + 1).last() == old(self).jobs@[i as int]);
            }
            let is_target = self.jobs[i].state == JobState::Cancelled && contains_id(
                ids,
                self.jobs[i].id,
            ) && text::str_eq(self.jobs[i].name.as_str(), name);
            if is_target {
                let mut row = self.jobs[i].duplicate();
                row.state = JobState::Created;
                row.completed_on = None;
                self.jobs[i] = row;
                count = count + 1;
            }
            proof {
                assert forall|a: int, b: int| 0 <= a < b < self.jobs@.len() implies !((
                #[trigger] self.jobs@[a]).name@ == (#[trigger] self.jobs@[b]).name@
                    && self.jobs@[a].id == self.jobs@[b].id) by {
                    assert(self.jobs@[a].name@ == old(self).jobs@[a].name@ && self.jobs@[a].id
                        == old(self).jobs@[a].id);
                    assert(self.jobs@[b].name@ == old(self).jobs@[b].name@ && self.jobs@[b].id
                        == old(self).jobs@[b].id);
                }
                assert forall|k: int| 0 <= k < self.jobs@.len() implies (
                #[trigger] self.jobs@[k]).wf() && spec_has_queue(self.queues@, self.jobs@[k].name@)
                    && (self.jobs@[k].dead_letter is Some ==> spec_has_queue(
                    self.queues@,
                    self.jobs@[k].dead_letter->0@,
                )) by {
                    assert(old(self).jobs@[k].wf());
                    assert(spec_has_queue(old(self).queues@, old(self).jobs@[k].name@));
                }
            }
            i = i + 1;
        }
        proof {
            assert(old(self).jobs@.take(old(self).jobs@.len() as int) =~= old(self).jobs@);
        }
        count
    }

    /// The row `delete_jobs` removes: any job of this queue among the given
    /// ids, whatever its state.
    pub open spec fn spec_delete_target(j: JobRec, name: Seq<char>, ids: Seq<u128>) -> bool {
        j.name@ == name && ids.contains(j.id)
    }

    /// Unconditionally deletes the targeted jobs and reports how many rows
    /// that removed.
    pub fn delete_jobs(&mut self, name: &str, ids: &Vec<u128>) -> (r: usize)
        requires
            old(self).wf(),
        ensures
            final(self).wf(),
            final(self).installed == old(self).installed,
            final(self).version == old(self).version,
            final(self).queues@ == old(self).queues@,
            final(self).jobs@ == Self::spec_rows_kept(
                old(self).jobs@,
                |j: JobRec| Self::spec_delete_target(j, name@, ids@),
            ),
            r == Self::spec_count_rows(
                old(self).jobs@,
                |j: JobRec| Self::spec_delete_target(j, name@, ids@),
            ),
            r + final(self).jobs@.len() == old(self).jobs@.len(),
    {
        let ghost drop = |j: JobRec| Self::spec_delete_target(j, name@, ids@);
        proof {
            Self::lemma_rows_kept_props(self.jobs@, drop);
            Self::lemma_count_rows_le_len(self.jobs@, drop);
        }
        let mut kept: Vec<JobRec> = Vec::new();
        let mut count: usize = 0;
        let mut i: usize = 0;
        while i < self.jobs.len()
            invariant
                i <= self.jobs@.len(),
                kept@ == Self::spec_rows_kept(self.jobs@.take(i as int), drop),
                count == Self::spec_count_rows(self.jobs@.take(i as int), drop),
                count <= i,
                drop == (|j: JobRec| Self::spec_delete_target(j, name@, ids@)),
            decreases self.jobs@.len() - i,
        {
            proof {
                assert(self.jobs@.take(i + 1).drop_last() =~= self.jobs@.take(i as int));
                assert(self.jobs@.take(i + 1).last() == self.jobs@[i as int]);
            }
            let is_target = contains_id(ids, self.jobs[i].id) && text::str_eq(
                self.jobs[i].name.as_str(),
                name,
            );
            if is_target {
                count = count + 1;
            } else {
                kept.push(self.jobs[i].duplicate());
            }
            i = i + 1;
        }
        proof {
            assert(self.jobs@.take(self.jobs@.len() as int) =~= self.jobs@);
        }
        self.jobs = kept;
        proof {
            let survivors = Self::spec_rows_kept(old(self).jobs@, drop);
            Self::lemma_rows_kept_count(old(self).jobs@, drop);
            assert forall|i: int| 0 <= i < survivors.len() implies (#[trigger] survivors[i]).wf()
                && spec_has_queue(self.queues@, survivors[i].name@) && (
            survivors[i].dead_letter is Some ==> spec_has_queue(
                self.queues@,
                survivors[i].dead_letter->0@,
            )) by {
                let x = survivors[i];
                let k = choose|k: int| 0 <= k < old(self).jobs@.len() && old(self).jobs@[k] == x;
                assert(old(self).jobs@[k].wf());
                assert(spec_has_queue(old(self).queues@, old(self).jobs@[k].name@));
            }
        }
        count
    }

    proof fn lemma_rows_kept_count(jobs: Seq<JobRec>, drop: spec_fn(JobRec) -> bool)
        ensures
            Self::spec_rows_kept(jobs, drop).len() + Self::spec_count_rows(jobs, drop)
                == jobs.len(),
        decreases jobs.len(),
    {
        if jobs.len() > 0 {
            Self::lemma_rows_kept_count(jobs.drop_last(), drop);
        }
    }

    /// A row fetch may claim: in this queue, not yet active (`created` or
    /// `retry`), and visible.
    pub open spec fn spec_eligible(j: JobRec, name: Seq<char>, now: i64) -> bool {
        j.name@ == name && spec_state_position(j.state) < 2 && j.start_after < now
    }

    /// The fetch order: higher priority first, then earlier creation, then
    /// smaller id.
    pub open spec fn spec_outranks(a: JobRec, b: JobRec) -> bool {
        ||| a.priority > b.priority
        ||| (a.priority == b.priority && a.created_on < b.created_on)
        ||| (a.priority == b.priority && a.created_on == b.created_on && a.id < b.id)
    }

    /// The retry counter after a claim: a first claim does not count, a
    /// re-claim counts once. The counter pins at the database's integer
    /// ceiling, where the database itself would stop counting with an error.
    pub open spec fn spec_bumped_count(j: JobRec) -> u64 {
        if j.started_on is Some {
            if j.retry_count < INT_COLUMN_MAX {
                (j.retry_count + 1) as u64
            } else {
                j.retry_count
            }
        } else {
            j.retry_count
        }
    }

    /// A row as fetch leaves it: promoted to `active`, stamped, counted.
    pub open spec fn spec_claimed(j: JobRec, now: i64) -> JobRec {
        JobRec {
            state: JobState::Active,
            started_on: Some(now),
            retry_count: Self::spec_bumped_count(j),
            ..j
        }
    }

    /// Is some returned row's id this one?
    pub open spec fn spec_in_result(r: Seq<JobRec>, id: u128) -> bool {
        exists|m: int| 0 <= m < r.len() && (#[trigger] r[m]).id == id
    }

    fn outranks(a: &JobRec, b: &JobRec) -> (r: bool)
        ensures
            r == Self::spec_outranks(*a, *b),
    {
        if a.priority > b.priority {
            true
        } else if a.priority == b.priority && a.created_on < b.created_on {
            true
        } else if a.priority == b.priority && a.created_on == b.created_on && a.id < b.id {
            true
        } else {
            false
        }
    }

    /// Fetches and claims up to `limit` jobs, as the fetch statement does:
    /// the eligible rows (not yet active, visible at `now`), best first by
    /// priority, creation time and id, are promoted to `active`, stamped
    /// with `started_on = now`, their retry counter bumped on a re-claim,
    /// and returned enriched.
    pub fn fetch_jobs(&mut self, name: &str, limit: usize, now: i64) -> (r: Vec<JobRec>)
        requires
            old(self).wf(),
            0 <= now <= TIME_IN_MAX,
        ensures
            final(self).wf(),
            final(self).installed == old(self).installed,
            final(self).version == old(self).version,
            final(self).queues@ == old(self).queues@,
            final(self).jobs@.len() == old(self).jobs@.len(),
            ({
                let olds = old(self).jobs@;
                let news = final(self).jobs@;
                &&& r@.len() == vstd::math::min(
                    limit as int,
                    Self::spec_count_rows(
                        olds,
                        |j: JobRec| Self::spec_eligible(j, name@, now),
                    ),
                )
                &&& forall|m: int|
                    0 <= m < r@.len() ==> exists|k: int|
                        0 <= k < olds.len() && Self::spec_eligible(#[trigger] olds[k], name@, now)
                            && #[trigger] r@[m] == Self::spec_claimed(olds[k], now) && news[k]
                            == r@[m]
                &&& forall|m1: int, m2: int|
                    0 <= m1 < m2 < r@.len() ==> (#[trigger] r@[m1]).id != (#[trigger] r@[m2]).id
                &&& forall|k: int|
                    0 <= k < olds.len() ==> #[trigger] news[k] == if (olds[k].name@ == name@
                        && Self::spec_in_result(r@, olds[k].id)) {
                        Self::spec_claimed(olds[k], now)
                    } else {
                        olds[k]
                    }
                &&& forall|m1: int, m2: int|
                    0 <= m1 < m2 < r@.len() ==> !Self::spec_outranks(
                        #[trigger] r@[m2],
                        #[trigger] r@[m1],
                    )
                &&& forall|k: int, m: int|
                    0 <= k < olds.len() && Self::spec_eligible(#[trigger] olds[k], name@, now)
                        && !Self::spec_in_result(r@, olds[k].id) && 0 <= m < r@.len()
                        ==> !Self::spec_outranks(olds[k], #[trigger] r@[m])
            }),
    {
        let ghost olds = self.jobs@;
        let ghost elig = |j: JobRec| Self::spec_eligible(j, name@, now);

        // Collect the indices of the eligible rows.
        let mut idxs: Vec<usize> = Vec::new();
        let mut i: usize = 0;
        while i < self.jobs.len()
            invariant
                olds == self.jobs@,
                elig == (|j: JobRec| Self::spec_eligible(j, name@, now)),
                i <= olds.len(),
                idxs@.len() == Self::spec_count_rows(olds.take(i as int), elig),
                forall|m: int|
                    0 <= m < idxs@.len() ==> (#[trigger] idxs@[m]) < i && Self::spec_eligible(
                        olds[idxs@[m] as int],
                        name@,
                        now,
                    ),
                forall|m1: int, m2: int| 0 <= m1 < m2 < idxs@.len() ==> idxs@[m1] < idxs@[m2],
                forall|k: int|
                    0 <= k < i && Self::spec_eligible(#[trigger] olds[k], name@, now)
                        ==> exists|m: int| 0 <= m < idxs@.len() && (#[trigger] idxs@[m]) as int == k,
            decreases olds.len() - i,
        {
            proof {
                assert(olds.take(i + 1).drop_last() =~= olds.take(i as int));
                assert(olds.take(i + 1).last() == olds[i as int]);
            }
            let ghost pre = idxs@;
            let j = &self.jobs[i];
            let pending = j.state.position() < 2;
            if pending && j.start_after < now && text::str_eq(j.name.as_str(), name) {
                idxs.push(i);
            }
            proof {
                assert forall|k: int|
                    0 <= k < i + 1 && Self::spec_eligible(
                        #[trigger] olds[k],
                        name@,
                        now,
                    ) implies exists|m: int|
                    0 <= m < idxs@.len() && (#[trigger] idxs@[m]) as int == k by {
                    if k == i {
                        assert(idxs@[idxs@.len() - 1] as int == k);
                    } else {
                        let m0 = choose|m: int|
                            0 <= m < pre.len() && (#[trigger] pre[m]) as int == k;
                        assert(idxs@[m0] as int == k);
                    }
                }
            }
            i = i + 1;
        }
        proof {
            assert(olds.take(olds.len() as int) =~= olds);
        }

        // Selection sort on the indices, best row first.
        let total = idxs.len();
        let mut s: usize = 0;
        while s < total
            invariant
                olds == self.jobs@,
                total == idxs@.len(),
                s <= total,
                forall|m: int|
                    0 <= m < idxs@.len() ==> (#[trigger] idxs@[m]) < olds.len()
                        && Self::spec_eligible(olds[idxs@[m] as int], name@, now),
                forall|m1: int, m2: int|
                    0 <= m1 < m2 < idxs@.len() ==> (#[trigger] idxs@[m1]) != (#[trigger] idxs@[m2]),
                forall|k: int|
                    0 <= k < olds.len() && Self::spec_eligible(#[trigger] olds[k], name@, now)
                        ==> exists|m: int| 0 <= m < idxs@.len() && (#[trigger] idxs@[m]) as int == k,
                forall|a: int, b: int|
                    0 <= a < b < idxs@.len() && a < s ==> !Self::spec_outranks(
                        olds[(#[trigger] idxs@[b]) as int],
                        olds[(#[trigger] idxs@[a]) as int],
                    ),
            decreases total - s,
        {
            let mut best: usize = s;
            let mut t: usize = s + 1;
            while t < total
                invariant
                    olds == self.jobs@,
                    total == idxs@.len(),
                    s <= best < t <= total,
                    forall|m: int|
                        0 <= m < idxs@.len() ==> (#[trigger] idxs@[m]) < olds.len(),
                    forall|u: int|
                        s <= u < t ==> !Self::spec_outranks(
                            olds[(#[trigger] idxs@[u]) as int],
                            olds[idxs@[best as int] as int],
                        ),
                decreases total - t,
            {
                if Self::outranks(&self.jobs[idxs[t]], &self.jobs[idxs[best]]) {
                    best = t;
                    proof {
                        assert forall|u: int| s <= u < t + 1 implies !Self::spec_outranks(
                            olds[(#[trigger] idxs@[u]) as int],
                            olds[idxs@[best as int] as int],
                        ) by {
                            if u < t {
                                let x = olds[idxs@[u] as int];
                                let y = olds[idxs@[t as int] as int];
                                assert(!Self::spec_outranks(y, y));
                            }
                        }
                    }
                }
                t = t + 1;
            }
            let ghost pre = idxs@;
            let va = idxs[s];
            let vb = idxs[best];
            idxs[s] = vb;
            idxs[best] = va;
            proof {
                let cur = idxs@;
                assert(cur.len() == pre.len());
                assert forall|m: int| 0 <= m < cur.len() implies (#[trigger] cur[m]) < olds.len()
                    && Self::spec_eligible(olds[cur[m] as int], name@, now) by {
                    if m == s {
                        assert(cur[m] == pre[best as int]);
                    } else if m == best {
                        assert(cur[m] == pre[s as int]);
                    } else {
                        assert(cur[m] == pre[m]);
                    }
                }
                assert forall|m1: int, m2: int| 0 <= m1 < m2 < cur.len() implies (
                #[trigger] cur[m1]) != (#[trigger] cur[m2]) by {
                    let p1: int = if m1 == s {
                        best as int
                    } else if m1 == best {
                        s as int
                    } else {
                        m1
                    };
                    let p2: int = if m2 == s {
                        best as int
                    } else if m2 == best {
                        s as int
                    } else {
                        m2
                    };
                    assert(cur[m1] == pre[p1] && cur[m2] == pre[p2]);
                    assert(p1 != p2);
                }
                assert forall|k: int|
                    0 <= k < olds.len() && Self::spec_eligible(
                        #[trigger] olds[k],
                        name@,
                        now,
                    ) implies exists|m: int| 0 <= m < cur.len() && (#[trigger] cur[m]) as int == k
                    by {
                    let m0 = choose|m: int|
                        0 <= m < pre.len() && (#[trigger] pre[m]) as int == k;
                    if m0 == s {
                        assert(cur[best as int] as int == k);
                    } else if m0 == best {
                        assert(cur[s as int] as int == k);
                    } else {
                        assert(cur[m0] as int == k);
                    }
                }
                assert forall|a: int, b: int|
                    0 <= a < b < cur.len() && a < s + 1 implies !Self::spec_outranks(
                        olds[(#[trigger] cur[b]) as int],
                        olds[(#[trigger] cur[a]) as int],
                    ) by {
                    let pa: int = if a == s {
                        best as int
                    } else if a == best {
                        s as int
                    } else {
                        a
                    };
                    let pb: int = if b == s {
                        best as int
                    } else if b == best {
                        s as int
                    } else {
                        b
                    };
                    assert(cur[a] == pre[pa] && cur[b] == pre[pb]);
                    if a < s {
                        assert(!Self::spec_outranks(olds[pre[pb] as int], olds[pre[pa] as int]));
                    } else {
                        assert(pa == best && pb >= s);
                        assert(!Self::spec_outranks(olds[pre[pb] as int], olds[pre[pa] as int]));
                    }
                }
            }
            s = s + 1;
        }

        // Claim the best `limit` of them.
        let ghost sorted = idxs@;
        let n = if limit < total {
            limit
        } else {
            total
        };
        let mut out: Vec<JobRec> = Vec::new();
        let mut m: usize = 0;
        while m < n
            invariant
                old(self).wf(),
                0 <= now <= TIME_IN_MAX,
                self.installed == old(self).installed,
                self.version == old(self).version,
                self.queues@ == old(self).queues@,
                self.jobs@.len() == olds.len(),
                olds == old(self).jobs@,
                sorted == idxs@,
                n <= total,
                total == sorted.len(),
                m <= n,
                forall|u: int|
                    0 <= u < sorted.len() ==> (#[trigger] sorted[u]) < olds.len()
                        && Self::spec_eligible(olds[sorted[u] as int], name@, now),
                forall|u1: int, u2: int|
                    0 <= u1 < u2 < sorted.len() ==> (#[trigger] sorted[u1]) != (
                    #[trigger] sorted[u2]),
                out@.len() == m,
                forall|u: int|
                    0 <= u < m ==> #[trigger] out@[u] == Self::spec_claimed(
                        olds[sorted[u] as int],
                        now,
                    ) && self.jobs@[sorted[u] as int] == out@[u],
                forall|k: int|
                    0 <= k < olds.len() && !(exists|u: int|
                        0 <= u < m && (#[trigger] sorted[u]) as int == k) ==> #[trigger] self.jobs@[k]
                        == olds[k],
            decreases n - m,
        {
            let k = idxs[m];
            proof {
                assert(self.jobs@[k as int] == olds[k as int]);
            }
            let bumped = match self.jobs[k].started_on {
                Some(_) => {
                    if self.jobs[k].retry_count < (INT_COLUMN_MAX as u64) {
                        self.jobs[k].retry_count + 1
                    } else {
                        self.jobs[k].retry_count
                    }
                },
                None => self.jobs[k].retry_count,
            };
            let mut promoted = self.jobs[k].duplicate();
            promoted.state = JobState::Active;
            promoted.started_on = Some(now);
            promoted.retry_count = bumped;
            let copy = promoted.duplicate();
            self.jobs[k] = promoted;
            out.push(copy);
            proof {
                assert(self.jobs@[k as int] == Self::spec_claimed(olds[k as int], now));
                assert forall|kk: int|
                    0 <= kk < olds.len() && !(exists|u: int|
                        0 <= u < m + 1 && (#[trigger] sorted[u]) as int == kk) implies #[trigger] self.jobs@[kk]
                    == olds[kk] by {
                    assert(kk != k as int);
                }
            }
            m = m + 1;
        }

        proof {
            let news = self.jobs@;
            // The claimed prefix is exactly the returned rows; everything
            // else is untouched.
            assert forall|k: int| 0 <= k < olds.len() implies #[trigger] news[k] == if (
            olds[k].name@ == name@ && Self::spec_in_result(out@, olds[k].id)) {
                Self::spec_claimed(olds[k], now)
            } else {
                olds[k]
            } by {
                if olds[k].name@ == name@ && Self::spec_in_result(out@, olds[k].id) {
                    let u = choose|u: int| 0 <= u < out@.len() && (#[trigger] out@[u]).id
                        == olds[k].id;
                    let kk = sorted[u] as int;
                    assert(olds[kk].name@ == name@ && olds[kk].id == olds[k].id);
                    assert(kk == k);
                    assert(exists|w: int| 0 <= w < n && (#[trigger] sorted[w]) as int == k);
                } else {
                    if exists|u: int| 0 <= u < n && (#[trigger] sorted[u]) as int == k {
                        let u = choose|u: int| 0 <= u < n && (#[trigger] sorted[u]) as int == k;
                        assert(out@[u].id == olds[k].id);
                        assert(Self::spec_in_result(out@, olds[k].id));
                        assert(olds[k].name@ == name@);
                        assert(false);
                    }
                }
            }
            // Distinct ids among the returned rows.
            assert forall|m1: int, m2: int| 0 <= m1 < m2 < out@.len() implies (
            #[trigger] out@[m1]).id != (#[trigger] out@[m2]).id by {
                let k1 = sorted[m1] as int;
                let k2 = sorted[m2] as int;
                assert(k1 != k2);
                assert(olds[k1].name@ == name@ && olds[k2].name@ == name@);
            }
            // Sortedness of the returned rows.
            assert forall|m1: int, m2: int| 0 <= m1 < m2 < out@.len() implies !Self::spec_outranks(
                #[trigger] out@[m2],
                #[trigger] out@[m1],
            ) by {
                let k1 = sorted[m1] as int;
                let k2 = sorted[m2] as int;
                assert(!Self::spec_outranks(olds[k2], olds[k1]));
            }
            // Existential form for each returned row.
            assert forall|u: int| 0 <= u < out@.len() implies exists|k: int|
                0 <= k < olds.len() && Self::spec_eligible(#[trigger] olds[k], name@, now)
                    && #[trigger] out@[u] == Self::spec_claimed(olds[k], now) && news[k]
                    == out@[u] by {
                let k = sorted[u] as int;
                assert(0 <= k < olds.len() && Self::spec_eligible(olds[k], name@, now) && out@[u]
                    == Self::spec_claimed(olds[k], now) && news[k] == out@[u]);
            }
            // A skipped eligible row outranks no returned one.
            assert forall|k: int, u: int|
                0 <= k < olds.len() && Self::spec_eligible(#[trigger] olds[k], name@, now)
                    && !Self::spec_in_result(out@, olds[k].id) && 0 <= u < out@.len()
                    implies !Self::spec_outranks(olds[k], #[trigger] out@[u]) by {
                let t = choose|t: int| 0 <= t < sorted.len() && (#[trigger] sorted[t]) as int == k;
                if t < n {
                    assert(out@[t].id == olds[k].id);
                    assert(false);
                } else {
                    assert(!Self::spec_outranks(olds[sorted[t] as int], olds[sorted[u] as int]));
                    assert(out@[u] == Self::spec_claimed(olds[sorted[u] as int], now));
                }
            }
            // The count.
            Self::lemma_count_rows_le_len(olds, elig);
            // wf of the result.
            assert forall|a: int, b: int| 0 <= a < b < news.len() implies !((
            #[trigger] news[a]).name@ == (#[trigger] news[b]).name@ && news[a].id == news[b].id)
                by {
                assert(news[a].name@ == olds[a].name@ && news[a].id == olds[a].id);
                assert(news[b].name@ == olds[b].name@ && news[b].id == olds[b].id);
            }
            assert forall|k: int| 0 <= k < news.len() implies (#[trigger] news[k]).wf()
                && spec_has_queue(self.queues@, news[k].name@) && (news[k].dead_letter is Some
                ==> spec_has_queue(self.queues@, news[k].dead_letter->0@)) by {
                assert(olds[k].wf());
                assert(spec_has_queue(old(self).queues@, olds[k].name@));
            }
        }
        out
    }

    /// The row `fail_jobs` deletes and re-routes: a non-terminal job (state
    /// before `completed`) of this queue among the given ids.
    pub open spec fn spec_fail_target(j: JobRec, name: Seq<char>, ids: Seq<u128>) -> bool {
        j.name@ == name && ids.contains(j.id) && spec_state_position(j.state) < 3
    }

    /// Equal rows up to the `output` column: how a reinserted row relates to
    /// its shape once the caller's output is written into it.
    pub open spec fn same_except_output(a: JobRec, b: JobRec) -> bool {
        &&& a.id == b.id
        &&& a.name == b.name
        &&& a.priority == b.priority
        &&& a.data == b.data
        &&& a.state == b.state
        &&& a.retry_limit == b.retry_limit
        &&& a.retry_count == b.retry_count
        &&& a.retry_delay == b.retry_delay
        &&& a.retry_backoff == b.retry_backoff
        &&& a.start_after == b.start_after
        &&& a.started_on == b.started_on
        &&& a.singleton_key == b.singleton_key
        &&& a.singleton_on == b.singleton_on
        &&& a.expire_in == b.expire_in
        &&& a.created_on == b.created_on
        &&& a.completed_on == b.completed_on
        &&& a.keep_until == b.keep_until
        &&& a.dead_letter == b.dead_letter
        &&& a.policy == b.policy
    }

    /// What the retry reinsert of `d` can collide with: a `stately` retry
    /// row holding the same key, or a non-cancelled row holding the same
    /// throttling slot and key. On a collision the reinsert is dropped and
    /// the job fails instead, in favor of the row already there.
    pub open spec fn spec_retry_conflict(table: Seq<JobRec>, d: JobRec) -> bool {
        ||| (d.policy == Some(QueuePolicy::Stately) && Self::spec_state_policy_key_taken(
            table,
            d.name@,
            JobState::Retry,
            QueuePolicy::Stately,
            key_of(d.singleton_key),
        ))
        ||| (d.singleton_on matches Some(t) && Self::spec_slot_taken(
            table,
            d.name@,
            t as int,
            key_of(d.singleton_key),
        ))
    }

    /// Seconds until the retry becomes visible: the plain delay, or, with
    /// backoff, half of `delay * 2^min(16, count + 1)` plus a jitter of at
    /// most as much again (`random()` scaled to that half).
    pub open spec fn spec_retry_delay_secs(d: JobRec, jitter: u64) -> int {
        if !d.retry_backoff {
            d.retry_delay as int
        } else {
            let e = vstd::math::min(16, d.retry_count as int + 1);
            let half = d.retry_delay * vstd::arithmetic::power2::pow2(e as nat) / 2;
            half + vstd::math::min(jitter as int, half)
        }
    }

    /// The reinserted retry row, up to its output: same id and fields,
    /// state `retry`, visibility pushed out by the retry delay.
    pub open spec fn spec_retry_row(d: JobRec, now: i64, jitter: u64) -> JobRec {
        JobRec {
            state: JobState::Retry,
            start_after: (now + Self::spec_retry_delay_secs(d, jitter)) as i64,
            completed_on: None,
            ..d
        }
    }

    /// The terminal failure row, up to its output: same id and fields,
    /// state `failed`, completed now.
    pub open spec fn spec_failed_row(d: JobRec, now: i64) -> JobRec {
        JobRec { state: JobState::Failed, completed_on: Some(now), ..d }
    }

    /// The failure pass over the deleted rows, in order: each row with
    /// retries left is reinserted as `retry` unless that collides with a row
    /// already in the table (the kept rows plus the retries reinserted so
    /// far); every other row becomes a `failed` row. Returns the retry rows
    /// and the failed rows, each in order, up to their output column.
    pub open spec fn spec_fail_pass(
        kept: Seq<JobRec>,
        deleted: Seq<JobRec>,
        now: i64,
        jitter: u64,
    ) -> (Seq<JobRec>, Seq<JobRec>)
        decreases deleted.len(),
    {
        if deleted.len() == 0 {
            (Seq::<JobRec>::empty(), Seq::<JobRec>::empty())
        } else {
            let prior = Self::spec_fail_pass(kept, deleted.drop_last(), now, jitter);
            let d = deleted.last();
            if d.retry_count < d.retry_limit && !Self::spec_retry_conflict(kept + prior.0, d) {
                (prior.0.push(Self::spec_retry_row(d, now, jitter)), prior.1)
            } else {
                (prior.0, prior.1.push(Self::spec_failed_row(d, now)))
            }
        }
    }

    /// The failed rows that route to a dead letter queue, in order: those
    /// with a dead letter different from their own queue. A dead letter
    /// naming the queue itself routes nothing.
    pub open spec fn spec_routed(fs: Seq<JobRec>) -> Seq<JobRec>
        decreases fs.len(),
    {
        if fs.len() == 0 {
            Seq::<JobRec>::empty()
        } else {
            let prefix = Self::spec_routed(fs.drop_last());
            let f = fs.last();
            if f.dead_letter is Some && f.dead_letter->0@ != f.name@ {
                prefix.push(f)
            } else {
                prefix
            }
        }
    }

    /// The row dead-letter routing inserts for the failed row `src`: the
    /// source's data, output, retry limit, and its retention stretched by
    /// `keep_until - start_after`; everything else takes the column
    /// defaults.
    pub open spec fn spec_dlq_row_fields(row: JobRec, src: JobRec, id: u128, now: i64) -> bool {
        &&& row.id == id
        &&& row.name == src.dead_letter->0
        &&& row.priority == 0
        &&& row.data == src.data
        &&& row.state == JobState::Created
        &&& row.retry_limit == src.retry_limit
        &&& row.retry_count == 0
        &&& row.retry_delay == 0
        &&& row.retry_backoff == false
        &&& row.start_after == now
        &&& row.started_on is None
        &&& row.singleton_key is None
        &&& row.singleton_on is None
        &&& row.expire_in == DEFAULT_EXPIRE_SECONDS
        &&& row.created_on == now
        &&& row.completed_on is None
        &&& row.keep_until == src.keep_until + (src.keep_until - src.start_after)
        &&& row.dead_letter is None
        &&& row.policy is None
    }

    proof fn lemma_retry_delay_bounds(d: JobRec, jitter: u64)
        requires
            d.retry_delay <= DELAY_MAX,
            d.retry_count <= INT_COLUMN_MAX,
        ensures
            0 <= Self::spec_retry_delay_secs(d, jitter) <= 0x2_0000_0000_0000,
    {
        if d.retry_backoff {
            let e = vstd::math::min(16, d.retry_count as int + 1);
            let p2 = vstd::arithmetic::power2::pow2(e as nat);
            vstd::arithmetic::power2::lemma2_to64();
            if e < 16 {
                vstd::arithmetic::power2::lemma_pow2_strictly_increases(e as nat, 16);
            }
            vstd::arithmetic::mul::lemma_mul_upper_bound(
                d.retry_delay as int,
                DELAY_MAX as int,
                p2 as int,
                65536,
            );
            vstd::arithmetic::mul::lemma_mul_nonnegative(d.retry_delay as int, p2 as int);
            vstd::arithmetic::div_mod::lemma_div_is_ordered(
                d.retry_delay * p2,
                DELAY_MAX * 65536,
                2,
            );
        }
    }

    proof fn lemma_retry_conflict_congruence(t1: Seq<JobRec>, t2: Seq<JobRec>, d: JobRec)
        requires
            t1.len() == t2.len(),
            forall|m: int| 0 <= m < t1.len() ==> Self::same_except_output(t1[m], #[trigger] t2[m]),
        ensures
            Self::spec_retry_conflict(t1, d) == Self::spec_retry_conflict(t2, d),
    {
        let key = key_of(d.singleton_key);
        assert forall|st: JobState, pol: QueuePolicy|
            #[trigger] Self::spec_state_policy_key_taken(t1, d.name@, st, pol, key)
                == Self::spec_state_policy_key_taken(t2, d.name@, st, pol, key) by {
            if Self::spec_state_policy_key_taken(t1, d.name@, st, pol, key) {
                let k = choose|k: int|
                    0 <= k < t1.len() && (#[trigger] t1[k]).name@ == d.name@ && t1[k].state == st
                        && t1[k].policy == Some(pol) && key_of(t1[k].singleton_key) == key;
                assert(t2[k].name@ == d.name@ && t2[k].state == st && t2[k].policy == Some(pol)
                    && key_of(t2[k].singleton_key) == key);
            }
            if Self::spec_state_policy_key_taken(t2, d.name@, st, pol, key) {
                let k = choose|k: int|
                    0 <= k < t2.len() && (#[trigger] t2[k]).name@ == d.name@ && t2[k].state == st
                        && t2[k].policy == Some(pol) && key_of(t2[k].singleton_key) == key;
                assert(t1[k].name@ == d.name@ && t1[k].state == st && t1[k].policy == Some(pol)
                    && key_of(t1[k].singleton_key) == key);
            }
        }
        if d.singleton_on is Some {
            let slot = d.singleton_on->0 as int;
            if Self::spec_slot_taken(t1, d.name@, slot, key) {
                let k = choose|k: int|
                    0 <= k < t1.len() && (#[trigger] t1[k]).name@ == d.name@ && (
                    t1[k].singleton_on matches Some(t) && t == slot) && key_of(
                        t1[k].singleton_key,
                    ) == key && t1[k].state != JobState::Cancelled;
                assert(t2[k].name@ == d.name@ && (t2[k].singleton_on matches Some(t) && t == slot)
                    && key_of(t2[k].singleton_key) == key && t2[k].state != JobState::Cancelled);
            }
            if Self::spec_slot_taken(t2, d.name@, slot, key) {
                let k = choose|k: int|
                    0 <= k < t2.len() && (#[trigger] t2[k]).name@ == d.name@ && (
                    t2[k].singleton_on matches Some(t) && t == slot) && key_of(
                        t2[k].singleton_key,
                    ) == key && t2[k].state != JobState::Cancelled;
                assert(t1[k].name@ == d.name@ && (t1[k].singleton_on matches Some(t) && t == slot)
                    && key_of(t1[k].singleton_key) == key && t1[k].state != JobState::Cancelled);
            }
        }
    }

    proof fn lemma_fail_pass_props(
        kept: Seq<JobRec>,
        deleted: Seq<JobRec>,
        now: i64,
        jitter: u64,
    )
        requires
            forall|i: int, j: int|
                0 <= i < j < deleted.len() ==> !((#[trigger] deleted[i]).name@ == (
                #[trigger] deleted[j]).name@ && deleted[i].id == deleted[j].id),
        ensures
            ({
                let pass = Self::spec_fail_pass(kept, deleted, now, jitter);
                let rs = pass.0;
                let fs = pass.1;
                &&& rs.len() + fs.len() == deleted.len()
                &&& forall|m: int|
                    0 <= m < rs.len() ==> exists|p: int|
                        0 <= p < deleted.len() && #[trigger] rs[m] == Self::spec_retry_row(
                            deleted[p],
                            now,
                            jitter,
                        )
                &&& forall|m: int|
                    0 <= m < fs.len() ==> exists|p: int|
                        0 <= p < deleted.len() && #[trigger] fs[m] == Self::spec_failed_row(
                            deleted[p],
                            now,
                        )
                &&& forall|m1: int, m2: int|
                    0 <= m1 < m2 < rs.len() ==> !((#[trigger] rs[m1]).name@ == (
                    #[trigger] rs[m2]).name@ && rs[m1].id == rs[m2].id)
                &&& forall|m1: int, m2: int|
                    0 <= m1 < m2 < fs.len() ==> !((#[trigger] fs[m1]).name@ == (
                    #[trigger] fs[m2]).name@ && fs[m1].id == fs[m2].id)
                &&& forall|m1: int, m2: int|
                    0 <= m1 < rs.len() && 0 <= m2 < fs.len() ==> !((#[trigger] rs[m1]).name@ == (
                    #[trigger] fs[m2]).name@ && rs[m1].id == fs[m2].id)
            }),
        decreases deleted.len(),
    {
        if deleted.len() > 0 {
            let prefix = deleted.drop_last();
            Self::lemma_fail_pass_props(kept, prefix, now, jitter);
            let prior = Self::spec_fail_pass(kept, prefix, now, jitter);
            let d = deleted.last();
            assert forall|m: int| 0 <= m < prior.0.len() implies !((
            #[trigger] prior.0[m]).name@ == d.name@ && prior.0[m].id == d.id) by {
                let p = choose|p: int|
                    0 <= p < prefix.len() && prior.0[m] == Self::spec_retry_row(
                        prefix[p],
                        now,
                        jitter,
                    );
                assert(!(deleted[p].name@ == deleted[deleted.len() - 1].name@ && deleted[p].id
                    == deleted[deleted.len() - 1].id));
            }
            assert forall|m: int| 0 <= m < prior.1.len() implies !((
            #[trigger] prior.1[m]).name@ == d.name@ && prior.1[m].id == d.id) by {
                let p = choose|p: int|
                    0 <= p < prefix.len() && prior.1[m] == Self::spec_failed_row(prefix[p], now);
                assert(!(deleted[p].name@ == deleted[deleted.len() - 1].name@ && deleted[p].id
                    == deleted[deleted.len() - 1].id));
            }
            assert(deleted[deleted.len() - 1] == d);
        }
    }

    proof fn lemma_routed_props(fs: Seq<JobRec>)
        ensures
            ({
                let routed = Self::spec_routed(fs);
                &&& routed.len() <= fs.len()
                &&& forall|m: int|
                    0 <= m < routed.len() ==> fs.contains(#[trigger] routed[m])
                        && routed[m].dead_letter is Some && routed[m].dead_letter->0@
                        != routed[m].name@
            }),
        decreases fs.len(),
    {
        if fs.len() > 0 {
            let prefix = fs.drop_last();
            Self::lemma_routed_props(prefix);
            let rp = Self::spec_routed(prefix);
            assert forall|m: int| 0 <= m < rp.len() implies fs.contains(#[trigger] rp[m]) by {
                let k = choose|k: int| 0 <= k < prefix.len() && prefix[k] == rp[m];
                assert(fs[k] == rp[m]);
            }
            if fs.last().dead_letter is Some && fs.last().dead_letter->0@ != fs.last().name@ {
                assert(fs.contains(fs.last()));
            }
        }
    }

    proof fn lemma_taken_ids_bounded(rows: Seq<JobRec>, ids: Seq<u128>)
        requires
            forall|i: int| 0 <= i < rows.len() ==> ids.contains((#[trigger] rows[i]).id),
            forall|i: int, j: int|
                0 <= i < j < rows.len() ==> (#[trigger] rows[i]).id != (#[trigger] rows[j]).id,
        ensures
            rows.len() <= ids.len(),
    {
        broadcast use vstd::seq_lib::group_seq_properties;

        let idseq = rows.map_values(|j: JobRec| j.id);
        assert(idseq.no_duplicates());
        idseq.unique_seq_to_set();
        ids.lemma_cardinality_of_set();
        assert forall|x: u128| idseq.to_set().contains(x) implies ids.to_set().contains(x) by {
            let i = choose|i: int| 0 <= i < idseq.len() && idseq[i] == x;
            assert(ids.contains(rows[i].id));
        }
        assert(idseq.to_set().subset_of(ids.to_set()));
        vstd::set_lib::lemma_len_subset(idseq.to_set(), ids.to_set());
    }

    /// Fails the targeted non-terminal jobs, as the failure statement's CTE
    /// chain does: the targeted rows are deleted; each with retries left is
    /// reinserted as `retry` with its delay (and dropped to `failed` if the
    /// reinsert collides with the throttling indexes, in favor of the row
    /// already there); the rest are reinserted as `failed`; and each failed
    /// row whose dead letter names another queue is copied there as a new
    /// job. Returns the count of deleted rows.
    ///
    /// `jitter` stands for the `random()` draw of the backoff, scaled to
    /// half the backoff window and clamped there; `dlq_ids` stand for the
    /// ids the server would generate for the dead-letter copies, so they are
    /// required to be fresh.
    #[verifier::rlimit(100)]
    pub fn fail_jobs(
        &mut self,
        name: &str,
        ids: &Vec<u128>,
        output: &str,
        now: i64,
        jitter: u64,
        dlq_ids: &Vec<u128>,
    ) -> (r: usize)
        requires
            old(self).wf(),
            0 <= now <= TIME_IN_MAX,
            dlq_ids@.len() == ids@.len(),
            forall|m1: int, m2: int|
                0 <= m1 < m2 < dlq_ids@.len() ==> (#[trigger] dlq_ids@[m1]) != (
                #[trigger] dlq_ids@[m2]),
            forall|m: int, k: int|
                0 <= m < dlq_ids@.len() && 0 <= k < old(self).jobs@.len() ==> (
                #[trigger] old(self).jobs@[k]).id != (#[trigger] dlq_ids@[m]),
        ensures
            final(self).wf(),
            final(self).installed == old(self).installed,
            final(self).version == old(self).version,
            final(self).queues@ == old(self).queues@,
            ({
                let olds = old(self).jobs@;
                let target = |j: JobRec| Self::spec_fail_target(j, name@, ids@);
                let kept = Self::spec_rows_kept(olds, target);
                let deleted = Self::spec_rows_taken(olds, target);
                let pass = Self::spec_fail_pass(kept, deleted, now, jitter);
                let routed = Self::spec_routed(pass.1);
                let news = final(self).jobs@;
                &&& r == deleted.len()
                &&& pass.0.len() + pass.1.len() == deleted.len()
                &&& news.len() == kept.len() + pass.0.len() + pass.1.len() + routed.len()
                &&& news.take(kept.len() as int) == kept
                &&& forall|m: int|
                    0 <= m < pass.0.len() ==> Self::same_except_output(
                        #[trigger] news[kept.len() + m],
                        pass.0[m],
                    ) && opt_str_view(news[kept.len() + m].output) == Some(output@)
                &&& forall|m: int|
                    0 <= m < pass.1.len() ==> Self::same_except_output(
                        #[trigger] news[kept.len() + pass.0.len() + m],
                        pass.1[m],
                    ) && opt_str_view(news[kept.len() + pass.0.len() + m].output) == Some(
                        output@,
                    )
                &&& forall|m: int|
                    0 <= m < routed.len() ==> Self::spec_dlq_row_fields(
                        #[trigger] news[kept.len() + pass.0.len() + pass.1.len() + m],
                        routed[m],
                        dlq_ids@[m],
                        now,
                    ) && opt_str_view(
                        news[kept.len() + pass.0.len() + pass.1.len() + m].output,
                    ) == Some(output@)
            }),
    {
        let ghost olds = self.jobs@;
        let ghost target = |j: JobRec| Self::spec_fail_target(j, name@, ids@);

        // Partition the table into the kept rows and the targeted rows.
        let mut working: Vec<JobRec> = Vec::new();
        let mut deleted: Vec<JobRec> = Vec::new();
        let mut i: usize = 0;
        while i < self.jobs.len()
            invariant
                olds == self.jobs@,
                target == (|j: JobRec| Self::spec_fail_target(j, name@, ids@)),
                i <= olds.len(),
                working@ == Self::spec_rows_kept(olds.take(i as int), target),
                deleted@ == Self::spec_rows_taken(olds.take(i as int), target),
            decreases olds.len() - i,
        {
            proof {
                assert(olds.take(i + 1).drop_last() =~= olds.take(i as int));
                assert(olds.take(i + 1).last() == olds[i as int]);
            }
            let j = &self.jobs[i];
            let is_target = j.state.position() < 3 && contains_id(ids, j.id) && text::str_eq(
                j.name.as_str(),
                name,
            );
            if is_target {
                deleted.push(j.duplicate());
            } else {
                working.push(j.duplicate());
            }
            i = i + 1;
        }
        proof {
            assert(olds.take(olds.len() as int) =~= olds);
        }
        let ghost kept_view = Self::spec_rows_kept(olds, target);
        let ghost deleted_view = Self::spec_rows_taken(olds, target);
        let kept_len = working.len();
        let count = deleted.len();
        proof {
            Self::lemma_rows_kept_props(olds, target);
            Self::lemma_rows_taken_props(olds, target);
            assert forall|q: int| 0 <= q < deleted_view.len() implies (
            #[trigger] deleted_view[q]).wf() && spec_has_queue(
                self.queues@,
                deleted_view[q].name@,
            ) && (deleted_view[q].dead_letter is Some ==> spec_has_queue(
                self.queues@,
                deleted_view[q].dead_letter->0@,
            )) && deleted_view[q].name@ == name@ && ids@.contains(deleted_view[q].id) by {
                let k = choose|k: int| 0 <= k < olds.len() && olds[k] == deleted_view[q];
                assert(olds[k].wf());
                assert(spec_has_queue(old(self).queues@, olds[k].name@));
            }
            assert forall|q: int| 0 <= q < kept_view.len() implies (
            #[trigger] kept_view[q]).wf() && spec_has_queue(self.queues@, kept_view[q].name@) && (
            kept_view[q].dead_letter is Some ==> spec_has_queue(
                self.queues@,
                kept_view[q].dead_letter->0@,
            )) by {
                let k = choose|k: int| 0 <= k < olds.len() && olds[k] == kept_view[q];
                assert(olds[k].wf());
                assert(spec_has_queue(old(self).queues@, olds[k].name@));
            }
            Self::lemma_taken_ids_bounded(deleted_view, ids@);
            Self::lemma_fail_pass_props(kept_view, deleted_view, now, jitter);
        }

        // The failure pass: reinsert retries into the working table as we
        // go (their presence throttles later reinserts), gather the failed
        // rows aside.
        let mut failed: Vec<JobRec> = Vec::new();
        let mut p: usize = 0;
        while p < count
            invariant
                old(self).wf(),
                0 <= now <= TIME_IN_MAX,
                self.installed == old(self).installed,
                self.version == old(self).version,
                self.queues@ == old(self).queues@,
                olds == old(self).jobs@,
                target == (|j: JobRec| Self::spec_fail_target(j, name@, ids@)),
                kept_view == Self::spec_rows_kept(olds, target),
                deleted_view == Self::spec_rows_taken(olds, target),
                deleted@ == deleted_view,
                count == deleted_view.len(),
                kept_len == kept_view.len(),
                p <= count,
                forall|q: int| 0 <= q < deleted_view.len() ==> (#[trigger] deleted_view[q]).wf(),
                ({
                    let pass = Self::spec_fail_pass(
                        kept_view,
                        deleted_view.take(p as int),
                        now,
                        jitter,
                    );
                    &&& working@.len() == kept_len + pass.0.len()
                    &&& working@.take(kept_len as int) == kept_view
                    &&& pass.0.len() + pass.1.len() == p
                    &&& forall|m: int|
                        0 <= m < pass.0.len() ==> Self::same_except_output(
                            #[trigger] working@[kept_len + m],
                            pass.0[m],
                        ) && opt_str_view(working@[kept_len + m].output) == Some(output@)
                    &&& failed@.len() == pass.1.len()
                    &&& forall|m: int|
                        0 <= m < pass.1.len() ==> Self::same_except_output(
                            #[trigger] failed@[m],
                            pass.1[m],
                        ) && opt_str_view(failed@[m].output) == Some(output@)
                }),
            decreases count - p,
        {
            proof {
                assert(deleted_view.take(p + 1).drop_last() =~= deleted_view.take(p as int));
                assert(deleted_view.take(p + 1).last() == deleted_view[p as int]);
            }
            let ghost pass_p = Self::spec_fail_pass(
                kept_view,
                deleted_view.take(p as int),
                now,
                jitter,
            );
            let d = &deleted[p];
            let has_retries = d.retry_count < (d.retry_limit as u64);
            let c3 = match d.policy {
                Some(QueuePolicy::Stately) => scan_state_policy_key(
                    &working,
                    d.name.as_str(),
                    JobState::Retry,
                    QueuePolicy::Stately,
                    &d.singleton_key,
                ),
                _ => false,
            };
            let c4 = match d.singleton_on {
                Some(t) => scan_slot_taken(&working, d.name.as_str(), t, &d.singleton_key),
                None => false,
            };
            let conflict = c3 || c4;
            proof {
                let t2 = kept_view + pass_p.0;
                assert forall|mm: int|
                    0 <= mm < working@.len() implies Self::same_except_output(
                    working@[mm],
                    #[trigger] t2[mm],
                ) by {
                    if mm < kept_len {
                        assert(working@.take(kept_len as int)[mm] == working@[mm]);
                        assert(t2[mm] == kept_view[mm]);
                    } else {
                        assert(working@[kept_len + (mm - kept_len)] == working@[mm]);
                        assert(t2[mm] == pass_p.0[mm - kept_len]);
                    }
                }
                Self::lemma_retry_conflict_congruence(working@, t2, *d);
                assert(conflict == Self::spec_retry_conflict(kept_view + pass_p.0, *d));
            }
            if has_retries && !conflict {
                let delay: u64 = if !d.retry_backoff {
                    d.retry_delay
                } else {
                    let rc1 = d.retry_count + 1;
                    let e: u64 = if rc1 < 16 {
                        rc1
                    } else {
                        16
                    };
                    let p2 = pow2_exec(e);
                    proof {
                        vstd::arithmetic::mul::lemma_mul_upper_bound(
                            d.retry_delay as int,
                            DELAY_MAX as int,
                            p2 as int,
                            65536,
                        );
                        vstd::arithmetic::mul::lemma_mul_nonnegative(
                            d.retry_delay as int,
                            p2 as int,
                        );
                        lemma_fundamental_div_mod(d.retry_delay as int * p2 as int, 2);
                        lemma_mod_bound(d.retry_delay as int * p2 as int, 2);
                    }
                    let half = (d.retry_delay * p2) / 2;
                    let j = if jitter < half {
                        jitter
                    } else {
                        half
                    };
                    half + j
                };
                proof {
                    assert(delay as int == Self::spec_retry_delay_secs(*d, jitter));
                }
                let mut row = d.duplicate();
                row.state = JobState::Retry;
                row.start_after = now + (delay as i64);
                row.completed_on = None;
                row.output = Some(String::from_str(output));
                working.push(row);
                proof {
                    assert(working@.take(kept_len as int) =~= working@.drop_last().take(
                        kept_len as int,
                    ));
                }
            } else {
                let mut row = d.duplicate();
                row.state = JobState::Failed;
                row.completed_on = Some(now);
                row.output = Some(String::from_str(output));
                failed.push(row);
            }
            p = p + 1;
        }
        let ghost pass = Self::spec_fail_pass(kept_view, deleted_view, now, jitter);
        proof {
            assert(deleted_view.take(count as int) =~= deleted_view);
        }

        // Dead-letter routing over the failed rows.
        let mut dlq_rows: Vec<JobRec> = Vec::new();
        let mut m: usize = 0;
        let flen = failed.len();
        while m < flen
            invariant
                0 <= now <= TIME_IN_MAX,
                flen == pass.1.len(),
                flen == failed@.len(),
                m <= flen,
                count == deleted_view.len(),
                count <= ids@.len(),
                ids@.len() == dlq_ids@.len(),
                pass == Self::spec_fail_pass(kept_view, deleted_view, now, jitter),
                pass.0.len() + pass.1.len() == count,
                forall|q: int| 0 <= q < deleted_view.len() ==> (#[trigger] deleted_view[q]).wf(),
                forall|mm: int|
                    0 <= mm < pass.1.len() ==> exists|pp: int|
                        0 <= pp < deleted_view.len() && #[trigger] pass.1[mm]
                            == Self::spec_failed_row(deleted_view[pp], now),
                forall|mm: int|
                    0 <= mm < flen ==> Self::same_except_output(
                        #[trigger] failed@[mm],
                        pass.1[mm],
                    ) && opt_str_view(failed@[mm].output) == Some(output@),
                dlq_rows@.len() == Self::spec_routed(pass.1.take(m as int)).len(),
                dlq_rows@.len() <= m,
                forall|u: int|
                    0 <= u < dlq_rows@.len() ==> Self::spec_dlq_row_fields(
                        #[trigger] dlq_rows@[u],
                        Self::spec_routed(pass.1.take(m as int))[u],
                        dlq_ids@[u],
                        now,
                    ) && opt_str_view(dlq_rows@[u].output) == Some(output@),
            decreases flen - m,
        {
            proof {
                assert(pass.1.take(m + 1).drop_last() =~= pass.1.take(m as int));
                assert(pass.1.take(m + 1).last() == pass.1[m as int]);
            }
            let f = &failed[m];
            let route = match &f.dead_letter {
                Some(d) => !text::str_eq(d.as_str(), f.name.as_str()),
                None => false,
            };
            if route {
                proof {
                    let pp = choose|pp: int|
                        0 <= pp < deleted_view.len() && pass.1[m as int]
                            == Self::spec_failed_row(deleted_view[pp], now);
                    assert(deleted_view[pp].wf());
                    assert(0 <= f.keep_until <= TIME_WF_MAX);
                    assert(0 <= f.start_after <= TIME_WF_MAX);
                }
                let dl_name = match &f.dead_letter {
                    Some(d) => d.clone(),
                    None => String::new(),
                };
                let row = JobRec {
                    id: dlq_ids[dlq_rows.len()],
                    name: dl_name,
                    priority: 0,
                    data: f.data.clone(),
                    state: JobState::Created,
                    retry_limit: f.retry_limit,
                    retry_count: 0,
                    retry_delay: 0,
                    retry_backoff: false,
                    start_after: now,
                    started_on: None,
                    singleton_key: None,
                    singleton_on: None,
                    expire_in: DEFAULT_EXPIRE_SECONDS,
                    created_on: now,
                    completed_on: None,
                    keep_until: f.keep_until + (f.keep_until - f.start_after),
                    output: clone_opt_string(&f.output),
                    dead_letter: None,
                    policy: None,
                };
                dlq_rows.push(row);
            }
            m = m + 1;
        }
        proof {
            assert(pass.1.take(flen as int) =~= pass.1);
        }
        let ghost routed = Self::spec_routed(pass.1);
        let ghost w1 = working@;
        let ghost f1 = failed@;
        let ghost d1 = dlq_rows@;

        // Assemble the new table.
        working.append(&mut failed);
        working.append(&mut dlq_rows);
        self.jobs = working;

        proof {
            Self::lemma_routed_props(pass.1);
            let news = self.jobs@;
            let rs_len = pass.0.len();
            let fs_len = pass.1.len();
            assert(news == w1 + f1 + d1);
            assert(w1.len() == kept_len + rs_len);
            assert(f1.len() == fs_len);
            assert(d1.len() == Self::spec_routed(pass.1.take(flen as int)).len());
            assert(d1.len() == routed.len());
            assert(news.take(kept_len as int) =~= kept_view);
            // Each segment of the new table, row by row.
            assert forall|mm: int| 0 <= mm < rs_len implies Self::same_except_output(
                #[trigger] news[kept_len + mm],
                pass.0[mm],
            ) && opt_str_view(news[kept_len + mm].output) == Some(output@) by {
                assert(news[kept_len + mm] == w1[kept_len + mm]);
            }
            assert forall|mm: int| 0 <= mm < fs_len implies Self::same_except_output(
                #[trigger] news[kept_len + rs_len + mm],
                pass.1[mm],
            ) && opt_str_view(news[kept_len + rs_len + mm].output) == Some(output@) by {
                assert(news[kept_len + rs_len + mm] == f1[mm]);
            }
            assert forall|mm: int| 0 <= mm < routed.len() implies Self::spec_dlq_row_fields(
                #[trigger] news[kept_len + rs_len + fs_len + mm],
                Self::spec_routed(pass.1.take(flen as int))[mm],
                dlq_ids@[mm],
                now,
            ) && opt_str_view(news[kept_len + rs_len + fs_len + mm].output) == Some(output@) by {
                assert(news[kept_len + rs_len + fs_len + mm] == d1[mm]);
            }
            assert(Self::spec_routed(pass.1.take(flen as int)) == routed);
            // Identify each segment's rows.
            assert forall|u: int| 0 <= u < news.len() implies (#[trigger] news[u]).wf()
                && spec_has_queue(self.queues@, news[u].name@) && (news[u].dead_letter is Some
                ==> spec_has_queue(self.queues@, news[u].dead_letter->0@)) by {
                if u < kept_len {
                    assert(news[u] == w1[u]);
                    assert(w1.take(kept_len as int)[u] == w1[u]);
                    assert(news[u] == kept_view[u]);
                } else if u < kept_len + rs_len {
                    let mm = u - kept_len;
                    assert(news[kept_len + mm] == news[u]);
                    assert(Self::same_except_output(news[u], pass.0[mm]));
                    let pp = choose|pp: int|
                        0 <= pp < deleted_view.len() && pass.0[mm] == Self::spec_retry_row(
                            deleted_view[pp],
                            now,
                            jitter,
                        );
                    let d = deleted_view[pp];
                    assert(d.wf());
                    assert(spec_has_queue(self.queues@, d.name@));
                    assert(d.dead_letter is Some ==> spec_has_queue(
                        self.queues@,
                        d.dead_letter->0@,
                    ));
                    Self::lemma_retry_delay_bounds(d, jitter);
                } else if u < kept_len + rs_len + fs_len {
                    let mm = u - kept_len - rs_len;
                    assert(news[kept_len + rs_len + mm] == news[u]);
                    assert(Self::same_except_output(news[u], pass.1[mm]));
                    let pp = choose|pp: int|
                        0 <= pp < deleted_view.len() && pass.1[mm] == Self::spec_failed_row(
                            deleted_view[pp],
                            now,
                        );
                    let d = deleted_view[pp];
                    assert(d.wf());
                    assert(spec_has_queue(self.queues@, d.name@));
                    assert(d.dead_letter is Some ==> spec_has_queue(
                        self.queues@,
                        d.dead_letter->0@,
                    ));
                } else {
                    let mm = u - kept_len - rs_len - fs_len;
                    assert(news[kept_len + rs_len + fs_len + mm] == news[u]);
                    assert(Self::spec_dlq_row_fields(news[u], routed[mm], dlq_ids@[mm], now));
                    let src = routed[mm];
                    let k = choose|k: int| 0 <= k < pass.1.len() && pass.1[k] == src;
                    let pp = choose|pp: int|
                        0 <= pp < deleted_view.len() && pass.1[k] == Self::spec_failed_row(
                            deleted_view[pp],
                            now,
                        );
                    let d = deleted_view[pp];
                    assert(d.wf());
                    assert(src.dead_letter == d.dead_letter);
                    assert(spec_has_queue(self.queues@, d.dead_letter->0@));
                    assert(news[u].name@ == d.dead_letter->0@);
                }
            }
            // Pairwise primary keys.
            Self::lemma_fail_pass_props(kept_view, deleted_view, now, jitter);
            // (name, id) of each row, by segment: kept rows and the
            // reinserted rows carry ids of rows of the old table; the
            // dead-letter copies carry the fresh ids.
            assert forall|u: int|
                #![trigger news[u]]
                0 <= u < kept_len + rs_len + fs_len implies exists|k: int|
                0 <= k < olds.len() && (#[trigger] olds[k]).name@ == news[u].name@ && olds[k].id
                    == news[u].id && Self::spec_fail_target(olds[k], name@, ids@) == (u
                    >= kept_len) by {
                if u < kept_len {
                    assert(news[u] == w1[u]);
                    assert(w1.take(kept_len as int)[u] == w1[u]);
                    let x = kept_view[u];
                    let k = choose|k: int| 0 <= k < olds.len() && olds[k] == x;
                    assert(olds[k].name@ == news[u].name@ && olds[k].id == news[u].id);
                } else {
                    let d = if u < kept_len + rs_len {
                        let mm = u - kept_len;
                        assert(news[kept_len + mm] == news[u]);
                        let pp = choose|pp: int|
                            0 <= pp < deleted_view.len() && pass.0[mm] == Self::spec_retry_row(
                                deleted_view[pp],
                                now,
                                jitter,
                            );
                        deleted_view[pp]
                    } else {
                        let mm = u - kept_len - rs_len;
                        assert(news[kept_len + rs_len + mm] == news[u]);
                        let pp = choose|pp: int|
                            0 <= pp < deleted_view.len() && pass.1[mm] == Self::spec_failed_row(
                                deleted_view[pp],
                                now,
                            );
                        deleted_view[pp]
                    };
                    assert(d.name@ == news[u].name@ && d.id == news[u].id);
                    let k = choose|k: int| 0 <= k < olds.len() && olds[k] == d;
                    assert(olds[k].name@ == news[u].name@ && olds[k].id == news[u].id);
                }
            }
            assert forall|a: int, b: int| 0 <= a < b < news.len() implies !((
            #[trigger] news[a]).name@ == (#[trigger] news[b]).name@ && news[a].id == news[b].id)
                by {
                let mid = kept_len + rs_len + fs_len;
                if b >= mid {
                    let mb = b - mid;
                    assert(news[mid + mb] == news[b]);
                    assert(news[b].id == dlq_ids@[mb]);
                    if a >= mid {
                        let ma = a - mid;
                        assert(news[mid + ma] == news[a]);
                        assert(news[a].id == dlq_ids@[ma]);
                        assert(dlq_ids@[ma] != dlq_ids@[mb]);
                    } else {
                        let k = choose|k: int|
                            0 <= k < olds.len() && (#[trigger] olds[k]).name@ == news[a].name@
                                && olds[k].id == news[a].id && Self::spec_fail_target(
                                olds[k],
                                name@,
                                ids@,
                            ) == (a >= kept_len);
                        assert(olds[k].id != dlq_ids@[mb]);
                    }
                } else {
                    let ka = choose|k: int|
                        0 <= k < olds.len() && (#[trigger] olds[k]).name@ == news[a].name@
                            && olds[k].id == news[a].id && Self::spec_fail_target(
                            olds[k],
                            name@,
                            ids@,
                        ) == (a >= kept_len);
                    let kb = choose|k: int|
                        0 <= k < olds.len() && (#[trigger] olds[k]).name@ == news[b].name@
                            && olds[k].id == news[b].id && Self::spec_fail_target(
                            olds[k],
                            name@,
                            ids@,
                        ) == (b >= kept_len);
                    if a < kept_len && b < kept_len {
                        assert(news[a] == w1[a] && news[b] == w1[b]);
                        assert(w1.take(kept_len as int)[a] == w1[a]);
                        assert(w1.take(kept_len as int)[b] == w1[b]);
                        assert(!(kept_view[a].name@ == kept_view[b].name@ && kept_view[a].id
                            == kept_view[b].id));
                    } else if a >= kept_len && b >= kept_len {
                        // Both come from deleted rows; the pass keeps their
                        // pairwise distinct keys.
                        if a < kept_len + rs_len && b < kept_len + rs_len {
                            assert(news[kept_len + (a - kept_len)] == news[a]);
                            assert(news[kept_len + (b - kept_len)] == news[b]);
                            assert(!(pass.0[a - kept_len].name@ == pass.0[b - kept_len].name@
                                && pass.0[a - kept_len].id == pass.0[b - kept_len].id));
                        } else if a < kept_len + rs_len && b >= kept_len + rs_len {
                            assert(news[kept_len + (a - kept_len)] == news[a]);
                            assert(news[kept_len + rs_len + (b - kept_len - rs_len)] == news[b]);
                            assert(!(pass.0[a - kept_len].name@ == pass.1[b - kept_len
                                - rs_len].name@ && pass.0[a - kept_len].id == pass.1[b - kept_len
                                - rs_len].id));
                        } else {
                            assert(news[kept_len + rs_len + (a - kept_len - rs_len)] == news[a]);
                            assert(news[kept_len + rs_len + (b - kept_len - rs_len)] == news[b]);
                            assert(!(pass.1[a - kept_len - rs_len].name@ == pass.1[b - kept_len
                                - rs_len].name@ && pass.1[a - kept_len - rs_len].id == pass.1[b
                                - kept_len - rs_len].id));
                        }
                    } else {
                        // One kept, one reinserted: they sat at different
                        // places of the old table.
                        if ka == kb {
                            assert(false);
                        } else {
                            assert(!(olds[ka].name@ == olds[kb].name@ && olds[ka].id
                                == olds[kb].id));
                        }
                    }
                }
            }
        }
        count
    }

    /// One job's row, if present; the job is not claimed and nothing
    /// changes.
    pub fn get_job(&self, name: &str, id: u128) -> (r: Option<JobRec>)
        ensures
            match r {
                Some(j) => j.name@ == name@ && j.id == id && self.jobs@.contains(j),
                None => !spec_has_job(self.jobs@, name@, id),
            },
    {
        let mut k: usize = 0;
        while k < self.jobs.len()
            invariant
                k <= self.jobs@.len(),
                forall|i: int|
                    0 <= i < k ==> !((#[trigger] self.jobs@[i]).name@ == name@ && self.jobs@[i].id
                        == id),
            decreases self.jobs@.len() - k,
        {
            if self.jobs[k].id == id && text::str_eq(self.jobs[k].name.as_str(), name) {
                return Some(self.jobs[k].duplicate());
            }
            k = k + 1;
        }
        None
    }
}

/// Install idempotence: installing is a no-op on an installed schema, so
/// any number of installs leave exactly what the first one made — and a
/// fresh install writes the current version.
pub proof fn lemma_install_idempotent(db: Database)
    ensures
        db.spec_install().spec_install() == db.spec_install(),
        db.spec_install().installed,
        !db.installed ==> db.spec_install().version == crate::CURRENT_APP_VERSION as i32,
        db.installed ==> db.spec_install() == db,
        db.spec_install().queues == db.queues,
        db.spec_install().jobs == db.jobs,
{
}

/// Partition exclusivity, as these rules model it: in a well-formed state
/// every job row lies in the partition of a registered queue of exactly
/// its own name. (The partition's physical name, `'j' || sha224(queue)`,
/// is composed on the server; these rules key partitions by the queue name
/// itself.)
pub proof fn lemma_partition_exclusivity(db: Database, k: int)
    requires
        db.wf(),
        0 <= k < db.jobs@.len(),
    ensures
        spec_has_queue(db.queues@, db.jobs@[k].name@),
{
}

/// At-most-once claim: rows one fetch claims are gone for the next — two
/// fetches in sequence on the same queue return disjoint ids, whatever
/// their times and batch sizes. `olds`, `mids` and the returned rows are
/// related exactly as the fetch contract states.
pub proof fn lemma_at_most_once_claim(
    olds: Seq<JobRec>,
    mids: Seq<JobRec>,
    r1: Seq<JobRec>,
    r2: Seq<JobRec>,
    name: Seq<char>,
    now1: i64,
    now2: i64,
)
    requires
        forall|i: int, j: int|
            0 <= i < j < mids.len() ==> !((#[trigger] mids[i]).name@ == (#[trigger] mids[j]).name@
                && mids[i].id == mids[j].id),
        mids.len() == olds.len(),
        forall|m: int|
            0 <= m < r1.len() ==> exists|k: int|
                0 <= k < olds.len() && Database::spec_eligible(#[trigger] olds[k], name, now1)
                    && #[trigger] r1[m] == Database::spec_claimed(olds[k], now1) && mids[k]
                    == r1[m],
        forall|m: int|
            0 <= m < r2.len() ==> exists|k: int|
                0 <= k < mids.len() && Database::spec_eligible(#[trigger] mids[k], name, now2)
                    && #[trigger] r2[m] == Database::spec_claimed(mids[k], now2),
    ensures
        forall|m1: int, m2: int|
            0 <= m1 < r1.len() && 0 <= m2 < r2.len() ==> (#[trigger] r1[m1]).id != (
            #[trigger] r2[m2]).id,
{
    assert forall|m1: int, m2: int|
        0 <= m1 < r1.len() && 0 <= m2 < r2.len() implies (#[trigger] r1[m1]).id != (
    #[trigger] r2[m2]).id by {
        let k1 = choose|k: int|
            0 <= k < olds.len() && Database::spec_eligible(#[trigger] olds[k], name, now1)
                && r1[m1] == Database::spec_claimed(olds[k], now1) && mids[k] == r1[m1];
        let k2 = choose|k: int|
            0 <= k < mids.len() && Database::spec_eligible(#[trigger] mids[k], name, now2)
                && r2[m2] == Database::spec_claimed(mids[k], now2);
        if r1[m1].id == r2[m2].id {
            assert(mids[k1].state == JobState::Active);
            assert(spec_state_position(mids[k2].state) < 2);
            assert(k1 != k2);
            assert(mids[k1].name@ == name && mids[k2].name@ == name);
            assert(mids[k1].id == r1[m1].id && mids[k2].id == r2[m2].id);
            assert(false);
        }
    }
}

/// Retry reinjection: failing one job with retries left, whose reinsert
/// nothing throttles, leaves exactly one reinserted row for it — same id,
/// state `retry`, counter unchanged, visibility pushed out by the retry
/// delay: never before `now`, and exactly `now + retry_delay` without
/// backoff.
pub proof fn lemma_retry_reinjection(kept: Seq<JobRec>, d: JobRec, now: i64, jitter: u64)
    requires
        d.retry_count < d.retry_limit,
        !Database::spec_retry_conflict(kept, d),
        d.retry_delay <= DELAY_MAX,
        d.retry_count <= INT_COLUMN_MAX,
        0 <= now <= TIME_IN_MAX,
    ensures
        ({
            let pass = Database::spec_fail_pass(kept, seq![d], now, jitter);
            &&& pass.0.len() == 1
            &&& pass.1.len() == 0
            &&& pass.0[0].id == d.id
            &&& pass.0[0].name == d.name
            &&& pass.0[0].state == JobState::Retry
            &&& pass.0[0].retry_count == d.retry_count
            &&& pass.0[0].start_after >= now
            &&& !d.retry_backoff ==> pass.0[0].start_after == now + d.retry_delay
        }),
{
    let one = seq![d];
    assert(one.drop_last() =~= Seq::<JobRec>::empty());
    assert(Database::spec_fail_pass(kept, Seq::<JobRec>::empty(), now, jitter) == (
    Seq::<JobRec>::empty(), Seq::<JobRec>::empty()));
    let prior = Database::spec_fail_pass(kept, one.drop_last(), now, jitter);
    assert(kept + prior.0 =~= kept);
    assert(one.last() == d);
    Database::lemma_retry_delay_bounds(d, jitter);
}

/// A terminal failure routes once: failing one job at its retry limit
/// yields exactly one `failed` row, and when its dead letter names another
/// queue, exactly that one row routes there.
pub proof fn lemma_terminal_failure_routes_once(
    kept: Seq<JobRec>,
    d: JobRec,
    now: i64,
    jitter: u64,
)
    requires
        d.retry_count >= d.retry_limit,
        d.dead_letter is Some,
        d.dead_letter->0@ != d.name@,
    ensures
        ({
            let pass = Database::spec_fail_pass(kept, seq![d], now, jitter);
            let routed = Database::spec_routed(pass.1);
            &&& pass.0.len() == 0
            &&& pass.1.len() == 1
            &&& pass.1[0] == Database::spec_failed_row(d, now)
            &&& routed.len() == 1
            &&& routed[0] == pass.1[0]
        }),
{
    let one = seq![d];
    assert(one.drop_last() =~= Seq::<JobRec>::empty());
    assert(Database::spec_fail_pass(kept, Seq::<JobRec>::empty(), now, jitter) == (
    Seq::<JobRec>::empty(), Seq::<JobRec>::empty()));
    assert(one.last() == d);
    let pass = Database::spec_fail_pass(kept, one, now, jitter);
    assert(pass.1 =~= seq![Database::spec_failed_row(d, now)]);
    assert(pass.1.drop_last() =~= Seq::<JobRec>::empty());
    assert(Database::spec_routed(Seq::<JobRec>::empty()) =~= Seq::<JobRec>::empty());
}

/// Dead-letter self-loop suppression: a terminal failure whose dead letter
/// is the queue itself produces the `failed` row and routes nothing.
pub proof fn lemma_dlq_self_loop_suppressed(kept: Seq<JobRec>, d: JobRec, now: i64, jitter: u64)
    requires
        d.retry_count >= d.retry_limit,
        d.dead_letter is Some,
        d.dead_letter->0@ == d.name@,
    ensures
        ({
            let pass = Database::spec_fail_pass(kept, seq![d], now, jitter);
            &&& pass.0.len() == 0
            &&& pass.1.len() == 1
            &&& pass.1[0] == Database::spec_failed_row(d, now)
            &&& Database::spec_routed(pass.1).len() == 0
        }),
{
    let one = seq![d];
    assert(one.drop_last() =~= Seq::<JobRec>::empty());
    assert(Database::spec_fail_pass(kept, Seq::<JobRec>::empty(), now, jitter) == (
    Seq::<JobRec>::empty(), Seq::<JobRec>::empty()));
    assert(one.last() == d);
    let pass = Database::spec_fail_pass(kept, one, now, jitter);
    assert(pass.1 =~= seq![Database::spec_failed_row(d, now)]);
    assert(pass.1.drop_last() =~= Seq::<JobRec>::empty());
    assert(Database::spec_routed(Seq::<JobRec>::empty()) =~= Seq::<JobRec>::empty());
}

/// Throttling, slot form: once a submission's row occupies a slot and key,
/// the slot index rejects any further row for the same slot and key while
/// that row is not cancelled — a second identical submission is throttled.
pub proof fn lemma_slot_throttles_next(
    jobs: Seq<JobRec>,
    nj: JobRec,
    name: Seq<char>,
    slot: int,
    key: Seq<char>,
)
    requires
        nj.name@ == name,
        (nj.singleton_on matches Some(t) && t == slot),
        key_of(nj.singleton_key) == key,
        nj.state != JobState::Cancelled,
    ensures
        Database::spec_slot_taken(jobs.push(nj), name, slot, key),
{
    assert(jobs.push(nj)[jobs.len() as int] == nj);
}

/// Throttling, policy form: once a queued row of a policy holds a key, the
/// policy's partial unique index rejects any further row in the same state
/// with the same key — a second identical submission is throttled.
pub proof fn lemma_policy_throttles_next(
    jobs: Seq<JobRec>,
    nj: JobRec,
    name: Seq<char>,
    st: JobState,
    pol: QueuePolicy,
    key: Seq<char>,
)
    requires
        nj.name@ == name,
        nj.state == st,
        nj.policy == Some(pol),
        key_of(nj.singleton_key) == key,
    ensures
        Database::spec_state_policy_key_taken(jobs.push(nj), name, st, pol, key),
{
    assert(jobs.push(nj)[jobs.len() as int] == nj);
}

/// Cancel-resume round trip: a cancelled job is a resume target, and
/// resuming it yields state `created` with `start_after` — and every other
/// column except `completed_on`, which resume clears — exactly as before
/// the cancel.
pub proof fn lemma_cancel_resume_round_trip(a: JobRec, name: Seq<char>, ids: Seq<u128>, now: i64)
    requires
        Database::spec_cancel_target(a, name, ids),
    ensures
        ({
            let cancelled = JobRec {
                state: JobState::Cancelled,
                completed_on: Some(now),
                ..a
            };
            let resumed = JobRec { state: JobState::Created, completed_on: None, ..cancelled };
            &&& Database::spec_resume_target(cancelled, name, ids)
            &&& resumed == (JobRec { state: JobState::Created, completed_on: None, ..a })
            &&& resumed.start_after == a.start_after
            &&& resumed.state == JobState::Created
        }),
{
}

} // verus!
