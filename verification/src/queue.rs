//! Queue policies and queue configuration, with a builder.

use vstd::prelude::*;
use vstd::string::StringExecFns;

use crate::text;

verus! {

/// Policy applied to the jobs of a queue.
///
/// The policy selects which partial unique indexes throttle submissions to
/// the queue's partition.
#[derive(Debug, Clone, Copy, PartialEq, Eq, Structural)]
pub enum QueuePolicy {
    /// All standard features such as deferral, priority, and throttling;
    /// no policy-level cap.
    Standard,
    /// Standard features, but only one job may be queued (state `created`)
    /// per singleton key; unlimited active.
    Short,
    /// Standard features, but only one job may be active per singleton key;
    /// unlimited queued.
    Singleton,
    /// Short and singleton combined: one job per state and singleton key,
    /// queued and/or active.
    Stately,
}

impl Default for QueuePolicy {
    fn default() -> (r: Self)
        ensures
            r == QueuePolicy::Standard,
    {
        QueuePolicy::Standard
    }
}

/// The textual label the database uses for a policy.
pub open spec fn spec_policy_label(p: QueuePolicy) -> Seq<char> {
    match p {
        QueuePolicy::Standard => "standard"@,
        QueuePolicy::Short => "short"@,
        QueuePolicy::Singleton => "singleton"@,
        QueuePolicy::Stately => "stately"@,
    }
}

/// The policy a label names, if any.
pub open spec fn spec_parse_policy(s: Seq<char>) -> Option<QueuePolicy> {
    if s == "standard"@ {
        Some(QueuePolicy::Standard)
    } else if s == "short"@ {
        Some(QueuePolicy::Short)
    } else if s == "singleton"@ {
        Some(QueuePolicy::Singleton)
    } else if s == "stately"@ {
        Some(QueuePolicy::Stately)
    } else {
        None
    }
}

impl QueuePolicy {
    /// The textual label the database uses for this policy.
    pub fn as_str(&self) -> (r: &'static str)
        ensures
            r@ == spec_policy_label(*self),
    {
        match self {
            QueuePolicy::Standard => "standard",
            QueuePolicy::Short => "short",
            QueuePolicy::Singleton => "singleton",
            QueuePolicy::Stately => "stately",
        }
    }

    /// Parses a database label; unknown labels are reported back in the error.
    pub fn try_from(value: &str) -> (r: Result<QueuePolicy, String>)
        ensures
            match spec_parse_policy(value@) {
                Some(p) => r == Ok::<QueuePolicy, String>(p),
                None => (r matches Err(m) && m@ == "Unsupported queue policy: "@ + value@),
            },
    {
        if text::str_eq(value, "standard") {
            Ok(QueuePolicy::Standard)
        } else if text::str_eq(value, "short") {
            Ok(QueuePolicy::Short)
        } else if text::str_eq(value, "singleton") {
            Ok(QueuePolicy::Singleton)
        } else if text::str_eq(value, "stately") {
            Ok(QueuePolicy::Stately)
        } else {
            let mut m = String::from_str("Unsupported queue policy: ");
            m.append(value);
            Err(m)
        }
    }
}

/// Queue configuration, as handed to queue registration.
///
/// Durations are plain values: `retry_delay`, `expire_in` and `retain_for`
/// are in seconds.
#[derive(Debug)]
pub struct Queue {
    /// Queue name.
    pub name: String,
    /// Policy to apply to this queue.
    pub policy: QueuePolicy,
    /// Name of the dead letter queue, which must be created ahead of time.
    pub dead_letter: Option<String>,
    /// Number of retry attempts for jobs in this queue.
    pub retry_limit: Option<usize>,
    /// Seconds to wait before a retry attempt.
    pub retry_delay: Option<u64>,
    /// Whether to use a backoff between retry attempts.
    pub retry_backoff: Option<bool>,
    /// Seconds before an active job of this queue expires.
    pub expire_in: Option<u64>,
    /// Seconds for which jobs of this queue are retained.
    pub retain_for: Option<u64>,
}

impl Queue {
    /// Returns a builder for [`Queue`].
    pub fn builder() -> (r: QueueBuilder)
        ensures
            r.is_unset(),
    {
        QueueBuilder::default()
    }
}

/// Convenience builder for [`Queue`].
#[derive(Debug)]
pub struct QueueBuilder {
    /// Queue name.
    pub name: String,
    /// Policy to apply to this queue.
    pub policy: QueuePolicy,
    /// Name of the dead letter queue.
    pub dead_letter: Option<String>,
    /// Number of retry attempts for jobs in this queue.
    pub retry_limit: Option<usize>,
    /// Seconds to wait before a retry attempt.
    pub retry_delay: Option<u64>,
    /// Whether to use a backoff between retry attempts.
    pub retry_backoff: Option<bool>,
    /// Seconds before an active job of this queue expires.
    pub expire_in: Option<u64>,
    /// Seconds for which jobs of this queue are retained.
    pub retain_for: Option<u64>,
}

impl QueueBuilder {
    /// A builder nothing has been set on: empty name, standard policy, all
    /// options unset.
    pub open spec fn is_unset(&self) -> bool {
        &&& self.name@ == Seq::<char>::empty()
        &&& self.policy == QueuePolicy::Standard
        &&& self.dead_letter is None
        &&& self.retry_limit is None
        &&& self.retry_delay is None
        &&& self.retry_backoff is None
        &&& self.expire_in is None
        &&& self.retain_for is None
    }

    /// Queue name.
    pub fn name(self, val: String) -> (r: Self)
        ensures
            r == (QueueBuilder { name: val, ..self }),
    {
        QueueBuilder { name: val, ..self }
    }

    /// Policy to apply to this queue.
    pub fn policy(self, val: QueuePolicy) -> (r: Self)
        ensures
            r == (QueueBuilder { policy: val, ..self }),
    {
        QueueBuilder { policy: val, ..self }
    }

    /// Name of the dead letter queue.
    ///
    /// Note that the dead letter queue itself should be created ahead of
    /// time.
    pub fn dead_letter(self, val: String) -> (r: Self)
        ensures
            r == (QueueBuilder { dead_letter: Some(val), ..self }),
    {
        QueueBuilder { dead_letter: Some(val), ..self }
    }

    /// Number of retry attempts for jobs in this queue.
    pub fn retry_limit(self, val: usize) -> (r: Self)
        ensures
            r == (QueueBuilder { retry_limit: Some(val), ..self }),
    {
        QueueBuilder { retry_limit: Some(val), ..self }
    }

    /// Seconds to wait before a retry attempt.
    pub fn retry_delay(self, val: u64) -> (r: Self)
        ensures
            r == (QueueBuilder { retry_delay: Some(val), ..self }),
    {
        QueueBuilder { retry_delay: Some(val), ..self }
    }

    /// Whether to use a backoff between retry attempts.
    pub fn retry_backoff(self, val: bool) -> (r: Self)
        ensures
            r == (QueueBuilder { retry_backoff: Some(val), ..self }),
    {
        QueueBuilder { retry_backoff: Some(val), ..self }
    }

    /// Seconds before an active job of this queue expires.
    ///
    /// Should be between 1 second and 24 hours, or simply unset (default).
    pub fn expire_in(self, val: u64) -> (r: Self)
        ensures
            r == (QueueBuilder { expire_in: Some(val), ..self }),
    {
        QueueBuilder { expire_in: Some(val), ..self }
    }

    /// Seconds for which jobs of this queue are retained.
    ///
    /// Should be greater than or equal to 1 second, or simply unset (default).
    pub fn retain_for(self, val: u64) -> (r: Self)
        ensures
            r == (QueueBuilder { retain_for: Some(val), ..self }),
    {
        QueueBuilder { retain_for: Some(val), ..self }
    }

    /// Terminal method for the builder, returning [`Queue`].
    pub fn build(self) -> (r: Queue)
        ensures
            r == (Queue {
                name: self.name,
                policy: self.policy,
                dead_letter: self.dead_letter,
                retry_limit: self.retry_limit,
                retry_delay: self.retry_delay,
                retry_backoff: self.retry_backoff,
                expire_in: self.expire_in,
                retain_for: self.retain_for,
            }),
    {
        Queue {
            name: self.name,
            policy: self.policy,
            dead_letter: self.dead_letter,
            retry_limit: self.retry_limit,
            retry_delay: self.retry_delay,
            retry_backoff: self.retry_backoff,
            expire_in: self.expire_in,
            retain_for: self.retain_for,
        }
    }
}

/// A queue's configuration as read back from the database, with plain
/// values: durations in seconds, timestamps in epoch seconds.
#[derive(Debug)]
pub struct QueueDetails {
    /// Queue name.
    pub name: String,
    /// Queue policy.
    pub policy: QueuePolicy,
    /// Number of retry attempts.
    pub retry_limit: Option<usize>,
    /// Seconds to wait before a retry attempt.
    pub retry_delay: Option<u64>,
    /// Whether to use a backoff between retry attempts.
    pub retry_backoff: Option<bool>,
    /// Seconds before an active job of this queue expires.
    pub expire_in: Option<u64>,
    /// Seconds for which jobs of this queue are retained.
    pub retain_for: Option<u64>,
    /// Name of the dead letter queue.
    pub dead_letter: Option<String>,
    /// When this queue was created, in epoch seconds.
    pub created_at: i64,
    /// When this queue was updated, in epoch seconds.
    pub updated_at: i64,
}

impl QueueDetails {
    /// Builds the details from one configuration row's raw column values,
    /// validating each as it is read: the policy label must parse and the
    /// counters and durations must be non-negative. The first failing
    /// column, in reading order, is reported. Retention comes back in
    /// minutes and is widened to seconds.
    pub fn from_columns(
        name: String,
        policy: String,
        retry_limit: Option<i32>,
        retry_delay: Option<i32>,
        retry_backoff: Option<bool>,
        expire_seconds: Option<i32>,
        retention_minutes: Option<i32>,
        dead_letter: Option<String>,
        created_at: i64,
        updated_at: i64,
    ) -> (r: Result<QueueDetails, crate::error::DecodeError>)
        ensures
            ({
                let e_policy = spec_parse_policy(policy@) is None;
                let e_retry_limit = !e_policy && (retry_limit matches Some(v) && v < 0);
                let e_retry_delay = !e_policy && !e_retry_limit && (retry_delay matches Some(v)
                    && v < 0);
                let e_expire = !e_policy && !e_retry_limit && !e_retry_delay && (
                expire_seconds matches Some(v) && v < 0);
                let e_retention = !e_policy && !e_retry_limit && !e_retry_delay && !e_expire && (
                retention_minutes matches Some(v) && v < 0);
                &&& e_policy ==> (r matches Err(e) && e.column@ == "policy"@ && e.message@
                    == "Unsupported queue policy: "@ + policy@)
                &&& e_retry_limit ==> (r matches Err(e) && e.column@ == "retry_limit"@
                    && e.message@ == "'retry_limit' should be non-negative, got "@
                    + crate::text::spec_int_decimal(retry_limit->0 as int))
                &&& e_retry_delay ==> (r matches Err(e) && e.column@ == "retry_delay"@
                    && e.message@ == "'retry_delay' should be non-negative, got: "@
                    + crate::text::spec_int_decimal(retry_delay->0 as int))
                &&& e_expire ==> (r matches Err(e) && e.column@ == "expire_seconds"@
                    && e.message@ == "'expire_seconds' should be non-negative, got: "@
                    + crate::text::spec_int_decimal(expire_seconds->0 as int))
                &&& e_retention ==> (r matches Err(e) && e.column@ == "retention_minutes"@
                    && e.message@ == "'retention_minutes' should be non-negative, got: "@
                    + crate::text::spec_int_decimal(retention_minutes->0 as int))
                &&& !e_policy && !e_retry_limit && !e_retry_delay && !e_expire && !e_retention
                    ==> (r matches Ok(d) && d.name == name && d.policy == spec_parse_policy(
                    policy@,
                )->0 && (match retry_limit {
                    Some(v) => d.retry_limit matches Some(l) && l == v,
                    None => d.retry_limit is None,
                }) && (match retry_delay {
                    Some(v) => d.retry_delay matches Some(l) && l == v,
                    None => d.retry_delay is None,
                }) && d.retry_backoff == retry_backoff && (match expire_seconds {
                    Some(v) => d.expire_in matches Some(l) && l == v,
                    None => d.expire_in is None,
                }) && (match retention_minutes {
                    Some(v) => d.retain_for matches Some(l) && l == v * 60,
                    None => d.retain_for is None,
                }) && d.dead_letter == dead_letter && d.created_at == created_at && d.updated_at
                    == updated_at)
            }),
    {
        let parsed_policy = match QueuePolicy::try_from(policy.as_str()) {
            Ok(v) => v,
            Err(m) => {
                return Err(crate::error::DecodeError { column: "policy", message: m });
            },
        };
        let limit: Option<usize> = match retry_limit {
            Some(v) => {
                if v < 0 {
                    let mut m = String::from_str("'retry_limit' should be non-negative, got ");
                    let d = crate::text::int_string(v as i64);
                    m.append(d.as_str());
                    return Err(crate::error::DecodeError { column: "retry_limit", message: m });
                }
                Some(v as usize)
            },
            None => None,
        };
        let delay: Option<u64> = match retry_delay {
            Some(v) => {
                if v < 0 {
                    let mut m = String::from_str("'retry_delay' should be non-negative, got: ");
                    let d = crate::text::int_string(v as i64);
                    m.append(d.as_str());
                    return Err(crate::error::DecodeError { column: "retry_delay", message: m });
                }
                Some(v as u64)
            },
            None => None,
        };
        let expire: Option<u64> = match expire_seconds {
            Some(v) => {
                if v < 0 {
                    let mut m = String::from_str("'expire_seconds' should be non-negative, got: ");
                    let d = crate::text::int_string(v as i64);
                    m.append(d.as_str());
                    return Err(crate::error::DecodeError { column: "expire_seconds", message: m });
                }
                Some(v as u64)
            },
            None => None,
        };
        let retain: Option<u64> = match retention_minutes {
            Some(v) => {
                if v < 0 {
                    let mut m = String::from_str(
                        "'retention_minutes' should be non-negative, got: ",
                    );
                    let d = crate::text::int_string(v as i64);
                    m.append(d.as_str());
                    return Err(
                        crate::error::DecodeError { column: "retention_minutes", message: m },
                    );
                }
                Some((v as u64) * 60)
            },
            None => None,
        };
        Ok(
            QueueDetails {
                name,
                policy: parsed_policy,
                retry_limit: limit,
                retry_delay: delay,
                retry_backoff,
                expire_in: expire,
                retain_for: retain,
                dead_letter,
                created_at,
                updated_at,
            },
        )
    }
}

impl Default for QueueBuilder {
    fn default() -> (r: Self)
        ensures
            r.is_unset(),
    {
        QueueBuilder {
            name: String::new(),
            policy: QueuePolicy::Standard,
            dead_letter: None,
            retry_limit: None,
            retry_delay: None,
            retry_backoff: None,
            expire_in: None,
            retain_for: None,
        }
    }
}

} // verus!
