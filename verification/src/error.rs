//! The error taxonomy callers see, and the translation of database
//! constraint names into it.

use vstd::prelude::*;
use vstd::string::StringExecFns;

use crate::text;

verus! {

/// Errors this crate classifies.
///
/// Database driver errors that match none of these stay with the caller
/// untranslated.
#[derive(Debug, Clone, Copy)]
pub enum Error {
    /// The target queue or the declared dead letter queue is missing.
    DoesNotExist {
        /// Further details.
        msg: &'static str,
    },
    /// A job with the caller-supplied id already exists.
    Conflict {
        /// Details on what exactly went wrong.
        msg: &'static str,
    },
    /// A throttling policy rejected the insert; the message names which.
    Throttled {
        /// Which throttling has been applied.
        msg: &'static str,
    },
}

impl Error {
    /// One-line rendering of the error, as the caller would print it.
    pub fn message(&self) -> (r: String)
        ensures
            match *self {
                Error::DoesNotExist { msg } => r@ == "cannot process: "@ + msg@,
                Error::Conflict { msg } => r@ == "conflict in the system: "@ + msg@,
                Error::Throttled { msg } => r@ == "throttled: "@ + msg@,
            },
    {
        match self {
            Error::DoesNotExist { msg } => {
                let mut s = String::from_str("cannot process: ");
                s.append(msg);
                s
            },
            Error::Conflict { msg } => {
                let mut s = String::from_str("conflict in the system: ");
                s.append(msg);
                s
            },
            Error::Throttled { msg } => {
                let mut s = String::from_str("throttled: ");
                s.append(msg);
                s
            },
        }
    }
}

/// A column of a fetched row failed validation while it was decoded into
/// one of the crate's types.
#[derive(Debug)]
pub struct DecodeError {
    /// The column at fault.
    pub column: &'static str,
    /// What was wrong with its value.
    pub message: String,
}

/// A constraint name that belongs to a queue partition: it starts with `j`
/// (partitions are named `j` followed by a digest).
pub open spec fn spec_partition_constraint(c: Seq<char>) -> bool {
    text::spec_starts_with(c, "j"@)
}

/// Translates the name of the constraint a job insert tripped on into the
/// error the caller is owed, exactly as the submission contract states it:
/// the partition's primary key means a duplicate id, the partial unique
/// indexes `_i1` to `_i4` mean throttling, and `dlq_fkey` means the declared
/// dead letter queue is missing. Anything else is not ours to classify.
pub fn classify_constraint(constraint: &str) -> (r: Option<Error>)
    ensures
        ({
            let c = constraint@;
            let on_partition = spec_partition_constraint(c);
            let pkey = on_partition && text::spec_ends_with(c, "_pkey"@);
            let i1 = on_partition && !pkey && text::spec_ends_with(c, "_i1"@);
            let i2 = on_partition && !pkey && !i1 && text::spec_ends_with(c, "_i2"@);
            let i3 = on_partition && !pkey && !i1 && !i2 && text::spec_ends_with(c, "_i3"@);
            let i4 = on_partition && !pkey && !i1 && !i2 && !i3 && text::spec_ends_with(
                c,
                "_i4"@,
            );
            let dlq = !pkey && !i1 && !i2 && !i3 && !i4 && c == "dlq_fkey"@;
            &&& pkey ==> (r matches Some(e) && e matches Error::Conflict { msg } && msg@
                == "job with this id already exists"@)
            &&& i1 ==> (r matches Some(e) && e matches Error::Throttled { msg } && msg@
                == "policy 'short' is applied to jobs with state 'created'"@)
            &&& i2 ==> (r matches Some(e) && e matches Error::Throttled { msg } && msg@
                == "policy 'singleton' is applied to jobs with state 'active'"@)
            &&& i3 ==> (r matches Some(e) && e matches Error::Throttled { msg } && msg@
                == "policy 'stately' is applied to jobs with state 'created', 'retry' or 'active'"@)
            &&& i4 ==> (r matches Some(e) && e matches Error::Throttled { msg } && msg@
                == "singleton policy applied to jobs with 'singleton_on' property and state not 'cancelled'"@)
            &&& dlq ==> (r matches Some(e) && e matches Error::DoesNotExist { msg } && msg@
                == "dead letter queue does not exist"@)
            &&& !pkey && !i1 && !i2 && !i3 && !i4 && !dlq ==> r is None
        }),
{
    if text::starts_with(constraint, "j") {
        if text::ends_with(constraint, "_pkey") {
            return Some(Error::Conflict { msg: "job with this id already exists" });
        }
        if text::ends_with(constraint, "_i1") {
            return Some(
                Error::Throttled { msg: "policy 'short' is applied to jobs with state 'created'" },
            );
        }
        if text::ends_with(constraint, "_i2") {
            return Some(
                Error::Throttled {
                    msg: "policy 'singleton' is applied to jobs with state 'active'",
                },
            );
        }
        if text::ends_with(constraint, "_i3") {
            return Some(
                Error::Throttled {
                    msg: "policy 'stately' is applied to jobs with state 'created', 'retry' or 'active'",
                },
            );
        }
        if text::ends_with(constraint, "_i4") {
            return Some(
                Error::Throttled {
                    msg: "singleton policy applied to jobs with 'singleton_on' property and state not 'cancelled'",
                },
            );
        }
    }
    if text::str_eq(constraint, "dlq_fkey") {
        return Some(Error::DoesNotExist { msg: "dead letter queue does not exist" });
    }
    None
}

} // verus!
