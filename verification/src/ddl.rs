//! Schema-scoped DDL text: the schema itself, the job state enum, and the
//! five relations an installation consists of.
//!
//! Every function is pure: it takes the installation's schema name and
//! returns SQL text. Callers are trusted to supply a safe identifier; no
//! query is executed here.

use vstd::prelude::*;
use vstd::string::StringExecFns;

use crate::job::JobState;
use crate::job::spec_state_label;

verus! {

/// Text of [`create_schema`].
pub open spec fn spec_create_schema(schema: Seq<char>) -> Seq<char> {
    "CREATE SCHEMA IF NOT EXISTS "@ + schema + ";"@
}

/// `CREATE SCHEMA` for the installation.
pub fn create_schema(schema: &str) -> (r: String)
    ensures
        r@ == spec_create_schema(schema@),
{
    let mut s = String::from_str("CREATE SCHEMA IF NOT EXISTS ");
    s.append(schema);
    s.append(";");
    s
}

/// Text of [`create_job_state_enum`].
pub open spec fn spec_create_job_state_enum(schema: Seq<char>) -> Seq<char> {
    "
        DO $$
        BEGIN
            IF NOT EXISTS (SELECT 1 FROM pg_type typ INNER JOIN pg_namespace nsp on (typ.typnamespace = nsp.oid) where typ.typname = 'job_state' AND nsp.nspname = '"@
        + schema + "') THEN
                CREATE TYPE "@ + schema + ".job_state AS ENUM ('"@ + spec_state_label(
        JobState::Created,
    ) + "', '"@ + spec_state_label(JobState::Retry) + "', '"@ + spec_state_label(JobState::Active)
        + "', '"@ + spec_state_label(JobState::Completed) + "', '"@ + spec_state_label(
        JobState::Cancelled,
    ) + "', '"@ + spec_state_label(JobState::Failed) + "');
            END IF;
        END $$;
        "@
}

/// The `job_state` enum type, created only if it does not exist yet. The
/// declaration order is the order the database compares states in.
pub fn create_job_state_enum(schema: &str) -> (r: String)
    ensures
        r@ == spec_create_job_state_enum(schema@),
{
    let mut s = String::from_str(
        "
        DO $$
        BEGIN
            IF NOT EXISTS (SELECT 1 FROM pg_type typ INNER JOIN pg_namespace nsp on (typ.typnamespace = nsp.oid) where typ.typname = 'job_state' AND nsp.nspname = '",
    );
    s.append(schema);
    s.append("') THEN
                CREATE TYPE ");
    s.append(schema);
    s.append(".job_state AS ENUM ('");
    s.append(JobState::Created.as_str());
    s.append("', '");
    s.append(JobState::Retry.as_str());
    s.append("', '");
    s.append(JobState::Active.as_str());
    s.append("', '");
    s.append(JobState::Completed.as_str());
    s.append("', '");
    s.append(JobState::Cancelled.as_str());
    s.append("', '");
    s.append(JobState::Failed.as_str());
    s.append("');
            END IF;
        END $$;
        ");
    s
}

/// Text of [`create_version_table`].
pub open spec fn spec_create_version_table(schema: Seq<char>) -> Seq<char> {
    "
        CREATE TABLE IF NOT EXISTS "@ + schema + ".version (
            version int primary key,
            maintained_on timestamptz,
            cron_on timestamptz,
            monitored_on timestamptz
        );
        "@
}

/// The single-row `version` table.
pub fn create_version_table(schema: &str) -> (r: String)
    ensures
        r@ == spec_create_version_table(schema@),
{
    let mut s = String::from_str("
        CREATE TABLE IF NOT EXISTS ");
    s.append(schema);
    s.append(
        ".version (
            version int primary key,
            maintained_on timestamptz,
            cron_on timestamptz,
            monitored_on timestamptz
        );
        ",
    );
    s
}

/// Text of [`create_queue_table`].
pub open spec fn spec_create_queue_table(schema: Seq<char>) -> Seq<char> {
    "
        CREATE TABLE IF NOT EXISTS "@ + schema + ".queue (
            name text,
            policy text,
            retry_limit int,
            retry_delay int,
            retry_backoff bool,
            expire_seconds int,
            retention_minutes int,
            dead_letter text REFERENCES "@ + schema + ".queue (name),
            partition_name text,
            created_on timestamptz not null default now(),
            updated_on timestamptz not null default now(),
            PRIMARY KEY (name)
        );
        "@
}

/// The `queue` table: one row of configuration per queue.
pub fn create_queue_table(schema: &str) -> (r: String)
    ensures
        r@ == spec_create_queue_table(schema@),
{
    let mut s = String::from_str("
        CREATE TABLE IF NOT EXISTS ");
    s.append(schema);
    s.append(
        ".queue (
            name text,
            policy text,
            retry_limit int,
            retry_delay int,
            retry_backoff bool,
            expire_seconds int,
            retention_minutes int,
            dead_letter text REFERENCES ",
    );
    s.append(schema);
    s.append(
        ".queue (name),
            partition_name text,
            created_on timestamptz not null default now(),
            updated_on timestamptz not null default now(),
            PRIMARY KEY (name)
        );
        ",
    );
    s
}

/// Text of [`create_subscription_table`].
pub open spec fn spec_create_subscription_table(schema: Seq<char>) -> Seq<char> {
    "
        CREATE TABLE IF NOT EXISTS "@ + schema + ".subscription (
            event text not null,
            name text not null REFERENCES "@ + schema + ".queue ON DELETE CASCADE,
            created_on timestamptz not null default now(),
            updated_on timestamptz not null default now(),
            PRIMARY KEY (event, name)
        );
        "@
}

/// The `subscription` table, created for compatibility; the operations here
/// never touch it.
pub fn create_subscription_table(schema: &str) -> (r: String)
    ensures
        r@ == spec_create_subscription_table(schema@),
{
    let mut s = String::from_str("
        CREATE TABLE IF NOT EXISTS ");
    s.append(schema);
    s.append(
        ".subscription (
            event text not null,
            name text not null REFERENCES ",
    );
    s.append(schema);
    s.append(
        ".queue ON DELETE CASCADE,
            created_on timestamptz not null default now(),
            updated_on timestamptz not null default now(),
            PRIMARY KEY (event, name)
        );
        ",
    );
    s
}

/// Text of [`create_job_table`].
pub open spec fn spec_create_job_table(schema: Seq<char>) -> Seq<char> {
    "
        CREATE TABLE IF NOT EXISTS "@ + schema + ".job (
            id uuid not null default gen_random_uuid(),
            name text not null,
            priority integer not null default(0),
            data jsonb,
            state "@ + schema + ".job_state not null default('"@ + spec_state_label(
        JobState::Created,
    ) + "'),
            retry_limit integer not null default(0),
            retry_count integer not null default(0),
            retry_delay integer not null default(0),
            retry_backoff boolean not null default false,
            start_after timestamptz not null default now(),
            started_on timestamptz,
            singleton_key text,
            singleton_on timestamp without time zone,
            expire_in interval not null default interval '15 minutes',
            created_on timestamptz not null default now(),
            completed_on timestamptz,
            keep_until timestamptz not null default now() + interval '14 days',
            output jsonb,
            dead_letter text,
            policy text
        ) PARTITION BY LIST (name);
        "@
}

/// The partitioned `job` parent table; each queue attaches one partition.
pub fn create_job_table(schema: &str) -> (r: String)
    ensures
        r@ == spec_create_job_table(schema@),
{
    let mut s = String::from_str("
        CREATE TABLE IF NOT EXISTS ");
    s.append(schema);
    s.append(
        ".job (
            id uuid not null default gen_random_uuid(),
            name text not null,
            priority integer not null default(0),
            data jsonb,
            state ",
    );
    s.append(schema);
    s.append(".job_state not null default('");
    s.append(JobState::Created.as_str());
    s.append(
        "'),
            retry_limit integer not null default(0),
            retry_count integer not null default(0),
            retry_delay integer not null default(0),
            retry_backoff boolean not null default false,
            start_after timestamptz not null default now(),
            started_on timestamptz,
            singleton_key text,
            singleton_on timestamp without time zone,
            expire_in interval not null default interval '15 minutes',
            created_on timestamptz not null default now(),
            completed_on timestamptz,
            keep_until timestamptz not null default now() + interval '14 days',
            output jsonb,
            dead_letter text,
            policy text
        ) PARTITION BY LIST (name);
        ",
    );
    s
}

/// Text of [`create_archive_table`].
pub open spec fn spec_create_archive_table(schema: Seq<char>) -> Seq<char> {
    "
        CREATE TABLE IF NOT EXISTS "@ + schema + ".archive (
            LIKE "@ + schema + ".job,
            archived_on timestamptz not null default now(),
            PRIMARY KEY (name, id)
        );
        CREATE INDEX IF NOT EXISTS archive_i1 ON "@ + schema + ".archive (archived_on);
        "@
}

/// The `archive` table: a structural clone of `job` plus `archived_on`,
/// populated by maintenance outside this crate.
pub fn create_archive_table(schema: &str) -> (r: String)
    ensures
        r@ == spec_create_archive_table(schema@),
{
    let mut s = String::from_str("
        CREATE TABLE IF NOT EXISTS ");
    s.append(schema);
    s.append(
        ".archive (
            LIKE ",
    );
    s.append(schema);
    s.append(
        ".job,
            archived_on timestamptz not null default now(),
            PRIMARY KEY (name, id)
        );
        CREATE INDEX IF NOT EXISTS archive_i1 ON ",
    );
    s.append(schema);
    s.append(".archive (archived_on);
        ");
    s
}

} // verus!
