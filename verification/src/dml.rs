//! Schema-scoped DML text: the version probe, queue lookups, and the
//! fetch-and-claim and state-transition statements.
//!
//! Pure templating, like [`crate::ddl`]: schema name in, SQL text out.

use vstd::prelude::*;
use vstd::string::StringExecFns;

use crate::job::JobState;
use crate::job::spec_state_label;
use crate::text::decimal_string;
use crate::text::spec_decimal;

verus! {

/// Text of [`check_if_app_installed`].
pub open spec fn spec_check_if_app_installed(schema: Seq<char>) -> Seq<char> {
    "
        SELECT EXISTS (
            SELECT 1 FROM information_schema.tables WHERE table_schema = '"@ + schema
        + "' AND table_name = 'version'
        );
        "@
}

/// Probe for the `version` table: does this schema hold an installation?
pub fn check_if_app_installed(schema: &str) -> (r: String)
    ensures
        r@ == spec_check_if_app_installed(schema@),
{
    let mut s = String::from_str(
        "
        SELECT EXISTS (
            SELECT 1 FROM information_schema.tables WHERE table_schema = '",
    );
    s.append(schema);
    s.append("' AND table_name = 'version'
        );
        ");
    s
}

/// Text of [`get_app`].
pub open spec fn spec_get_app(schema: Seq<char>) -> Seq<char> {
    "SELECT * FROM "@ + schema + ".version;"@
}

/// Reads the installation's version row.
pub fn get_app(schema: &str) -> (r: String)
    ensures
        r@ == spec_get_app(schema@),
{
    let mut s = String::from_str("SELECT * FROM ");
    s.append(schema);
    s.append(".version;");
    s
}

/// Text of [`insert_version`].
pub open spec fn spec_insert_version(schema: Seq<char>, version: u8) -> Seq<char> {
    "INSERT INTO "@ + schema + ".version (version) VALUES ("@ + spec_decimal(version as nat)
        + ") ON CONFLICT DO NOTHING;"@
}

/// Writes the version row; `ON CONFLICT DO NOTHING` covers the race where a
/// peer's install committed between our transactions.
pub fn insert_version(schema: &str, version: u8) -> (r: String)
    ensures
        r@ == spec_insert_version(schema@, version),
{
    let mut s = String::from_str("INSERT INTO ");
    s.append(schema);
    s.append(".version (version) VALUES (");
    let d = decimal_string(version as u64);
    s.append(d.as_str());
    s.append(") ON CONFLICT DO NOTHING;");
    s
}

/// Text of [`get_queue`].
pub open spec fn spec_get_queue(schema: Seq<char>) -> Seq<char> {
    "
        SELECT
            name,
            policy,
            retry_limit,
            retry_delay,
            retry_backoff,
            expire_seconds,
            retention_minutes,
            dead_letter,
            created_on,
            updated_on
        FROM "@ + schema + ".queue
        WHERE name = $1;
        "@
}

/// Reads one queue's configuration row.
pub fn get_queue(schema: &str) -> (r: String)
    ensures
        r@ == spec_get_queue(schema@),
{
    let mut s = String::from_str(
        "
        SELECT
            name,
            policy,
            retry_limit,
            retry_delay,
            retry_backoff,
            expire_seconds,
            retention_minutes,
            dead_letter,
            created_on,
            updated_on
        FROM ",
    );
    s.append(schema);
    s.append(".queue
        WHERE name = $1;
        ");
    s
}

/// Text of [`get_queues`].
pub open spec fn spec_get_queues(schema: Seq<char>) -> Seq<char> {
    "
        SELECT
            name,
            policy,
            retry_limit,
            retry_delay,
            retry_backoff,
            expire_seconds,
            retention_minutes,
            dead_letter,
            created_on,
            updated_on
        FROM "@ + schema + ".queue;
        "@
}

/// Reads every queue's configuration row.
pub fn get_queues(schema: &str) -> (r: String)
    ensures
        r@ == spec_get_queues(schema@),
{
    let mut s = String::from_str(
        "
        SELECT
            name,
            policy,
            retry_limit,
            retry_delay,
            retry_backoff,
            expire_seconds,
            retention_minutes,
            dead_letter,
            created_on,
            updated_on
        FROM ",
    );
    s.append(schema);
    s.append(".queue;
        ");
    s
}

/// Text of [`fetch_jobs`].
pub open spec fn spec_fetch_jobs(schema: Seq<char>) -> Seq<char> {
    "
        WITH next AS (
            SELECT id FROM "@ + schema + ".job
            WHERE name = $1 AND state < 'active' AND start_after < now()
            ORDER BY priority DESC, created_on, id
            LIMIT $2
            FOR UPDATE
            SKIP LOCKED
        )
        UPDATE "@ + schema + ".job j SET
            state = 'active',
            started_on = now(),
            retry_count = CASE WHEN started_on IS NULL THEN retry_count ELSE retry_count + 1 END
        FROM next
        WHERE name = $1 AND j.id = next.id
        RETURNING
            j.id,
            name,
            data,
            EXTRACT(epoch FROM expire_in)::float8 as expire_in,
            policy,
            priority,
            retry_limit,
            retry_delay,
            retry_count,
            retry_backoff,
            start_after,
            created_on as \"created_at\",
            started_on as \"started_at\",
            singleton_on as \"singleton_at\";
        "@
}

/// The fetch-and-claim statement: selects eligible rows under
/// `FOR UPDATE SKIP LOCKED` and promotes them to `active` in one statement,
/// so concurrent fetchers never claim the same job.
pub fn fetch_jobs(schema: &str) -> (r: String)
    ensures
        r@ == spec_fetch_jobs(schema@),
{
    let mut s = String::from_str("
        WITH next AS (
            SELECT id FROM ");
    s.append(schema);
    s.append(
        ".job
            WHERE name = $1 AND state < 'active' AND start_after < now()
            ORDER BY priority DESC, created_on, id
            LIMIT $2
            FOR UPDATE
            SKIP LOCKED
        )
        UPDATE ",
    );
    s.append(schema);
    s.append(
        ".job j SET
            state = 'active',
            started_on = now(),
            retry_count = CASE WHEN started_on IS NULL THEN retry_count ELSE retry_count + 1 END
        FROM next
        WHERE name = $1 AND j.id = next.id
        RETURNING
            j.id,
            name,
            data,
            EXTRACT(epoch FROM expire_in)::float8 as expire_in,
            policy,
            priority,
            retry_limit,
            retry_delay,
            retry_count,
            retry_backoff,
            start_after,
            created_on as \"created_at\",
            started_on as \"started_at\",
            singleton_on as \"singleton_at\";
        ",
    );
    s
}

/// Text of [`get_job_info`].
pub open spec fn spec_get_job_info(schema: Seq<char>) -> Seq<char> {
    "
        SELECT
            id,
            name,
            data,
            EXTRACT(epoch FROM expire_in)::float8 as expire_in,
            policy,
            priority,
            retry_limit,
            retry_delay,
            retry_count,
            retry_backoff,
            start_after,
            created_on as \"created_at\",
            started_on as \"started_at\",
            singleton_on as \"singleton_at\",
            singleton_key,
            state::text as state,
            completed_on as \"completed_at\",
            keep_until,
            dead_letter
        FROM "@ + schema + ".job
        WHERE name = $1 and id = $2;
        "@
}

/// Reads one job's row without claiming it or changing its state.
pub fn get_job_info(schema: &str) -> (r: String)
    ensures
        r@ == spec_get_job_info(schema@),
{
    let mut s = String::from_str(
        "
        SELECT
            id,
            name,
            data,
            EXTRACT(epoch FROM expire_in)::float8 as expire_in,
            policy,
            priority,
            retry_limit,
            retry_delay,
            retry_count,
            retry_backoff,
            start_after,
            created_on as \"created_at\",
            started_on as \"started_at\",
            singleton_on as \"singleton_at\",
            singleton_key,
            state::text as state,
            completed_on as \"completed_at\",
            keep_until,
            dead_letter
        FROM ",
    );
    s.append(schema);
    s.append(".job
        WHERE name = $1 and id = $2;
        ");
    s
}

/// Text of [`delete_jobs`].
pub open spec fn spec_delete_jobs(schema: Seq<char>) -> Seq<char> {
    "
        WITH results AS (
            DELETE FROM "@ + schema + ".job
            WHERE name = $1 AND id IN (SELECT UNNEST($2::uuid[]))
            RETURNING 1
        )
        SELECT COUNT(*) from results;
        "@
}

/// Unconditional delete of the named jobs; returns the affected count.
pub fn delete_jobs(schema: &str) -> (r: String)
    ensures
        r@ == spec_delete_jobs(schema@),
{
    let mut s = String::from_str("
        WITH results AS (
            DELETE FROM ");
    s.append(schema);
    s.append(
        ".job
            WHERE name = $1 AND id IN (SELECT UNNEST($2::uuid[]))
            RETURNING 1
        )
        SELECT COUNT(*) from results;
        ",
    );
    s
}

/// Text of [`complete_jobs`].
pub open spec fn spec_complete_jobs(schema: Seq<char>) -> Seq<char> {
    "
        WITH results AS (
            UPDATE "@ + schema + ".job
            SET state = '"@ + spec_state_label(JobState::Completed) + "'::"@ + schema
        + ".job_state, completed_on = now(), output = $3::jsonb
            WHERE name = $1 AND id IN (SELECT UNNEST($2::uuid[])) AND state = '"@
        + spec_state_label(JobState::Active) + "'::"@ + schema + ".job_state
            RETURNING 1
        )
        SELECT COUNT(*) from results;
        "@
}

/// Completes active jobs, recording the caller's output; returns the
/// affected count.
pub fn complete_jobs(schema: &str) -> (r: String)
    ensures
        r@ == spec_complete_jobs(schema@),
{
    let mut s = String::from_str("
        WITH results AS (
            UPDATE ");
    s.append(schema);
    s.append(".job
            SET state = '");
    s.append(JobState::Completed.as_str());
    s.append("'::");
    s.append(schema);
    s.append(
        ".job_state, completed_on = now(), output = $3::jsonb
            WHERE name = $1 AND id IN (SELECT UNNEST($2::uuid[])) AND state = '",
    );
    s.append(JobState::Active.as_str());
    s.append("'::");
    s.append(schema);
    s.append(
        ".job_state
            RETURNING 1
        )
        SELECT COUNT(*) from results;
        ",
    );
    s
}

/// Text of [`fail_jobs`].
pub open spec fn spec_fail_jobs(schema: Seq<char>) -> Seq<char> {
    "
        WITH deleted_jobs AS (
            DELETE FROM "@ + schema
        + ".job
            WHERE name = $1 AND id IN (SELECT UNNEST($2::uuid[])) AND state < '"@
        + spec_state_label(JobState::Completed) + "'::"@ + schema
        + ".job_state
            RETURNING *
        ),
        retried_jobs AS (
            INSERT INTO "@ + schema
        + ".job (
                id,
                name,
                priority,
                data,
                state,
                retry_limit,
                retry_count,
                retry_delay,
                retry_backoff,
                start_after,
                started_on,
                singleton_key,
                singleton_on,
                expire_in,
                created_on,
                completed_on,
                keep_until,
                dead_letter,
                policy,
                output
            )
            SELECT
                id,
                name,
                priority,
                data,
                CASE
                    WHEN retry_count < retry_limit THEN '"@ + spec_state_label(JobState::Retry)
        + "'::"@ + schema + ".job_state
                    ELSE '"@ + spec_state_label(JobState::Failed) + "'::"@ + schema
        + ".job_state
                END as state,
                retry_limit,
                retry_count,
                retry_delay,
                retry_backoff,
                CASE
                    WHEN retry_count = retry_limit THEN start_after
                    WHEN NOT retry_backoff THEN now() + retry_delay * interval '1'
                    ELSE now() + (
                        retry_delay * 2 ^ LEAST(16, retry_count + 1) / 2 +
                        retry_delay * 2 ^ LEAST(16, retry_count + 1) / 2 * random()
                    ) * interval '1'
                END as start_after,
                started_on,
                singleton_key,
                singleton_on,
                expire_in,
                created_on,
                CASE
                    WHEN retry_count < retry_limit THEN NULL
                    ELSE now()
                END as completed_on,
                keep_until,
                dead_letter,
                policy,
                $3::jsonb
            FROM deleted_jobs
            ON CONFLICT DO NOTHING
            RETURNING *
        ),
        failed_jobs as (
            INSERT INTO "@ + schema
        + ".job (
                id,
                name,
                priority,
                data,
                state,
                retry_limit,
                retry_count,
                retry_delay,
                retry_backoff,
                start_after,
                started_on,
                singleton_key,
                singleton_on,
                expire_in,
                created_on,
                completed_on,
                keep_until,
                dead_letter,
                policy,
                output
            )
            SELECT
                id,
                name,
                priority,
                data,
                '"@ + spec_state_label(JobState::Failed) + "'::"@ + schema
        + ".job_state as state,
                retry_limit,
                retry_count,
                retry_delay,
                retry_backoff,
                start_after,
                started_on,
                singleton_key,
                singleton_on,
                expire_in,
                created_on,
                now() as completed_on,
                keep_until,
                dead_letter,
                policy,
                $3::jsonb
            FROM deleted_jobs
            WHERE id NOT IN (SELECT id from retried_jobs)
            RETURNING *
        ),
        results as (
            SELECT * FROM retried_jobs
            UNION ALL
            SELECT * FROM failed_jobs
        ),
        dlq_jobs as (
            INSERT INTO "@ + schema
        + ".job (name, data, output, retry_limit, keep_until)
            SELECT dead_letter, data, output, retry_limit, keep_until + (keep_until - start_after)
            FROM results WHERE state = '"@ + spec_state_label(JobState::Failed) + "'::"@ + schema
        + ".job_state AND dead_letter IS NOT NULL AND NOT name = dead_letter
        )
        SELECT COUNT(*) FROM results
        "@
}

/// The failure transition: deletes the targeted non-terminal rows, reinserts
/// those with retries left as `retry` (so the reinsert re-enters through the
/// throttling indexes), marks the rest `failed`, and copies terminal
/// failures with a foreign dead letter queue into it. Returns the count of
/// deleted rows.
pub fn fail_jobs(schema: &str) -> (r: String)
    ensures
        r@ == spec_fail_jobs(schema@),
{
    let mut s = String::from_str("
        WITH deleted_jobs AS (
            DELETE FROM ");
    s.append(schema);
    s.append(
        ".job
            WHERE name = $1 AND id IN (SELECT UNNEST($2::uuid[])) AND state < '",
    );
    s.append(JobState::Completed.as_str());
    s.append("'::");
    s.append(schema);
    s.append(
        ".job_state
            RETURNING *
        ),
        retried_jobs AS (
            INSERT INTO ",
    );
    s.append(schema);
    s.append(
        ".job (
                id,
                name,
                priority,
                data,
                state,
                retry_limit,
                retry_count,
                retry_delay,
                retry_backoff,
                start_after,
                started_on,
                singleton_key,
                singleton_on,
                expire_in,
                created_on,
                completed_on,
                keep_until,
                dead_letter,
                policy,
                output
            )
            SELECT
                id,
                name,
                priority,
                data,
                CASE
                    WHEN retry_count < retry_limit THEN '",
    );
    s.append(JobState::Retry.as_str());
    s.append("'::");
    s.append(schema);
    s.append(".job_state
                    ELSE '");
    s.append(JobState::Failed.as_str());
    s.append("'::");
    s.append(schema);
    s.append(
        ".job_state
                END as state,
                retry_limit,
                retry_count,
                retry_delay,
                retry_backoff,
                CASE
                    WHEN retry_count = retry_limit THEN start_after
                    WHEN NOT retry_backoff THEN now() + retry_delay * interval '1'
                    ELSE now() + (
                        retry_delay * 2 ^ LEAST(16, retry_count + 1) / 2 +
                        retry_delay * 2 ^ LEAST(16, retry_count + 1) / 2 * random()
                    ) * interval '1'
                END as start_after,
                started_on,
                singleton_key,
                singleton_on,
                expire_in,
                created_on,
                CASE
                    WHEN retry_count < retry_limit THEN NULL
                    ELSE now()
                END as completed_on,
                keep_until,
                dead_letter,
                policy,
                $3::jsonb
            FROM deleted_jobs
            ON CONFLICT DO NOTHING
            RETURNING *
        ),
        failed_jobs as (
            INSERT INTO ",
    );
    s.append(schema);
    s.append(
        ".job (
                id,
                name,
                priority,
                data,
                state,
                retry_limit,
                retry_count,
                retry_delay,
                retry_backoff,
                start_after,
                started_on,
                singleton_key,
                singleton_on,
                expire_in,
                created_on,
                completed_on,
                keep_until,
                dead_letter,
                policy,
                output
            )
            SELECT
                id,
                name,
                priority,
                data,
                '",
    );
    s.append(JobState::Failed.as_str());
    s.append("'::");
    s.append(schema);
    s.append(
        ".job_state as state,
                retry_limit,
                retry_count,
                retry_delay,
                retry_backoff,
                start_after,
                started_on,
                singleton_key,
                singleton_on,
                expire_in,
                created_on,
                now() as completed_on,
                keep_until,
                dead_letter,
                policy,
                $3::jsonb
            FROM deleted_jobs
            WHERE id NOT IN (SELECT id from retried_jobs)
            RETURNING *
        ),
        results as (
            SELECT * FROM retried_jobs
            UNION ALL
            SELECT * FROM failed_jobs
        ),
        dlq_jobs as (
            INSERT INTO ",
    );
    s.append(schema);
    s.append(
        ".job (name, data, output, retry_limit, keep_until)
            SELECT dead_letter, data, output, retry_limit, keep_until + (keep_until - start_after)
            FROM results WHERE state = '",
    );
    s.append(JobState::Failed.as_str());
    s.append("'::");
    s.append(schema);
    s.append(
        ".job_state AND dead_letter IS NOT NULL AND NOT name = dead_letter
        )
        SELECT COUNT(*) FROM results
        ",
    );
    s
}

/// Text of [`cancel_jobs`].
pub open spec fn spec_cancel_jobs(schema: Seq<char>) -> Seq<char> {
    "
        WITH results AS (
            UPDATE "@ + schema + ".job
            SET state = '"@ + spec_state_label(JobState::Cancelled) + "'::"@ + schema
        + ".job_state, completed_on = now()
            WHERE name = $1 AND id IN (SELECT UNNEST($2::uuid[])) AND state < '"@
        + spec_state_label(JobState::Completed) + "'::"@ + schema + ".job_state
            RETURNING 1
        )
        SELECT COUNT(*) from results;
        "@
}

/// Cancels non-terminal jobs. `singleton_key` is preserved, and because the
/// slot index excludes `cancelled`, a cancelled job frees its throttling
/// slot.
pub fn cancel_jobs(schema: &str) -> (r: String)
    ensures
        r@ == spec_cancel_jobs(schema@),
{
    let mut s = String::from_str("
        WITH results AS (
            UPDATE ");
    s.append(schema);
    s.append(".job
            SET state = '");
    s.append(JobState::Cancelled.as_str());
    s.append("'::");
    s.append(schema);
    s.append(
        ".job_state, completed_on = now()
            WHERE name = $1 AND id IN (SELECT UNNEST($2::uuid[])) AND state < '",
    );
    s.append(JobState::Completed.as_str());
    s.append("'::");
    s.append(schema);
    s.append(
        ".job_state
            RETURNING 1
        )
        SELECT COUNT(*) from results;
        ",
    );
    s
}

/// Text of [`resume_jobs`].
pub open spec fn spec_resume_jobs(schema: Seq<char>) -> Seq<char> {
    "
        WITH results AS (
            UPDATE "@ + schema + ".job
            SET state = '"@ + spec_state_label(JobState::Created) + "'::"@ + schema
        + ".job_state, completed_on = NULL
            WHERE name = $1 AND id IN (SELECT UNNEST($2::uuid[])) AND state = '"@
        + spec_state_label(JobState::Cancelled) + "'::"@ + schema + ".job_state
            RETURNING 1
        )
        SELECT COUNT(*) from results;
        "@
}

/// Resumes cancelled jobs back to `created`; everything else about the row,
/// `start_after` included, stays as it was.
pub fn resume_jobs(schema: &str) -> (r: String)
    ensures
        r@ == spec_resume_jobs(schema@),
{
    let mut s = String::from_str("
        WITH results AS (
            UPDATE ");
    s.append(schema);
    s.append(".job
            SET state = '");
    s.append(JobState::Created.as_str());
    s.append("'::");
    s.append(schema);
    s.append(
        ".job_state, completed_on = NULL
            WHERE name = $1 AND id IN (SELECT UNNEST($2::uuid[])) AND state = '",
    );
    s.append(JobState::Cancelled.as_str());
    s.append("'::");
    s.append(schema);
    s.append(
        ".job_state
            RETURNING 1
        )
        SELECT COUNT(*) from results;
        ",
    );
    s
}

} // verus!
