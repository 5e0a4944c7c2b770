//! Schema-scoped text of the server-side procedures and of the statements
//! that invoke them.
//!
//! The procedures are re-installed on every start even when the schema
//! version matches, because their bodies belong to this client, not to the
//! schema: older peer procedures can legitimately coexist.

use vstd::prelude::*;
use vstd::string::StringExecFns;

use crate::job::JobState;
use crate::job::spec_state_label;
use crate::queue::QueuePolicy;
use crate::queue::spec_policy_label;

verus! {

/// Text of [`create_create_queue_function`].
pub open spec fn spec_create_create_queue_function(schema: Seq<char>) -> Seq<char> {
    "
        CREATE OR REPLACE FUNCTION "@ + schema
        + ".create_queue(queue_name text, options jsonb)
        RETURNS VOID AS
        $$
        DECLARE
            table_name varchar := 'j' || encode(sha224(queue_name::bytea), 'hex');
            queue_created_on timestamptz;
        BEGIN
            INSERT INTO "@ + schema
        + ".queue (
                name,
                policy,
                retry_limit,
                retry_delay,
                retry_backoff,
                expire_seconds,
                retention_minutes,
                dead_letter,
                partition_name
            )
            VALUES (
                queue_name,
                options->>'policy',
                (options->>'retryLimit')::int,
                (options->>'retryDelay')::int,
                (options->>'retryBackoff')::bool,
                (options->>'expireInSeconds')::int,
                (options->>'retentionMinutes')::int,
                options->>'deadLetter',
                table_name
            ) ON CONFLICT DO NOTHING RETURNING created_on INTO queue_created_on;

            IF queue_created_on IS NULL THEN
                RETURN;
            END IF;

            EXECUTE format('CREATE TABLE "@ + schema + ".%I (LIKE "@ + schema
        + ".job INCLUDING DEFAULTS)', table_name);
            EXECUTE format('ALTER TABLE "@ + schema
        + ".%I ADD PRIMARY KEY (name, id)', table_name);
            EXECUTE format('ALTER TABLE "@ + schema
        + ".%I ADD CONSTRAINT q_fkey FOREIGN KEY (name) REFERENCES "@ + schema
        + ".queue (name) ON DELETE RESTRICT DEFERRABLE INITIALLY DEFERRED', table_name);
            EXECUTE format('ALTER TABLE "@ + schema
        + ".%I ADD CONSTRAINT dlq_fkey FOREIGN KEY (dead_letter) REFERENCES "@ + schema
        + ".queue (name) ON DELETE RESTRICT DEFERRABLE INITIALLY DEFERRED', table_name);

            EXECUTE format('CREATE UNIQUE INDEX %1$s_i1 ON "@ + schema
        + ".%1$I (name, COALESCE(singleton_key, '''')) WHERE state = ''"@ + spec_state_label(
        JobState::Created,
    ) + "'' AND policy = ''"@ + spec_policy_label(QueuePolicy::Short)
        + "''', table_name);
            EXECUTE format('CREATE UNIQUE INDEX %1$s_i2 ON "@ + schema
        + ".%1$I (name, COALESCE(singleton_key, '''')) WHERE state = ''"@ + spec_state_label(
        JobState::Active,
    ) + "'' AND policy = ''"@ + spec_policy_label(QueuePolicy::Singleton)
        + "''', table_name);
            EXECUTE format('CREATE UNIQUE INDEX %1$s_i3 ON "@ + schema
        + ".%1$I (name, state, COALESCE(singleton_key, '''')) WHERE state <= ''"@
        + spec_state_label(JobState::Active) + "'' AND policy = ''"@ + spec_policy_label(
        QueuePolicy::Stately,
    ) + "''', table_name);
            EXECUTE format('CREATE UNIQUE INDEX %1$s_i4 ON "@ + schema
        + ".%1$I (name, singleton_on, COALESCE(singleton_key, '''')) WHERE state <> ''"@
        + spec_state_label(JobState::Cancelled)
        + "'' AND singleton_on IS NOT NULL', table_name);

            EXECUTE format('CREATE INDEX %1$s_i5 ON "@ + schema
        + ".%1$I (name, start_after) INCLUDE (priority, created_on, id) WHERE state < ''"@
        + spec_state_label(JobState::Active)
        + "''', table_name);

            EXECUTE format('ALTER TABLE "@ + schema
        + ".%I ADD CONSTRAINT cjc CHECK (name=%L)', table_name, queue_name);
            EXECUTE format('ALTER TABLE "@ + schema + ".job ATTACH PARTITION "@ + schema
        + ".%I FOR VALUES IN (%L)', table_name, queue_name);

        END;
        $$
        LANGUAGE plpgsql;
        "@
}

/// The `create_queue` procedure: upserts the configuration row and, when the
/// queue is new, creates its partition with the primary key, the two
/// deferrable foreign keys, the four partial unique throttling indexes, the
/// fetch index, the partition predicate, and attaches it.
pub fn create_create_queue_function(schema: &str) -> (r: String)
    ensures
        r@ == spec_create_create_queue_function(schema@),
{
    let mut s = String::from_str("
        CREATE OR REPLACE FUNCTION ");
    s.append(schema);
    s.append(
        ".create_queue(queue_name text, options jsonb)
        RETURNS VOID AS
        $$
        DECLARE
            table_name varchar := 'j' || encode(sha224(queue_name::bytea), 'hex');
            queue_created_on timestamptz;
        BEGIN
            INSERT INTO ",
    );
    s.append(schema);
    s.append(
        ".queue (
                name,
                policy,
                retry_limit,
                retry_delay,
                retry_backoff,
                expire_seconds,
                retention_minutes,
                dead_letter,
                partition_name
            )
            VALUES (
                queue_name,
                options->>'policy',
                (options->>'retryLimit')::int,
                (options->>'retryDelay')::int,
                (options->>'retryBackoff')::bool,
                (options->>'expireInSeconds')::int,
                (options->>'retentionMinutes')::int,
                options->>'deadLetter',
                table_name
            ) ON CONFLICT DO NOTHING RETURNING created_on INTO queue_created_on;

            IF queue_created_on IS NULL THEN
                RETURN;
            END IF;

            EXECUTE format('CREATE TABLE ",
    );
    s.append(schema);
    s.append(".%I (LIKE ");
    s.append(schema);
    s.append(
        ".job INCLUDING DEFAULTS)', table_name);
            EXECUTE format('ALTER TABLE ",
    );
    s.append(schema);
    s.append(
        ".%I ADD PRIMARY KEY (name, id)', table_name);
            EXECUTE format('ALTER TABLE ",
    );
    s.append(schema);
    s.append(".%I ADD CONSTRAINT q_fkey FOREIGN KEY (name) REFERENCES ");
    s.append(schema);
    s.append(
        ".queue (name) ON DELETE RESTRICT DEFERRABLE INITIALLY DEFERRED', table_name);
            EXECUTE format('ALTER TABLE ",
    );
    s.append(schema);
    s.append(".%I ADD CONSTRAINT dlq_fkey FOREIGN KEY (dead_letter) REFERENCES ");
    s.append(schema);
    s.append(
        ".queue (name) ON DELETE RESTRICT DEFERRABLE INITIALLY DEFERRED', table_name);

            EXECUTE format('CREATE UNIQUE INDEX %1$s_i1 ON ",
    );
    s.append(schema);
    s.append(".%1$I (name, COALESCE(singleton_key, '''')) WHERE state = ''");
    s.append(JobState::Created.as_str());
    s.append("'' AND policy = ''");
    s.append(QueuePolicy::Short.as_str());
    s.append(
        "''', table_name);
            EXECUTE format('CREATE UNIQUE INDEX %1$s_i2 ON ",
    );
    s.append(schema);
    s.append(".%1$I (name, COALESCE(singleton_key, '''')) WHERE state = ''");
    s.append(JobState::Active.as_str());
    s.append("'' AND policy = ''");
    s.append(QueuePolicy::Singleton.as_str());
    s.append(
        "''', table_name);
            EXECUTE format('CREATE UNIQUE INDEX %1$s_i3 ON ",
    );
    s.append(schema);
    s.append(".%1$I (name, state, COALESCE(singleton_key, '''')) WHERE state <= ''");
    s.append(JobState::Active.as_str());
    s.append("'' AND policy = ''");
    s.append(QueuePolicy::Stately.as_str());
    s.append(
        "''', table_name);
            EXECUTE format('CREATE UNIQUE INDEX %1$s_i4 ON ",
    );
    s.append(schema);
    s.append(".%1$I (name, singleton_on, COALESCE(singleton_key, '''')) WHERE state <> ''");
    s.append(JobState::Cancelled.as_str());
    s.append(
        "'' AND singleton_on IS NOT NULL', table_name);

            EXECUTE format('CREATE INDEX %1$s_i5 ON ",
    );
    s.append(schema);
    s.append(".%1$I (name, start_after) INCLUDE (priority, created_on, id) WHERE state < ''");
    s.append(JobState::Active.as_str());
    s.append(
        "''', table_name);

            EXECUTE format('ALTER TABLE ",
    );
    s.append(schema);
    s.append(
        ".%I ADD CONSTRAINT cjc CHECK (name=%L)', table_name, queue_name);
            EXECUTE format('ALTER TABLE ",
    );
    s.append(schema);
    s.append(".job ATTACH PARTITION ");
    s.append(schema);
    s.append(
        ".%I FOR VALUES IN (%L)', table_name, queue_name);

        END;
        $$
        LANGUAGE plpgsql;
        ",
    );
    s
}

/// Text of [`create_queue`].
pub open spec fn spec_create_queue(schema: Seq<char>) -> Seq<char> {
    "SELECT "@ + schema + ".create_queue($1, $2);"@
}

/// Invokes the `create_queue` procedure.
pub fn create_queue(schema: &str) -> (r: String)
    ensures
        r@ == spec_create_queue(schema@),
{
    let mut s = String::from_str("SELECT ");
    s.append(schema);
    s.append(".create_queue($1, $2);");
    s
}

/// Text of [`create_delete_queue_function`].
pub open spec fn spec_create_delete_queue_function(schema: Seq<char>) -> Seq<char> {
    "
        CREATE OR REPLACE FUNCTION "@ + schema
        + ".delete_queue(queue_name text)
        RETURNS VOID AS
        $$
        DECLARE
            table_name varchar;
        BEGIN
            WITH deleted as (
                DELETE FROM "@ + schema
        + ".queue WHERE name = queue_name RETURNING partition_name
            )
            SELECT partition_name FROM deleted INTO table_name;
            EXECUTE format('DROP TABLE IF EXISTS "@ + schema
        + ".%I', table_name);
        END;
        $$
        LANGUAGE plpgsql;
        "@
}

/// The `delete_queue` procedure: deletes the configuration row and drops the
/// queue's partition with its jobs; the archive is untouched.
pub fn create_delete_queue_function(schema: &str) -> (r: String)
    ensures
        r@ == spec_create_delete_queue_function(schema@),
{
    let mut s = String::from_str("
        CREATE OR REPLACE FUNCTION ");
    s.append(schema);
    s.append(
        ".delete_queue(queue_name text)
        RETURNS VOID AS
        $$
        DECLARE
            table_name varchar;
        BEGIN
            WITH deleted as (
                DELETE FROM ",
    );
    s.append(schema);
    s.append(
        ".queue WHERE name = queue_name RETURNING partition_name
            )
            SELECT partition_name FROM deleted INTO table_name;
            EXECUTE format('DROP TABLE IF EXISTS ",
    );
    s.append(schema);
    s.append(
        ".%I', table_name);
        END;
        $$
        LANGUAGE plpgsql;
        ",
    );
    s
}

/// Text of [`delete_queue`].
pub open spec fn spec_delete_queue(schema: Seq<char>) -> Seq<char> {
    "SELECT "@ + schema + ".delete_queue($1);"@
}

/// Invokes the `delete_queue` procedure.
pub fn delete_queue(schema: &str) -> (r: String)
    ensures
        r@ == spec_delete_queue(schema@),
{
    let mut s = String::from_str("SELECT ");
    s.append(schema);
    s.append(".delete_queue($1);");
    s
}

/// Text of [`create_create_job_function`].
pub open spec fn spec_create_create_job_function(schema: Seq<char>) -> Seq<char> {
    "
        CREATE OR REPLACE FUNCTION "@ + schema
        + ".create_job(job_id uuid, name text, data jsonb, options jsonb, OUT inserted_id uuid)
        RETURNS uuid AS
        $$
        BEGIN
        INSERT INTO "@ + schema
        + ".job (
            id,
            name,
            data,
            priority,
            start_after,
            singleton_key,
            singleton_on,
            dead_letter,
            expire_in,
            keep_until,
            retry_limit,
            retry_delay,
            retry_backoff,
            policy
        )
        SELECT
            job_id_provided_or_generated,
            j.name,
            job_data,
            priority,
            start_after,
            singleton_key,
            singleton_on,
            COALESCE(j.dead_letter, q.dead_letter) as dead_letter,
            CASE
                WHEN expire_in IS NOT NULL THEN CAST(expire_in as interval)
                WHEN q.expire_seconds IS NOT NULL THEN q.expire_seconds * interval '1s'
                ELSE interval '15 minutes'
            END as expire_in,
            CASE
                WHEN right(keep_until, 1) = 'Z' THEN CAST(keep_until as timestamptz)
                ELSE start_after + CAST(COALESCE(keep_until, (q.retention_minutes * 60)::text, '14 days') as interval)
            END as keep_until,
            COALESCE(j.retry_limit, q.retry_limit, 2) as retry_limit,
            CASE
                WHEN COALESCE(j.retry_backoff, q.retry_backoff, false)
                THEN GREATEST(COALESCE(j.retry_delay, q.retry_delay), 1)
                ELSE COALESCE(j.retry_delay, q.retry_delay, 0)
            END as retry_delay,
            COALESCE(j.retry_backoff, q.retry_backoff, false) as retry_backoff,
            q.policy
        FROM (
            SELECT
                COALESCE(job_id, gen_random_uuid()) as job_id_provided_or_generated,
                name,
                data as job_data,
                COALESCE((options->>'priority')::int, 0) as priority,
                CASE
                    WHEN right(options->>'start_after', 1) = 'Z' THEN CAST(options->>'start_after' as timestamptz)
                    ELSE now() + CAST(COALESCE(options->>'start_after','0') as interval)
                END as start_after,
                options->>'singleton_key' as singleton_key,
                CASE
                    WHEN (options->>'singleton_on')::integer IS NOT NULL THEN 'epoch'::timestamp + '1 second'::interval * ((options->>'singleton_on')::integer * floor((date_part('epoch', now()) + (options->>'singleton_offset')::integer) / (options->>'singleton_on')::integer))
                    ELSE NULL
                END as singleton_on,
                options->>'dead_letter' as dead_letter,
                options->>'expire_in' as expire_in,
                options->>'keep_until' as keep_until,
                (options->>'retry_limit')::integer as retry_limit,
                (options->>'retry_delay')::integer as retry_delay,
                (options->>'retry_backoff')::boolean as retry_backoff
            ) j JOIN "@ + schema
        + ".queue q ON j.name = q.name
        RETURNING id INTO inserted_id;
        END;
        $$
        LANGUAGE plpgsql;
        "@
}

/// The `create_job` procedure: one insert that resolves defaults from the
/// queue's configuration, computes the throttling slot, and returns the new
/// id, or NULL when the queue does not exist.
pub fn create_create_job_function(schema: &str) -> (r: String)
    ensures
        r@ == spec_create_create_job_function(schema@),
{
    let mut s = String::from_str("
        CREATE OR REPLACE FUNCTION ");
    s.append(schema);
    s.append(
        ".create_job(job_id uuid, name text, data jsonb, options jsonb, OUT inserted_id uuid)
        RETURNS uuid AS
        $$
        BEGIN
        INSERT INTO ",
    );
    s.append(schema);
    s.append(
        ".job (
            id,
            name,
            data,
            priority,
            start_after,
            singleton_key,
            singleton_on,
            dead_letter,
            expire_in,
            keep_until,
            retry_limit,
            retry_delay,
            retry_backoff,
            policy
        )
        SELECT
            job_id_provided_or_generated,
            j.name,
            job_data,
            priority,
            start_after,
            singleton_key,
            singleton_on,
            COALESCE(j.dead_letter, q.dead_letter) as dead_letter,
            CASE
                WHEN expire_in IS NOT NULL THEN CAST(expire_in as interval)
                WHEN q.expire_seconds IS NOT NULL THEN q.expire_seconds * interval '1s'
                ELSE interval '15 minutes'
            END as expire_in,
            CASE
                WHEN right(keep_until, 1) = 'Z' THEN CAST(keep_until as timestamptz)
                ELSE start_after + CAST(COALESCE(keep_until, (q.retention_minutes * 60)::text, '14 days') as interval)
            END as keep_until,
            COALESCE(j.retry_limit, q.retry_limit, 2) as retry_limit,
            CASE
                WHEN COALESCE(j.retry_backoff, q.retry_backoff, false)
                THEN GREATEST(COALESCE(j.retry_delay, q.retry_delay), 1)
                ELSE COALESCE(j.retry_delay, q.retry_delay, 0)
            END as retry_delay,
            COALESCE(j.retry_backoff, q.retry_backoff, false) as retry_backoff,
            q.policy
        FROM (
            SELECT
                COALESCE(job_id, gen_random_uuid()) as job_id_provided_or_generated,
                name,
                data as job_data,
                COALESCE((options->>'priority')::int, 0) as priority,
                CASE
                    WHEN right(options->>'start_after', 1) = 'Z' THEN CAST(options->>'start_after' as timestamptz)
                    ELSE now() + CAST(COALESCE(options->>'start_after','0') as interval)
                END as start_after,
                options->>'singleton_key' as singleton_key,
                CASE
                    WHEN (options->>'singleton_on')::integer IS NOT NULL THEN 'epoch'::timestamp + '1 second'::interval * ((options->>'singleton_on')::integer * floor((date_part('epoch', now()) + (options->>'singleton_offset')::integer) / (options->>'singleton_on')::integer))
                    ELSE NULL
                END as singleton_on,
                options->>'dead_letter' as dead_letter,
                options->>'expire_in' as expire_in,
                options->>'keep_until' as keep_until,
                (options->>'retry_limit')::integer as retry_limit,
                (options->>'retry_delay')::integer as retry_delay,
                (options->>'retry_backoff')::boolean as retry_backoff
            ) j JOIN ",
    );
    s.append(schema);
    s.append(
        ".queue q ON j.name = q.name
        RETURNING id INTO inserted_id;
        END;
        $$
        LANGUAGE plpgsql;
        ",
    );
    s
}

/// Text of [`create_job`].
pub open spec fn spec_create_job(schema: Seq<char>) -> Seq<char> {
    "SELECT "@ + schema + ".create_job($1, $2, $3, $4);"@
}

/// Invokes the `create_job` procedure.
pub fn create_job(schema: &str) -> (r: String)
    ensures
        r@ == spec_create_job(schema@),
{
    let mut s = String::from_str("SELECT ");
    s.append(schema);
    s.append(".create_job($1, $2, $3, $4);");
    s
}

} // verus!
