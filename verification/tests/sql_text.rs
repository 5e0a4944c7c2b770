use pgboss::ddl;
use pgboss::dml;
use pgboss::proc;
use pgboss::stmt::install_app;
use pgboss::stmt::install_functions;
use pgboss::stmt::Statements;
use pgboss::ClientBuilder;

#[test]
fn create_schema_text() {
    assert_eq!(ddl::create_schema("pgboss"), "CREATE SCHEMA IF NOT EXISTS pgboss;");
    assert_eq!(ddl::create_schema("t1"), "CREATE SCHEMA IF NOT EXISTS t1;");
}

#[test]
fn get_app_text() {
    assert_eq!(dml::get_app("pgboss"), "SELECT * FROM pgboss.version;");
}

#[test]
fn insert_version_text() {
    assert_eq!(
        dml::insert_version("pgboss", 23),
        "INSERT INTO pgboss.version (version) VALUES (23) ON CONFLICT DO NOTHING;"
    );
    assert_eq!(
        dml::insert_version("s", 7),
        "INSERT INTO s.version (version) VALUES (7) ON CONFLICT DO NOTHING;"
    );
}

#[test]
fn check_if_app_installed_text() {
    let sql = dml::check_if_app_installed("t1");
    assert!(sql.contains("SELECT EXISTS ("));
    assert!(sql.contains("table_schema = 't1' AND table_name = 'version'"));
}

#[test]
fn job_state_enum_lists_states_in_order() {
    let sql = ddl::create_job_state_enum("pgboss");
    assert!(sql.contains("CREATE TYPE pgboss.job_state AS ENUM ('created', 'retry', 'active', 'completed', 'cancelled', 'failed');"));
    assert!(sql.contains("nsp.nspname = 'pgboss'"));
}

#[test]
fn job_table_is_partitioned_with_defaults() {
    let sql = ddl::create_job_table("pgboss");
    assert!(sql.contains("CREATE TABLE IF NOT EXISTS pgboss.job ("));
    assert!(sql.contains("state pgboss.job_state not null default('created')"));
    assert!(sql.contains("expire_in interval not null default interval '15 minutes'"));
    assert!(sql.contains("keep_until timestamptz not null default now() + interval '14 days'"));
    assert!(sql.contains(") PARTITION BY LIST (name);"));
}

#[test]
fn queue_table_references_itself_for_dead_letter() {
    let sql = ddl::create_queue_table("pgboss");
    assert!(sql.contains("dead_letter text REFERENCES pgboss.queue (name)"));
    assert!(sql.contains("PRIMARY KEY (name)"));
}

#[test]
fn create_queue_function_builds_partition_and_indexes() {
    let sql = proc::create_create_queue_function("pgboss");
    assert!(sql.contains("CREATE OR REPLACE FUNCTION pgboss.create_queue(queue_name text, options jsonb)"));
    assert!(sql.contains("table_name varchar := 'j' || encode(sha224(queue_name::bytea), 'hex');"));
    assert!(sql.contains("ON CONFLICT DO NOTHING RETURNING created_on INTO queue_created_on;"));
    assert!(sql.contains("%1$s_i1 ON pgboss.%1$I (name, COALESCE(singleton_key, '''')) WHERE state = ''created'' AND policy = ''short''"));
    assert!(sql.contains("%1$s_i2 ON pgboss.%1$I (name, COALESCE(singleton_key, '''')) WHERE state = ''active'' AND policy = ''singleton''"));
    assert!(sql.contains("%1$s_i3 ON pgboss.%1$I (name, state, COALESCE(singleton_key, '''')) WHERE state <= ''active'' AND policy = ''stately''"));
    assert!(sql.contains("%1$s_i4 ON pgboss.%1$I (name, singleton_on, COALESCE(singleton_key, '''')) WHERE state <> ''cancelled'' AND singleton_on IS NOT NULL"));
    assert!(sql.contains("CREATE INDEX %1$s_i5 ON pgboss.%1$I (name, start_after) INCLUDE (priority, created_on, id) WHERE state < ''active''"));
    assert!(sql.contains("ADD CONSTRAINT dlq_fkey FOREIGN KEY (dead_letter) REFERENCES pgboss.queue (name) ON DELETE RESTRICT DEFERRABLE INITIALLY DEFERRED"));
    assert!(sql.contains("ATTACH PARTITION pgboss.%I FOR VALUES IN (%L)"));
}

#[test]
fn create_job_function_resolves_defaults() {
    let sql = proc::create_create_job_function("pgboss");
    assert!(sql.contains("COALESCE(job_id, gen_random_uuid())"));
    assert!(sql.contains("COALESCE(j.retry_limit, q.retry_limit, 2) as retry_limit"));
    assert!(sql.contains("GREATEST(COALESCE(j.retry_delay, q.retry_delay), 1)"));
    assert!(sql.contains("ELSE interval '15 minutes'"));
    assert!(sql.contains("'14 days'"));
    assert!(sql.contains("(options->>'singleton_on')::integer * floor((date_part('epoch', now()) + (options->>'singleton_offset')::integer) / (options->>'singleton_on')::integer)"));
    assert!(sql.contains("j JOIN pgboss.queue q ON j.name = q.name"));
}

#[test]
fn fetch_statement_orders_and_claims() {
    let sql = dml::fetch_jobs("pgboss");
    assert!(sql.contains("WHERE name = $1 AND state < 'active' AND start_after < now()"));
    assert!(sql.contains("ORDER BY priority DESC, created_on, id"));
    assert!(sql.contains("FOR UPDATE"));
    assert!(sql.contains("SKIP LOCKED"));
    assert!(sql.contains("state = 'active'"));
    assert!(sql.contains(
        "retry_count = CASE WHEN started_on IS NULL THEN retry_count ELSE retry_count + 1 END"
    ));
}

#[test]
fn fail_statement_deletes_reinserts_and_routes() {
    let sql = dml::fail_jobs("pgboss");
    assert!(sql.contains("AND state < 'completed'::pgboss.job_state"));
    assert!(sql.contains("WHEN retry_count < retry_limit THEN 'retry'::pgboss.job_state"));
    assert!(sql.contains("WHEN NOT retry_backoff THEN now() + retry_delay * interval '1'"));
    assert!(sql.contains("retry_delay * 2 ^ LEAST(16, retry_count + 1) / 2 +"));
    assert!(sql.contains("ON CONFLICT DO NOTHING"));
    assert!(sql.contains("WHERE id NOT IN (SELECT id from retried_jobs)"));
    assert!(sql.contains("INSERT INTO pgboss.job (name, data, output, retry_limit, keep_until)"));
    assert!(sql.contains("keep_until + (keep_until - start_after)"));
    assert!(sql.contains(
        "state = 'failed'::pgboss.job_state AND dead_letter IS NOT NULL AND NOT name = dead_letter"
    ));
    assert!(sql.contains("SELECT COUNT(*) FROM results"));
}

#[test]
fn complete_cancel_resume_statements() {
    let sql = dml::complete_jobs("pgboss");
    assert!(sql.contains("SET state = 'completed'::pgboss.job_state, completed_on = now(), output = $3::jsonb"));
    assert!(sql.contains("AND state = 'active'::pgboss.job_state"));

    let sql = dml::cancel_jobs("pgboss");
    assert!(sql.contains("SET state = 'cancelled'::pgboss.job_state, completed_on = now()"));
    assert!(sql.contains("AND state < 'completed'::pgboss.job_state"));

    let sql = dml::resume_jobs("pgboss");
    assert!(sql.contains("SET state = 'created'::pgboss.job_state, completed_on = NULL"));
    assert!(sql.contains("AND state = 'cancelled'::pgboss.job_state"));
}

#[test]
fn procedure_invocations() {
    assert_eq!(proc::create_queue("pgboss"), "SELECT pgboss.create_queue($1, $2);");
    assert_eq!(proc::delete_queue("pgboss"), "SELECT pgboss.delete_queue($1);");
    assert_eq!(proc::create_job("pgboss"), "SELECT pgboss.create_job($1, $2, $3, $4);");
}

#[test]
fn locked_install_takes_advisory_lock() {
    let sql = install_app("t1");
    assert!(sql.contains("BEGIN;"));
    assert!(sql.contains("SET LOCAL lock_timeout = '30s';"));
    assert!(sql.contains("SET LOCAL idle_in_transaction_session_timeout = '30s';"));
    assert!(sql.contains("pg_advisory_xact_lock(('x' || encode(sha224((current_database() || '.pgboss.t1')::bytea), 'hex'))::bit(64)::bigint);"));
    assert!(sql.contains("CREATE SCHEMA IF NOT EXISTS t1;"));
    assert!(sql.contains("CREATE TABLE IF NOT EXISTS t1.version"));
    assert!(sql.contains("CREATE TABLE IF NOT EXISTS t1.queue"));
    assert!(sql.contains("CREATE TABLE IF NOT EXISTS t1.subscription"));
    assert!(sql.contains("CREATE TABLE IF NOT EXISTS t1.job"));
    assert!(sql.contains("CREATE TABLE IF NOT EXISTS t1.archive"));
    assert!(sql.contains("CREATE OR REPLACE FUNCTION t1.create_queue"));
    assert!(sql.contains("CREATE OR REPLACE FUNCTION t1.delete_queue"));
    assert!(sql.contains("CREATE OR REPLACE FUNCTION t1.create_job"));
    assert!(sql.contains("INSERT INTO t1.version (version) VALUES (23) ON CONFLICT DO NOTHING;"));
    assert!(sql.contains("COMMIT;"));
}

#[test]
fn install_functions_reinstalls_only_procedures() {
    let sql = install_functions("t1");
    assert!(sql.contains("CREATE OR REPLACE FUNCTION t1.create_queue"));
    assert!(sql.contains("CREATE OR REPLACE FUNCTION t1.delete_queue"));
    assert!(sql.contains("CREATE OR REPLACE FUNCTION t1.create_job"));
    assert!(!sql.contains("CREATE SCHEMA"));
    assert!(!sql.contains("INSERT INTO t1.version"));
}

#[test]
fn statements_bundle_is_schema_scoped() {
    let s = Statements::for_schema("myschema");
    assert!(s.fetch_jobs.contains("myschema.job"));
    assert!(s.get_job_info.contains("FROM myschema.job"));
    assert!(s.delete_jobs.contains("DELETE FROM myschema.job"));
    assert!(s.fail_jobs.contains("myschema.job_state"));
    assert!(s.complete_jobs.contains("UPDATE myschema.job"));
    assert!(s.cancel_jobs.contains("UPDATE myschema.job"));
    assert!(s.resume_jobs.contains("UPDATE myschema.job"));
    assert_eq!(s.create_job, "SELECT myschema.create_job($1, $2, $3, $4);");
    assert_eq!(s.create_queue, "SELECT myschema.create_queue($1, $2);");
    assert!(s.get_queue.contains("FROM myschema.queue"));
    assert!(s.get_queues.contains("FROM myschema.queue;"));
    assert_eq!(s.delete_queue, "SELECT myschema.delete_queue($1);");
}

#[test]
fn client_builder_defaults_to_pgboss_schema() {
    let b = ClientBuilder::default();
    assert_eq!(b.schema, "pgboss");
    let s = b.statements();
    assert!(s.create_job.contains("pgboss.create_job"));
    let b = ClientBuilder::default().schema("custom".to_string());
    assert_eq!(b.schema, "custom");
    assert!(b.statements().create_queue.contains("custom.create_queue"));
}
