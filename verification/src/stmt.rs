//! Composite statements: the advisory-locked installation transaction and
//! the per-schema statement bundle a client keeps.

use vstd::prelude::*;
use vstd::string::StringExecFns;

use crate::ddl;
use crate::dml;
use crate::proc;

verus! {

/// The given lines joined with single newlines.
pub open spec fn spec_join_lines(ss: Seq<Seq<char>>) -> Seq<char>
    decreases ss.len(),
{
    if ss.len() == 0 {
        Seq::<char>::empty()
    } else if ss.len() == 1 {
        ss[0]
    } else {
        spec_join_lines(ss.drop_last()) + "\n"@ + ss.last()
    }
}

fn join_lines(stmts: &Vec<String>) -> (r: String)
    ensures
        r@ == spec_join_lines(stmts@.map_values(|s: String| s@)),
{
    let mut out = String::new();
    let mut i: usize = 0;
    while i < stmts.len()
        invariant
            i <= stmts@.len(),
            out@ == spec_join_lines(stmts@.map_values(|s: String| s@).take(i as int)),
        decreases stmts@.len() - i,
    {
        if i > 0 {
            out.append("\n");
        }
        out.append(stmts[i].as_str());
        proof {
            let views = stmts@.map_values(|s: String| s@);
            assert(views.take(i + 1).drop_last() =~= views.take(i as int));
            assert(views.take(i + 1).last() == views[i as int]);
            if i == 0 {
                assert(out@ =~= spec_join_lines(views.take(1)));
            }
        }
        i = i + 1;
    }
    proof {
        let views = stmts@.map_values(|s: String| s@);
        assert(views.take(views.len() as int) =~= views);
    }
    out
}

/// Text of [`locked`].
pub open spec fn spec_locked(schema: Seq<char>, stmts: Seq<Seq<char>>) -> Seq<char> {
    "
        BEGIN;
        SET LOCAL lock_timeout = '30s';
        SET LOCAL idle_in_transaction_session_timeout = '30s';
        SELECT pg_advisory_xact_lock(('x' || encode(sha224((current_database() || '.pgboss."@
        + schema + "')::bytea), 'hex'))::bit(64)::bigint);
        "@ + spec_join_lines(stmts) + ";
        COMMIT;
        "@
}

/// Wraps the given statements in one transaction that first takes the
/// installation's advisory lock, with defensive 30s lock and idle timeouts.
/// Many concurrent installers serialize on this lock.
pub fn locked(schema: &str, stmts: &Vec<String>) -> (r: String)
    ensures
        r@ == spec_locked(schema@, stmts@.map_values(|s: String| s@)),
{
    let mut s = String::from_str(
        "
        BEGIN;
        SET LOCAL lock_timeout = '30s';
        SET LOCAL idle_in_transaction_session_timeout = '30s';
        SELECT pg_advisory_xact_lock(('x' || encode(sha224((current_database() || '.pgboss.",
    );
    s.append(schema);
    s.append("')::bytea), 'hex'))::bit(64)::bigint);
        ");
    let joined = join_lines(stmts);
    s.append(joined.as_str());
    s.append(";
        COMMIT;
        ");
    s
}

/// The statement list a full installation runs under the advisory lock.
pub open spec fn spec_install_statements(schema: Seq<char>) -> Seq<Seq<char>> {
    seq![
        ddl::spec_create_schema(schema),
        ddl::spec_create_job_state_enum(schema),
        ddl::spec_create_version_table(schema),
        ddl::spec_create_queue_table(schema),
        ddl::spec_create_subscription_table(schema),
        ddl::spec_create_job_table(schema),
        ddl::spec_create_archive_table(schema),
        proc::spec_create_create_queue_function(schema),
        proc::spec_create_delete_queue_function(schema),
        proc::spec_create_create_job_function(schema),
        dml::spec_insert_version(schema, crate::CURRENT_APP_VERSION),
    ]
}

/// Text of [`install_app`].
pub open spec fn spec_install_app(schema: Seq<char>) -> Seq<char> {
    spec_locked(schema, spec_install_statements(schema))
}

/// The full install: under the advisory lock, create the schema, the
/// `job_state` enum, the five tables and the three procedures, then write
/// the current version row.
pub fn install_app(schema: &str) -> (r: String)
    ensures
        r@ == spec_install_app(schema@),
{
    let mut stmts: Vec<String> = Vec::new();
    stmts.push(ddl::create_schema(schema));
    stmts.push(ddl::create_job_state_enum(schema));
    stmts.push(ddl::create_version_table(schema));
    stmts.push(ddl::create_queue_table(schema));
    stmts.push(ddl::create_subscription_table(schema));
    stmts.push(ddl::create_job_table(schema));
    stmts.push(ddl::create_archive_table(schema));
    stmts.push(proc::create_create_queue_function(schema));
    stmts.push(proc::create_delete_queue_function(schema));
    stmts.push(proc::create_create_job_function(schema));
    stmts.push(dml::insert_version(schema, crate::CURRENT_APP_VERSION));
    proof {
        assert(stmts@.map_values(|s: String| s@) =~= spec_install_statements(schema@));
    }
    locked(schema, &stmts)
}

/// The statement list a re-install of the procedures runs under the lock.
pub open spec fn spec_function_statements(schema: Seq<char>) -> Seq<Seq<char>> {
    seq![
        proc::spec_create_create_queue_function(schema),
        proc::spec_create_delete_queue_function(schema),
        proc::spec_create_create_job_function(schema),
    ]
}

/// Text of [`install_functions`].
pub open spec fn spec_install_functions(schema: Seq<char>) -> Seq<char> {
    spec_locked(schema, spec_function_statements(schema))
}

/// Re-installs only the procedures, for a schema whose version row already
/// exists: the procedure bodies belong to this client, not to the schema.
pub fn install_functions(schema: &str) -> (r: String)
    ensures
        r@ == spec_install_functions(schema@),
{
    let mut stmts: Vec<String> = Vec::new();
    stmts.push(proc::create_create_queue_function(schema));
    stmts.push(proc::create_delete_queue_function(schema));
    stmts.push(proc::create_create_job_function(schema));
    proof {
        assert(stmts@.map_values(|s: String| s@) =~= spec_function_statements(schema@));
    }
    locked(schema, &stmts)
}

/// The runtime SQL a client pre-computes once per schema.
#[derive(Debug, Clone)]
pub struct Statements {
    /// Fetch-and-claim statement.
    pub fetch_jobs: String,
    /// Job detail lookup.
    pub get_job_info: String,
    /// Unconditional delete of jobs.
    pub delete_jobs: String,
    /// Failure transition.
    pub fail_jobs: String,
    /// Completion transition.
    pub complete_jobs: String,
    /// Cancel transition.
    pub cancel_jobs: String,
    /// Resume transition.
    pub resume_jobs: String,
    /// Job submission via the `create_job` procedure.
    pub create_job: String,
    /// Queue registration via the `create_queue` procedure.
    pub create_queue: String,
    /// One queue's configuration row.
    pub get_queue: String,
    /// Every queue's configuration row.
    pub get_queues: String,
    /// Queue removal via the `delete_queue` procedure.
    pub delete_queue: String,
}

impl Statements {
    /// Computes the whole bundle for one schema name.
    pub fn for_schema(name: &str) -> (r: Statements)
        ensures
            r.fetch_jobs@ == dml::spec_fetch_jobs(name@),
            r.get_job_info@ == dml::spec_get_job_info(name@),
            r.delete_jobs@ == dml::spec_delete_jobs(name@),
            r.fail_jobs@ == dml::spec_fail_jobs(name@),
            r.complete_jobs@ == dml::spec_complete_jobs(name@),
            r.cancel_jobs@ == dml::spec_cancel_jobs(name@),
            r.resume_jobs@ == dml::spec_resume_jobs(name@),
            r.create_job@ == proc::spec_create_job(name@),
            r.create_queue@ == proc::spec_create_queue(name@),
            r.get_queue@ == dml::spec_get_queue(name@),
            r.get_queues@ == dml::spec_get_queues(name@),
            r.delete_queue@ == proc::spec_delete_queue(name@),
    {
        Statements {
            fetch_jobs: dml::fetch_jobs(name),
            get_job_info: dml::get_job_info(name),
            delete_jobs: dml::delete_jobs(name),
            fail_jobs: dml::fail_jobs(name),
            complete_jobs: dml::complete_jobs(name),
            cancel_jobs: dml::cancel_jobs(name),
            resume_jobs: dml::resume_jobs(name),
            create_job: proc::create_job(name),
            create_queue: proc::create_queue(name),
            get_queue: dml::get_queue(name),
            get_queues: dml::get_queues(name),
            delete_queue: proc::delete_queue(name),
        }
    }
}

} // verus!
