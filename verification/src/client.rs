//! What a connecting client decides before any work: which schema to use,
//! which SQL to keep at hand, and what to do about an existing
//! installation's version.

use vstd::prelude::*;
use vstd::string::StringExecFns;

use crate::stmt::Statements;

verus! {

/// Builder for a client: picks the schema name of the installation to work
/// against.
#[derive(Debug)]
pub struct ClientBuilder {
    /// Schema name of the installation.
    pub schema: String,
}

impl Default for ClientBuilder {
    fn default() -> (r: Self)
        ensures
            r.schema@ == "pgboss"@,
    {
        ClientBuilder { schema: String::from_str("pgboss") }
    }
}

impl ClientBuilder {
    /// Schema name.
    pub fn schema(self, schema: String) -> (r: Self)
        ensures
            r.schema == schema,
    {
        ClientBuilder { schema }
    }

    /// The runtime SQL bundle for the chosen schema, computed once.
    pub fn statements(&self) -> (r: Statements)
        ensures
            r.fetch_jobs@ == crate::dml::spec_fetch_jobs(self.schema@),
            r.get_job_info@ == crate::dml::spec_get_job_info(self.schema@),
            r.delete_jobs@ == crate::dml::spec_delete_jobs(self.schema@),
            r.fail_jobs@ == crate::dml::spec_fail_jobs(self.schema@),
            r.complete_jobs@ == crate::dml::spec_complete_jobs(self.schema@),
            r.cancel_jobs@ == crate::dml::spec_cancel_jobs(self.schema@),
            r.resume_jobs@ == crate::dml::spec_resume_jobs(self.schema@),
            r.create_job@ == crate::proc::spec_create_job(self.schema@),
            r.create_queue@ == crate::proc::spec_create_queue(self.schema@),
            r.get_queue@ == crate::dml::spec_get_queue(self.schema@),
            r.get_queues@ == crate::dml::spec_get_queues(self.schema@),
            r.delete_queue@ == crate::proc::spec_delete_queue(self.schema@),
    {
        Statements::for_schema(self.schema.as_str())
    }
}

/// What a connecting client must do, given what the version probe found.
#[derive(Debug, Clone, Copy, PartialEq, Eq, Structural)]
pub enum SetupPlan {
    /// No version row: run the full install under the advisory lock.
    Install,
    /// A supported installation exists: re-install only the procedures,
    /// whose bodies belong to this client.
    ReinstallProcedures,
    /// The installation is older than the supported baseline: abort, this
    /// is fatal.
    Incompatible,
}

/// The version gate: no version row means a fresh install; a version below
/// the supported baseline is fatal; anything else re-installs the
/// procedures and otherwise leaves the schema alone.
pub fn plan_setup(existing_version: Option<i64>) -> (r: SetupPlan)
    ensures
        existing_version is None ==> r == SetupPlan::Install,
        (existing_version matches Some(v) && v < crate::MINIMUM_SUPPORTED_APP_VERSION as i64)
            ==> r == SetupPlan::Incompatible,
        (existing_version matches Some(v) && v >= crate::MINIMUM_SUPPORTED_APP_VERSION as i64)
            ==> r == SetupPlan::ReinstallProcedures,
{
    match existing_version {
        None => SetupPlan::Install,
        Some(v) => {
            if v < crate::MINIMUM_SUPPORTED_APP_VERSION as i64 {
                SetupPlan::Incompatible
            } else {
                SetupPlan::ReinstallProcedures
            }
        },
    }
}

} // verus!
