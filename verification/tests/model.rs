use pgboss::engine::Database;
use pgboss::plan_setup;
use pgboss::Error;
use pgboss::Job;
use pgboss::JobOptions;
use pgboss::JobState;
use pgboss::Queue;
use pgboss::QueuePolicy;
use pgboss::SetupPlan;

const NOW: i64 = 1_700_000_000;

fn installed() -> Database {
    let mut db = Database::new();
    db.install();
    db
}

fn with_standard_queue(name: &str) -> Database {
    let mut db = installed();
    let q = Queue::builder().name(name.to_string()).build();
    db.create_queue(&q, NOW);
    db
}

fn send(db: &mut Database, gen_id: u128, name: &str) -> Result<u128, Error> {
    db.create_job(None, gen_id, name, "{}", &JobOptions::default(), NOW)
}

#[test]
fn connect_fresh_installs_current_version() {
    assert_eq!(plan_setup(None), SetupPlan::Install);
    let db = installed();
    assert!(db.installed);
    assert_eq!(db.version, 23);
}

#[test]
fn instantiated_idempotently() {
    let mut db = installed();
    let version = db.version;
    db.install();
    db.install();
    assert_eq!(db.version, version);
    assert!(db.queues.is_empty());
    assert!(db.jobs.is_empty());
}

#[test]
fn v23_app_already_exists() {
    assert_eq!(plan_setup(Some(23)), SetupPlan::ReinstallProcedures);
    assert_eq!(plan_setup(Some(24)), SetupPlan::ReinstallProcedures);
}

#[test]
fn less_than_v23_app_is_fatal() {
    assert_eq!(plan_setup(Some(20)), SetupPlan::Incompatible);
    assert_eq!(plan_setup(Some(21)), SetupPlan::Incompatible);
    assert_eq!(plan_setup(Some(22)), SetupPlan::Incompatible);
}

#[test]
fn create_standard_queue() {
    let db = with_standard_queue("job_type");
    let info = db.get_queue("job_type").expect("queue info");
    assert_eq!(info.name, "job_type");
    assert_eq!(info.policy, QueuePolicy::Standard);
    assert!(info.retry_limit.is_none());
    assert!(info.dead_letter.is_none());
    assert!(db.get_queue("other").is_none());
}

#[test]
fn create_queue_already_exists_is_silent() {
    let mut db = with_standard_queue("job_type");
    let q = Queue::builder()
        .name("job_type".to_string())
        .policy(QueuePolicy::Stately)
        .retry_limit(5)
        .build();
    db.create_queue(&q, NOW + 10);
    assert_eq!(db.queues.len(), 1);
    let info = db.get_queue("job_type").unwrap();
    assert_eq!(info.policy, QueuePolicy::Standard);
    assert!(info.retry_limit.is_none());
}

#[test]
fn create_non_standard_queue() {
    let mut db = installed();
    let dlq = Queue::builder().name("image_processing_dlq".to_string()).build();
    db.create_queue(&dlq, NOW);
    let q = Queue::builder()
        .name("image_processing".to_string())
        .policy(QueuePolicy::Singleton)
        .dead_letter("image_processing_dlq".to_string())
        .retry_limit(10)
        .retry_delay(60)
        .retry_backoff(true)
        .expire_in(30)
        .retain_for(24 * 60 * 60)
        .build();
    db.create_queue(&q, NOW);
    let info = db.get_queue("image_processing").unwrap();
    assert_eq!(info.policy, QueuePolicy::Singleton);
    assert_eq!(info.retry_limit, Some(10));
    assert_eq!(info.retry_delay, Some(60));
    assert_eq!(info.retry_backoff, Some(true));
    assert_eq!(info.expire_seconds, Some(30));
    assert_eq!(info.retention_minutes, Some(24 * 60));
    assert_eq!(info.dead_letter.as_deref(), Some("image_processing_dlq"));
    assert_eq!(db.get_queues().len(), 2);
}

#[test]
fn delete_queue_drops_its_jobs_only() {
    let mut db = with_standard_queue("job_type_1");
    let q2 = Queue::builder().name("job_type_2".to_string()).build();
    db.create_queue(&q2, NOW);
    send(&mut db, 1, "job_type_1").unwrap();
    send(&mut db, 2, "job_type_2").unwrap();
    db.delete_queue("job_type_1");
    assert!(db.get_queue("job_type_1").is_none());
    assert!(db.get_queue("job_type_2").is_some());
    assert_eq!(db.jobs.len(), 1);
    assert_eq!(db.jobs[0].id, 2);
}

#[test]
fn send_job_queue_does_not_exist() {
    let mut db = installed();
    match send(&mut db, 1, "jobtype") {
        Err(Error::DoesNotExist { msg }) => assert_eq!(msg, "queue does not exist"),
        other => panic!("expected missing queue: {:?}", other),
    }
}

#[test]
fn send_job_with_id() {
    let mut db = with_standard_queue("jobtype");
    let id = db
        .create_job(Some(77), 0, "jobtype", "{}", &JobOptions::default(), NOW)
        .expect("no error");
    assert_eq!(id, 77);
    match db.create_job(Some(77), 0, "jobtype", "{}", &JobOptions::default(), NOW) {
        Err(Error::Conflict { msg }) => assert_eq!(msg, "job with this id already exists"),
        other => panic!("expected conflict: {:?}", other),
    }
}

#[test]
fn send_job_with_dead_letter_does_not_exist() {
    let mut db = with_standard_queue("jobtype");
    let mut opts = JobOptions::default();
    opts.dead_letter = Some("jobtype_dead_letter".to_string());
    match db.create_job(None, 1, "jobtype", "{}", &opts, NOW) {
        Err(Error::DoesNotExist { msg }) => {
            assert_eq!(msg, "dead letter queue does not exist")
        }
        other => panic!("expected missing dlq: {:?}", other),
    }
}

#[test]
fn send_job_with_dead_letter() {
    let mut db = with_standard_queue("jobtype");
    let dlq = Queue::builder().name("jobtype_dead_letter_queue".to_string()).build();
    db.create_queue(&dlq, NOW);
    let mut opts = JobOptions::default();
    opts.dead_letter = Some("jobtype_dead_letter_queue".to_string());
    let id = db.create_job(None, 5, "jobtype", "{}", &opts, NOW).expect("no error");
    assert_eq!(id, 5);
    let job = db.get_job("jobtype", 5).unwrap();
    assert_eq!(job.dead_letter.as_deref(), Some("jobtype_dead_letter_queue"));
}

#[test]
fn send_job_defaults() {
    let mut db = with_standard_queue("jobtype");
    send(&mut db, 9, "jobtype").unwrap();
    let job = db.get_job("jobtype", 9).expect("this job to be present");
    assert_eq!(job.state, JobState::Created);
    assert_eq!(job.priority, 0);
    assert_eq!(job.retry_limit, 2);
    assert_eq!(job.retry_delay, 0);
    assert!(!job.retry_backoff);
    assert_eq!(job.start_after, NOW);
    assert_eq!(job.created_on, NOW);
    assert_eq!(job.expire_in, 900);
    assert_eq!(job.keep_until, NOW + 14 * 24 * 60 * 60);
    assert!(job.singleton_key.is_none());
    assert!(job.singleton_on.is_none());
    assert_eq!(job.policy, Some(QueuePolicy::Standard));
}

#[test]
fn send_job_fully_customized() {
    let mut db = installed();
    let dlq = Queue::builder().name("jobtype_dead_letter_queue".to_string()).build();
    db.create_queue(&dlq, NOW);
    let q = Queue::builder().name("jobtype".to_string()).build();
    db.create_queue(&q, NOW);
    let job = Job::builder()
        .queue_name("jobtype".to_string())
        .data("{\"key\":\"value\"}".to_string())
        .priority(10)
        .retry_limit(1)
        .dead_letter("jobtype_dead_letter_queue".to_string())
        .retry_delay(60)
        .expire_in(30)
        .keep_until(NOW + 86400)
        .start_after(NOW + 5)
        .singleton_key("buzz".to_string())
        .build();
    let id = db
        .create_job(None, 11, "jobtype", job.data.as_str(), &job.opts(), NOW)
        .expect("no error");
    let rec = db.get_job("jobtype", id).expect("this job to be present");
    assert_eq!(rec.data, "{\"key\":\"value\"}");
    assert_eq!(rec.priority, 10);
    assert_eq!(rec.retry_limit, 1);
    assert_eq!(rec.retry_delay, 60);
    assert_eq!(rec.expire_in, 30);
    assert_eq!(rec.keep_until, NOW + 86400);
    assert_eq!(rec.start_after, NOW + 5);
    assert_eq!(rec.singleton_key.as_deref(), Some("buzz"));
    assert_eq!(rec.dead_letter.as_deref(), Some("jobtype_dead_letter_queue"));
}

#[test]
fn queue_defaults_flow_into_jobs() {
    let mut db = installed();
    let q = Queue::builder()
        .name("jobtype".to_string())
        .retry_limit(4)
        .retry_delay(30)
        .retry_backoff(true)
        .expire_in(120)
        .retain_for(60 * 60)
        .build();
    db.create_queue(&q, NOW);
    send(&mut db, 3, "jobtype").unwrap();
    let job = db.get_job("jobtype", 3).unwrap();
    assert_eq!(job.retry_limit, 4);
    assert_eq!(job.retry_delay, 30);
    assert!(job.retry_backoff);
    assert_eq!(job.expire_in, 120);
    assert_eq!(job.keep_until, NOW + 60 * 60);
}

#[test]
fn send_jobs_throttled() {
    let mut db = with_standard_queue("jobtype");
    let mut opts = JobOptions::default();
    opts.singleton_for = Some(60);
    let id1 = db.create_job(None, 1, "jobtype", "{}", &opts, NOW).expect("no error");
    match db.create_job(None, 2, "jobtype", "{}", &opts, NOW) {
        Err(Error::Throttled { msg }) => assert_eq!(
            msg,
            "singleton policy applied to jobs with 'singleton_on' property and state not 'cancelled'"
        ),
        other => panic!("expected throttling: {:?}", other),
    }
    // One minute later the slot is a different one.
    let id2 = db
        .create_job(None, 2, "jobtype", "{}", &opts, NOW + 60)
        .expect("queued this time and ID issued");
    assert_ne!(id1, id2);
}

#[test]
fn short_policy_caps_queued_jobs() {
    let mut db = installed();
    let q = Queue::builder()
        .name("jobtype".to_string())
        .policy(QueuePolicy::Short)
        .build();
    db.create_queue(&q, NOW);
    send(&mut db, 1, "jobtype").unwrap();
    match send(&mut db, 2, "jobtype") {
        Err(Error::Throttled { msg }) => {
            assert_eq!(msg, "policy 'short' is applied to jobs with state 'created'")
        }
        other => panic!("expected throttling: {:?}", other),
    }
    // Claiming the queued job frees the `created` slot.
    let fetched = db.fetch_jobs("jobtype", 1, NOW + 1);
    assert_eq!(fetched.len(), 1);
    send(&mut db, 2, "jobtype").expect("no error");
}

#[test]
fn stately_policy_caps_per_state() {
    let mut db = installed();
    let q = Queue::builder()
        .name("jobtype".to_string())
        .policy(QueuePolicy::Stately)
        .build();
    db.create_queue(&q, NOW);
    send(&mut db, 1, "jobtype").unwrap();
    match send(&mut db, 2, "jobtype") {
        Err(Error::Throttled { msg }) => assert_eq!(
            msg,
            "policy 'stately' is applied to jobs with state 'created', 'retry' or 'active'"
        ),
        other => panic!("expected throttling: {:?}", other),
    }
}

#[test]
fn fetch_respects_priority_then_age_then_id() {
    let mut db = with_standard_queue("q");
    let mut opts = JobOptions::default();
    opts.priority = 1;
    db.create_job(None, 1, "q", "{}", &opts, NOW).unwrap();
    opts.priority = 0;
    db.create_job(None, 2, "q", "{}", &opts, NOW).unwrap();
    opts.priority = 10;
    db.create_job(None, 3, "q", "{}", &opts, NOW).unwrap();
    let first = db.fetch_jobs("q", 1, NOW + 1);
    assert_eq!(first.len(), 1);
    assert_eq!(first[0].priority, 10);
    let second = db.fetch_jobs("q", 1, NOW + 1);
    assert_eq!(second[0].priority, 1);
    let third = db.fetch_jobs("q", 1, NOW + 1);
    assert_eq!(third[0].priority, 0);
    assert!(db.fetch_jobs("q", 1, NOW + 1).is_empty());
}

#[test]
fn fetch_many_jobs() {
    let mut db = with_standard_queue("q");
    for id in 1..=5u128 {
        send(&mut db, id, "q").unwrap();
    }
    let batch = db.fetch_jobs("q", 3, NOW + 1);
    assert_eq!(batch.len(), 3);
    for job in &batch {
        assert_eq!(job.state, JobState::Active);
        assert_eq!(job.started_on, Some(NOW + 1));
        assert_eq!(job.retry_count, 0);
    }
    // Ids within one creation instant come out in id order.
    assert!(batch[0].id < batch[1].id && batch[1].id < batch[2].id);
    let rest = db.fetch_jobs("q", 10, NOW + 1);
    assert_eq!(rest.len(), 2);
}

#[test]
fn fetch_skips_deferred_jobs() {
    let mut db = with_standard_queue("q");
    let mut opts = JobOptions::default();
    opts.start_after = Some(NOW + 100);
    db.create_job(None, 1, "q", "{}", &opts, NOW).unwrap();
    assert!(db.fetch_jobs("q", 1, NOW + 1).is_empty());
    assert_eq!(db.fetch_jobs("q", 1, NOW + 101).len(), 1);
}

#[test]
fn complete_job() {
    let mut db = with_standard_queue("jobtype");
    let id = send(&mut db, 1, "jobtype").unwrap();
    let fetched = db.fetch_jobs("jobtype", 1, NOW + 1);
    assert_eq!(fetched.len(), 1);
    assert_eq!(fetched[0].id, id);
    assert_eq!(fetched[0].state, JobState::Active);
    let n = db.complete_jobs("jobtype", &vec![id], "{\"result\": \"success!\"}", NOW + 2);
    assert_eq!(n, 1, "one job");
    let job = db.get_job("jobtype", id).unwrap();
    assert_eq!(job.state, JobState::Completed);
    assert_eq!(job.completed_on, Some(NOW + 2));
    assert_eq!(job.output.as_deref(), Some("{\"result\": \"success!\"}"));
    // Completing again touches nothing: the job is no longer active.
    let n = db.complete_jobs("jobtype", &vec![id], "{}", NOW + 3);
    assert_eq!(n, 0);
}

#[test]
fn complete_requires_active_state() {
    let mut db = with_standard_queue("jobtype");
    let id = send(&mut db, 1, "jobtype").unwrap();
    let n = db.complete_jobs("jobtype", &vec![id], "{}", NOW + 1);
    assert_eq!(n, 0);
    assert_eq!(db.get_job("jobtype", id).unwrap().state, JobState::Created);
}

#[test]
fn cancel_and_resume_job() {
    let mut db = with_standard_queue("jobtype");
    let mut opts = JobOptions::default();
    opts.start_after = Some(NOW + 50);
    let id = db.create_job(None, 1, "jobtype", "{\"job\":\"date\"}", &opts, NOW).unwrap();
    let n = db.cancel_jobs("jobtype", &vec![id], NOW + 1);
    assert_eq!(n, 1);
    assert_eq!(db.get_job("jobtype", id).unwrap().state, JobState::Cancelled);
    let n = db.resume_jobs("jobtype", &vec![id]);
    assert_eq!(n, 1);
    let job = db.get_job("jobtype", id).unwrap();
    assert_eq!(job.state, JobState::Created);
    assert_eq!(job.start_after, NOW + 50);
    assert!(job.completed_on.is_none());
}

#[test]
fn cancelled_job_frees_its_throttling_slot() {
    let mut db = with_standard_queue("jobtype");
    let mut opts = JobOptions::default();
    opts.singleton_for = Some(60);
    let id = db.create_job(None, 1, "jobtype", "{}", &opts, NOW).unwrap();
    db.cancel_jobs("jobtype", &vec![id], NOW + 1);
    db.create_job(None, 2, "jobtype", "{}", &opts, NOW).expect("no error");
}

#[test]
fn delete_job_and_jobs() {
    let mut db = with_standard_queue("jobtype");
    for id in 50..=52u128 {
        send(&mut db, id, "jobtype").unwrap();
    }
    let n = db.delete_jobs("jobtype", &vec![50, 51]);
    assert_eq!(n, 2);
    assert_eq!(db.jobs.len(), 1);
    assert_eq!(db.jobs[0].id, 52, "the only remaining job");
    // Absent ids and absent queues remove nothing.
    assert_eq!(db.delete_jobs("jobtype", &vec![50]), 0);
    assert_eq!(db.delete_jobs("no_such_queue", &vec![52]), 0);
}

#[test]
fn fail_job_without_retry() {
    let mut db = with_standard_queue("jobtype");
    let id = send(&mut db, 1, "jobtype").unwrap();
    // retry_limit defaults to 2; exhaust nothing, fail unfetched directly.
    let mut opts = JobOptions::default();
    opts.retry_limit = Some(0);
    let id2 = db.create_job(None, 2, "jobtype", "{}", &opts, NOW).unwrap();
    let n = db.fail_jobs(
        "jobtype",
        &vec![id2],
        "{\"reason\": \"for demo purposes\"}",
        NOW + 1,
        0,
        &vec![1000],
    );
    assert_eq!(n, 1, "one job");
    let job = db.get_job("jobtype", id2).unwrap();
    assert_eq!(job.state, JobState::Failed);
    assert_eq!(job.completed_on, Some(NOW + 1));
    assert_eq!(job.output.as_deref(), Some("{\"reason\": \"for demo purposes\"}"));
    // The other job is untouched.
    assert_eq!(db.get_job("jobtype", id).unwrap().state, JobState::Created);
}

#[test]
fn fail_job_with_retry_and_backoff_window() {
    let mut db = with_standard_queue("q");
    let mut opts = JobOptions::default();
    opts.retry_limit = Some(1);
    opts.retry_delay = Some(5);
    let id = db.create_job(None, 1, "q", "{}", &opts, NOW).unwrap();

    let fetched = db.fetch_jobs("q", 1, NOW + 1);
    assert_eq!(fetched.len(), 1);
    let n = db.fail_jobs("q", &vec![id], "{}", NOW + 2, 0, &vec![1000]);
    assert_eq!(n, 1);

    // Reinjected as retry, invisible until the delay has passed.
    let job = db.get_job("q", id).unwrap();
    assert_eq!(job.state, JobState::Retry);
    assert_eq!(job.retry_count, 0);
    assert_eq!(job.start_after, NOW + 2 + 5);
    assert!(db.fetch_jobs("q", 1, NOW + 3).is_empty());

    // After the delay it is claimed again, and the counter now counts.
    let fetched = db.fetch_jobs("q", 1, NOW + 8);
    assert_eq!(fetched.len(), 1);
    assert_eq!(fetched[0].retry_count, 1);

    // A second failure is terminal.
    let n = db.fail_jobs("q", &vec![id], "{}", NOW + 9, 0, &vec![1001]);
    assert_eq!(n, 1);
    assert_eq!(db.get_job("q", id).unwrap().state, JobState::Failed);
}

#[test]
fn fail_with_exponential_backoff() {
    let mut db = with_standard_queue("q");
    let mut opts = JobOptions::default();
    opts.retry_limit = Some(3);
    opts.retry_delay = Some(4);
    opts.retry_backoff = Some(true);
    let id = db.create_job(None, 1, "q", "{}", &opts, NOW).unwrap();
    db.fetch_jobs("q", 1, NOW + 1);
    // First failure: exponent is min(16, 0 + 1) = 1, half = 4 * 2 / 2 = 4;
    // with a jitter draw of 3 the delay is 4 + 3.
    db.fail_jobs("q", &vec![id], "{}", NOW + 2, 3, &vec![1000]);
    let job = db.get_job("q", id).unwrap();
    assert_eq!(job.state, JobState::Retry);
    assert_eq!(job.start_after, NOW + 2 + 4 + 3);
    // The jitter never exceeds the half-window.
    db.fetch_jobs("q", 1, NOW + 100);
    db.fail_jobs("q", &vec![id], "{}", NOW + 101, u64::MAX, &vec![1001]);
    let job = db.get_job("q", id).unwrap();
    // Second failure: count is 1, exponent 2, half = 4 * 4 / 2 = 8, jitter
    // clamps to 8.
    assert_eq!(job.start_after, NOW + 101 + 8 + 8);
}

#[test]
fn dead_letter_routing() {
    let mut db = with_standard_queue("a");
    let dlq = Queue::builder().name("a_dlq".to_string()).build();
    db.create_queue(&dlq, NOW);
    let mut opts = JobOptions::default();
    opts.retry_limit = Some(0);
    opts.dead_letter = Some("a_dlq".to_string());
    let id = db
        .create_job(None, 1, "a", "{\"some\":\"data\"}", &opts, NOW)
        .unwrap();
    db.fetch_jobs("a", 1, NOW + 1);
    let n = db.fail_jobs("a", &vec![id], "{\"err\":\"x\"}", NOW + 2, 0, &vec![5000]);
    assert_eq!(n, 1);
    // The job itself became failed.
    assert_eq!(db.get_job("a", id).unwrap().state, JobState::Failed);
    // Exactly one copy arrived in the dead letter queue.
    let copies = db.fetch_jobs("a_dlq", 10, NOW + 3);
    assert_eq!(copies.len(), 1);
    let copy = &copies[0];
    assert_eq!(copy.name, "a_dlq");
    assert_eq!(copy.data, "{\"some\":\"data\"}");
    assert_eq!(copy.output.as_deref(), Some("{\"err\":\"x\"}"));
    assert_eq!(copy.retry_limit, 0);
    assert!(copy.dead_letter.is_none());
    // Retention stretched by (keep_until - start_after) of the failed row.
    let keep = NOW + 14 * 24 * 60 * 60;
    assert_eq!(copy.keep_until, keep + (keep - NOW));
}

#[test]
fn dlq_self_loop_produces_no_new_job() {
    let mut db = with_standard_queue("jobtype");
    let mut opts = JobOptions::default();
    opts.retry_limit = Some(0);
    opts.dead_letter = Some("jobtype".to_string());
    let id = db.create_job(None, 1, "jobtype", "{}", &opts, NOW).unwrap();
    db.fetch_jobs("jobtype", 1, NOW + 1);
    let before = db.jobs.len();
    let n = db.fail_jobs(
        "jobtype",
        &vec![id],
        "{\"details\": \"testing...\"}",
        NOW + 2,
        0,
        &vec![5000],
    );
    assert_eq!(n, 1);
    assert_eq!(db.jobs.len(), before, "only the state change, no new job");
    assert_eq!(db.get_job("jobtype", id).unwrap().state, JobState::Failed);
}

#[test]
fn fail_many_jobs_counts_deleted_rows() {
    let mut db = with_standard_queue("q");
    for id in 1..=3u128 {
        send(&mut db, id, "q").unwrap();
    }
    let n = db.fail_jobs("q", &vec![1, 2, 3, 4], "{}", NOW + 1, 0, &vec![100, 101, 102, 103]);
    assert_eq!(n, 3);
}

#[test]
fn two_fetches_claim_disjoint_jobs() {
    let mut db = with_standard_queue("q");
    for id in 1..=4u128 {
        send(&mut db, id, "q").unwrap();
    }
    let first = db.fetch_jobs("q", 2, NOW + 1);
    let second = db.fetch_jobs("q", 10, NOW + 1);
    assert_eq!(first.len(), 2);
    assert_eq!(second.len(), 2);
    for a in &first {
        for b in &second {
            assert_ne!(a.id, b.id);
        }
    }
}
