use pgboss::classify_constraint;
use pgboss::decimal_string;
use pgboss::str_eq;
use pgboss::Error;
use pgboss::Job;
use pgboss::JobDetails;
use pgboss::JobState;
use pgboss::Queue;
use pgboss::QueueDetails;
use pgboss::QueuePolicy;

#[test]
fn job_state_labels() {
    assert_eq!(JobState::Created.as_str(), "created");
    assert_eq!(JobState::Retry.as_str(), "retry");
    assert_eq!(JobState::Active.as_str(), "active");
    assert_eq!(JobState::Completed.as_str(), "completed");
    assert_eq!(JobState::Cancelled.as_str(), "cancelled");
    assert_eq!(JobState::Failed.as_str(), "failed");
}

#[test]
fn job_state_parse_round_trip() {
    for s in [
        JobState::Created,
        JobState::Retry,
        JobState::Active,
        JobState::Completed,
        JobState::Cancelled,
        JobState::Failed,
    ] {
        assert_eq!(JobState::try_from(s.as_str()).unwrap(), s);
    }
    let err = JobState::try_from("paused").unwrap_err();
    assert_eq!(err, "Unsupported job state: paused");
}

#[test]
fn job_state_positions_are_ordered() {
    assert!(JobState::Created.position() < JobState::Retry.position());
    assert!(JobState::Retry.position() < JobState::Active.position());
    assert!(JobState::Active.position() < JobState::Completed.position());
    assert!(JobState::Completed.position() < JobState::Cancelled.position());
    assert!(JobState::Cancelled.position() < JobState::Failed.position());
}

#[test]
fn queue_policy_labels_and_parse() {
    assert_eq!(QueuePolicy::Standard.as_str(), "standard");
    assert_eq!(QueuePolicy::Short.as_str(), "short");
    assert_eq!(QueuePolicy::Singleton.as_str(), "singleton");
    assert_eq!(QueuePolicy::Stately.as_str(), "stately");
    for p in [
        QueuePolicy::Standard,
        QueuePolicy::Short,
        QueuePolicy::Singleton,
        QueuePolicy::Stately,
    ] {
        assert_eq!(QueuePolicy::try_from(p.as_str()).unwrap(), p);
    }
    let err = QueuePolicy::try_from("strict").unwrap_err();
    assert_eq!(err, "Unsupported queue policy: strict");
}

#[test]
fn queue_builder_sets_every_field() {
    let q = Queue::builder()
        .name("image_processing".to_string())
        .policy(QueuePolicy::Singleton)
        .dead_letter("image_processing_dlq".to_string())
        .retry_limit(10)
        .retry_delay(60)
        .retry_backoff(true)
        .expire_in(30)
        .retain_for(24 * 60 * 60)
        .build();
    assert_eq!(q.name, "image_processing");
    assert_eq!(q.policy, QueuePolicy::Singleton);
    assert_eq!(q.dead_letter.as_deref(), Some("image_processing_dlq"));
    assert_eq!(q.retry_limit, Some(10));
    assert_eq!(q.retry_delay, Some(60));
    assert_eq!(q.retry_backoff, Some(true));
    assert_eq!(q.expire_in, Some(30));
    assert_eq!(q.retain_for, Some(86400));
}

#[test]
fn queue_builder_defaults() {
    let q = Queue::builder().name("q".to_string()).build();
    assert_eq!(q.policy, QueuePolicy::Standard);
    assert!(q.dead_letter.is_none());
    assert!(q.retry_limit.is_none());
    assert!(q.retry_delay.is_none());
    assert!(q.retry_backoff.is_none());
    assert!(q.expire_in.is_none());
    assert!(q.retain_for.is_none());
}

#[test]
fn job_builder_sets_every_field() {
    let now = 1_700_000_000i64;
    let job = Job::builder()
        .id(7)
        .queue_name("jobtype".to_string())
        .data("{\"key\":\"value\"}".to_string())
        .priority(10)
        .dead_letter("jobtype_dlq".to_string())
        .retry_limit(1)
        .retry_delay(300)
        .retry_backoff(false)
        .expire_in(300)
        .retain_for(now, 86400)
        .delay_for(now, 5)
        .singleton_for(7)
        .singleton_key("buzz".to_string())
        .build();
    assert_eq!(job.id, Some(7));
    assert_eq!(job.queue_name, "jobtype");
    assert_eq!(job.data, "{\"key\":\"value\"}");
    assert_eq!(job.priority, 10);
    assert_eq!(job.dead_letter.as_deref(), Some("jobtype_dlq"));
    assert_eq!(job.retry_limit, Some(1));
    assert_eq!(job.retry_delay, Some(300));
    assert_eq!(job.retry_backoff, Some(false));
    assert_eq!(job.expire_in, Some(300));
    assert_eq!(job.keep_until, Some(now + 86400));
    assert_eq!(job.start_after, Some(now + 5));
    assert_eq!(job.singleton_for, Some(7));
    assert_eq!(job.singleton_key.as_deref(), Some("buzz"));
    let opts = job.opts();
    assert_eq!(opts.priority, 10);
    assert_eq!(opts.retry_limit, Some(1));
    assert_eq!(opts.singleton_key.as_deref(), Some("buzz"));
}

#[test]
fn constraint_classification() {
    match classify_constraint("j3fabc_pkey") {
        Some(Error::Conflict { msg }) => assert_eq!(msg, "job with this id already exists"),
        other => panic!("wrong classification: {:?}", other),
    }
    match classify_constraint("j3fabc_i1") {
        Some(Error::Throttled { msg }) => {
            assert_eq!(msg, "policy 'short' is applied to jobs with state 'created'")
        }
        other => panic!("wrong classification: {:?}", other),
    }
    match classify_constraint("j3fabc_i2") {
        Some(Error::Throttled { msg }) => {
            assert_eq!(msg, "policy 'singleton' is applied to jobs with state 'active'")
        }
        other => panic!("wrong classification: {:?}", other),
    }
    match classify_constraint("j3fabc_i3") {
        Some(Error::Throttled { msg }) => assert_eq!(
            msg,
            "policy 'stately' is applied to jobs with state 'created', 'retry' or 'active'"
        ),
        other => panic!("wrong classification: {:?}", other),
    }
    match classify_constraint("j3fabc_i4") {
        Some(Error::Throttled { msg }) => assert_eq!(
            msg,
            "singleton policy applied to jobs with 'singleton_on' property and state not 'cancelled'"
        ),
        other => panic!("wrong classification: {:?}", other),
    }
    match classify_constraint("dlq_fkey") {
        Some(Error::DoesNotExist { msg }) => {
            assert_eq!(msg, "dead letter queue does not exist")
        }
        other => panic!("wrong classification: {:?}", other),
    }
    assert!(classify_constraint("queue_pkey").is_none());
    assert!(classify_constraint("q_fkey").is_none());
    assert!(classify_constraint("j3fabc_i5").is_none());
    assert!(classify_constraint("").is_none());
}

#[test]
fn error_messages() {
    let e = Error::DoesNotExist { msg: "queue does not exist" };
    assert_eq!(e.message(), "cannot process: queue does not exist");
    let e = Error::Conflict { msg: "job with this id already exists" };
    assert_eq!(e.message(), "conflict in the system: job with this id already exists");
    let e = Error::Throttled { msg: "x" };
    assert_eq!(e.message(), "throttled: x");
}

#[test]
fn decimal_rendering() {
    assert_eq!(decimal_string(0), "0");
    assert_eq!(decimal_string(23), "23");
    assert_eq!(decimal_string(12345), "12345");
    assert_eq!(decimal_string(u64::MAX), "18446744073709551615");
}

#[test]
fn string_equality_helper() {
    assert!(str_eq("abc", "abc"));
    assert!(!str_eq("abc", "abd"));
    assert!(!str_eq("abc", "abcd"));
    assert!(str_eq("", ""));
}

#[test]
fn job_details_from_columns_valid() {
    let d = JobDetails::from_columns(
        42,
        "jobtype".to_string(),
        Some("jobtype_dlq".to_string()),
        "{}".to_string(),
        900_000_000,
        Some("standard".to_string()),
        10,
        2,
        5,
        1,
        true,
        1_700_000_000,
        Some(1_700_000_100),
        None,
        1_700_000_000,
        None,
        Some("k".to_string()),
        "active".to_string(),
        1_701_000_000,
    )
    .unwrap();
    assert_eq!(d.id, 42);
    assert_eq!(d.queue_name, "jobtype");
    assert_eq!(d.expire_in, 900_000_000);
    assert_eq!(d.state, JobState::Active);
    assert_eq!(d.policy, Some(QueuePolicy::Standard));
    assert_eq!(d.priority, 10);
    assert_eq!(d.retry_limit, 2);
    assert_eq!(d.retry_delay, 5);
    assert_eq!(d.retry_count, 1);
    assert!(d.retry_backoff);
    assert_eq!(d.singleton_key.as_deref(), Some("k"));
    assert_eq!(d.dead_letter.as_deref(), Some("jobtype_dlq"));
    assert_eq!(d.keep_until, 1_701_000_000);
}

#[test]
fn job_details_from_columns_errors() {
    let e = JobDetails::from_columns(
        1,
        "q".to_string(),
        None,
        "{}".to_string(),
        -1,
        None,
        0,
        0,
        0,
        0,
        false,
        0,
        None,
        None,
        0,
        None,
        None,
        "created".to_string(),
        0,
    )
    .unwrap_err();
    assert_eq!(e.column, "expire_in");
    assert_eq!(e.message, "'expire_in' should be non-negative");

    let e = JobDetails::from_columns(
        1,
        "q".to_string(),
        None,
        "{}".to_string(),
        0,
        Some("strict".to_string()),
        0,
        0,
        0,
        0,
        false,
        0,
        None,
        None,
        0,
        None,
        None,
        "created".to_string(),
        0,
    )
    .unwrap_err();
    assert_eq!(e.column, "policy");
    assert_eq!(e.message, "Unsupported queue policy: strict");

    let e = JobDetails::from_columns(
        1,
        "q".to_string(),
        None,
        "{}".to_string(),
        0,
        None,
        0,
        -3,
        0,
        0,
        false,
        0,
        None,
        None,
        0,
        None,
        None,
        "created".to_string(),
        0,
    )
    .unwrap_err();
    assert_eq!(e.column, "retry_limit");
    assert_eq!(e.message, "'retry_limit' should be non-negative, got: -3");

    let e = JobDetails::from_columns(
        1,
        "q".to_string(),
        None,
        "{}".to_string(),
        0,
        None,
        0,
        0,
        0,
        0,
        false,
        0,
        None,
        None,
        0,
        None,
        None,
        "paused".to_string(),
        0,
    )
    .unwrap_err();
    assert_eq!(e.column, "state");
    assert_eq!(e.message, "Unsupported job state: paused");
}

#[test]
fn queue_details_from_columns() {
    let d = QueueDetails::from_columns(
        "image_processing".to_string(),
        "singleton".to_string(),
        Some(10),
        Some(60),
        Some(true),
        Some(30),
        Some(24 * 60),
        Some("image_processing_dlq".to_string()),
        1_700_000_000,
        1_700_000_000,
    )
    .unwrap();
    assert_eq!(d.name, "image_processing");
    assert_eq!(d.policy, QueuePolicy::Singleton);
    assert_eq!(d.retry_limit, Some(10));
    assert_eq!(d.retry_delay, Some(60));
    assert_eq!(d.retry_backoff, Some(true));
    assert_eq!(d.expire_in, Some(30));
    assert_eq!(d.retain_for, Some(24 * 60 * 60));
    assert_eq!(d.dead_letter.as_deref(), Some("image_processing_dlq"));

    let e = QueueDetails::from_columns(
        "q".to_string(),
        "standard".to_string(),
        Some(-1),
        None,
        None,
        None,
        None,
        None,
        0,
        0,
    )
    .unwrap_err();
    assert_eq!(e.column, "retry_limit");
    assert_eq!(e.message, "'retry_limit' should be non-negative, got -1");

    let e = QueueDetails::from_columns(
        "q".to_string(),
        "bogus".to_string(),
        None,
        None,
        None,
        None,
        None,
        None,
        0,
        0,
    )
    .unwrap_err();
    assert_eq!(e.column, "policy");
    assert_eq!(e.message, "Unsupported queue policy: bogus");

    let e = QueueDetails::from_columns(
        "q".to_string(),
        "standard".to_string(),
        None,
        None,
        None,
        None,
        Some(-5),
        None,
        0,
        0,
    )
    .unwrap_err();
    assert_eq!(e.column, "retention_minutes");
    assert_eq!(e.message, "'retention_minutes' should be non-negative, got: -5");
}
