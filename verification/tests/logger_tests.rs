use statsig::statsig_event::StatsigEvent;
use statsig::statsig_event_internal::{finalize_event, StatsigEventInternal};
use statsig::statsig_logger::StatsigLogger;
use statsig::statsig_options::StatsigOptions;
use statsig::statsig_user::StatsigUser;

fn event(name: &str) -> StatsigEventInternal {
    finalize_event(
        &StatsigUser::with_user_id("u".to_string()),
        StatsigEvent { event_name: name.to_string(), value: None, metadata: None },
        &None,
        1,
    )
}

fn logger(max_queue_size: u32) -> StatsigLogger {
    let mut options = StatsigOptions::default();
    options.logger_max_queue_size = max_queue_size;
    StatsigLogger::new(&options)
}

fn names(batch: &Vec<StatsigEventInternal>) -> Vec<String> {
    batch.iter().map(|e| e.event_data.event_name.clone()).collect()
}

#[test]
fn a_new_logger_is_idle() {
    let l = StatsigLogger::new(&StatsigOptions::default());
    assert_eq!(l.max_queue_size, 500);
    assert_eq!(l.flush_interval_ms, 60_000);
    assert!(l.events.is_empty());
    assert!(!l.flush_due && !l.is_shutdown);
    assert_eq!(l.running_jobs, 0);
    assert!(l.should_reschedule());
}

#[test]
fn a_flush_is_due_when_the_queue_outgrows_its_limit() {
    let mut l = logger(2);
    assert!(!l.enqueue(event("a")));
    assert!(!l.enqueue(event("b")));
    assert!(!l.flush_due);
    assert!(l.enqueue(event("c")));
    assert!(l.flush_due);
    l.flush();
    assert!(!l.flush_due);
    assert_eq!(l.running_jobs, 1);
    let batch = l.flush_impl().expect("a batch");
    assert_eq!(names(&batch), vec!["a", "b", "c"]);
    assert!(l.events.is_empty());
    assert!(l.flush_impl().is_none());
    l.job_finished();
    assert_eq!(l.running_jobs, 0);
    l.job_finished();
    assert_eq!(l.running_jobs, 0);
}

#[test]
fn flush_impl_gives_nothing_for_an_empty_queue() {
    let mut l = logger(10);
    assert!(l.flush_impl().is_none());
    l.enqueue(event("a"));
    assert_eq!(names(&l.flush_impl().unwrap()), vec!["a"]);
    assert!(l.flush_impl().is_none());
}

#[test]
fn shutdown_drains_the_queue() {
    let mut l = logger(1);
    l.enqueue(event("a"));
    l.enqueue(event("b"));
    l.flush();
    l.flush();
    let plan = l.shutdown();
    assert_eq!(plan.jobs_to_await, 2);
    assert_eq!(names(&plan.batch.unwrap()), vec!["a", "b"]);
    assert!(l.events.is_empty());
    assert!(l.is_shutdown);
    assert_eq!(l.running_jobs, 0);
    assert!(!l.flush_due);
    assert!(!l.should_reschedule());
    let again = l.shutdown();
    assert_eq!(again.jobs_to_await, 0);
    assert!(again.batch.is_none());
}
