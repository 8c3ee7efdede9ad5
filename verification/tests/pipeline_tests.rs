use job_monitor::config::Config;
use job_monitor::dedup::process_jobs;
use job_monitor::fetch::{fetch_step, select_user_agent, FetchDecision, FetchEvent, RetryPolicy};
use job_monitor::model::JobInfo;
use job_monitor::schedule::{persist_step, plan_tick, PersistAction};
use job_monitor::seen_set::SeenSet;
use job_monitor::shutdown::ShutdownService;

fn job(id: &str, location: &str) -> JobInfo {
    JobInfo {
        id: id.to_string(),
        title: format!("{} title", id),
        location: location.to_string(),
        job_type: "FLEX_TIME".to_string(),
        pay_min_cents: 1_750,
        pay_max_cents: 2_225,
        shift: 3,
    }
}

#[test]
fn all_seen_ids_produce_no_batches() {
    let mut seen = SeenSet::new();
    seen.insert_if_new("J1".to_string());
    seen.insert_if_new("J2".to_string());
    let jobs = vec![job("J1", "NY"), job("J2", "LA")];
    let batches = process_jobs(&mut seen, &jobs);
    assert_eq!(batches.len(), 0);
    assert_eq!(seen.len(), 2);
}

#[test]
fn two_locations_produce_two_batches_in_order() {
    let mut seen = SeenSet::new();
    let jobs = vec![job("A", "NY"), job("B", "LA"), job("C", "NY")];
    let batches = process_jobs(&mut seen, &jobs);
    assert_eq!(batches.len(), 2);
    assert_eq!(batches[0].location, "NY");
    assert_eq!(batches[0].jobs.len(), 2);
    assert_eq!(batches[0].jobs[0].id, "A");
    assert_eq!(batches[0].jobs[1].id, "C");
    assert_eq!(batches[1].location, "LA");
    assert_eq!(batches[1].jobs.len(), 1);
    assert_eq!(batches[1].jobs[0].id, "B");
}

#[test]
fn end_to_end_dedup_scenario() {
    let mut seen = SeenSet::new();
    seen.insert_if_new("J1".to_string());
    let jobs = vec![job("J1", "TX"), job("J2", "NY"), job("J3", "NY")];
    let batches = process_jobs(&mut seen, &jobs);
    assert_eq!(seen.len(), 3);
    assert!(seen.contains(&"J1".to_string()));
    assert!(seen.contains(&"J2".to_string()));
    assert!(seen.contains(&"J3".to_string()));
    assert_eq!(batches.len(), 1);
    assert_eq!(batches[0].location, "NY");
    assert_eq!(batches[0].jobs.len(), 2);
    assert_eq!(batches[0].jobs[0].id, "J2");
    assert_eq!(batches[0].jobs[1].id, "J3");
    for batch in &batches {
        for j in &batch.jobs {
            assert_ne!(j.id, "J1");
        }
    }
}

#[test]
fn duplicate_ids_within_one_fetch_counted_once() {
    let mut seen = SeenSet::new();
    let jobs = vec![job("A", "NY"), job("A", "NY"), job("A", "LA")];
    let batches = process_jobs(&mut seen, &jobs);
    assert_eq!(seen.len(), 1);
    assert_eq!(batches.len(), 1);
    assert_eq!(batches[0].location, "NY");
    assert_eq!(batches[0].jobs.len(), 1);
}

#[test]
fn shutdown_mid_retry_returns_empty_at_once() {
    let policy = RetryPolicy { max_retries: 5, retry_base_ms: 500, retry_max_delay_ms: 10_000 };
    match fetch_step(&policy, 2, FetchEvent::ShutdownObserved) {
        FetchDecision::Finish(jobs) => assert!(jobs.is_empty()),
        FetchDecision::RetryAfter(_) => panic!("shutdown must not consume a retry delay"),
        FetchDecision::GiveUp => panic!("shutdown is a clean exit, not a failure"),
    }
}

#[test]
fn success_short_circuits_the_retry_loop() {
    let policy = RetryPolicy { max_retries: 5, retry_base_ms: 500, retry_max_delay_ms: 10_000 };
    let jobs = vec![job("A", "NY")];
    match fetch_step(&policy, 0, FetchEvent::Succeeded(jobs)) {
        FetchDecision::Finish(v) => {
            assert_eq!(v.len(), 1);
            assert_eq!(v[0].id, "A");
        },
        _ => panic!("success must finish the fetch"),
    }
}

#[test]
fn failure_retries_with_backoff_until_exhausted() {
    let policy = RetryPolicy { max_retries: 3, retry_base_ms: 500, retry_max_delay_ms: 10_000 };
    match fetch_step(&policy, 0, FetchEvent::Failed) {
        FetchDecision::RetryAfter(ms) => assert_eq!(ms, 500),
        _ => panic!("first failure must retry"),
    }
    match fetch_step(&policy, 1, FetchEvent::Failed) {
        FetchDecision::RetryAfter(ms) => assert_eq!(ms, 1_000),
        _ => panic!("second failure must retry"),
    }
    match fetch_step(&policy, 2, FetchEvent::Failed) {
        FetchDecision::GiveUp => {},
        _ => panic!("the last failure must give up"),
    }
}

#[test]
fn selected_user_agent_comes_from_the_pool() {
    let pool = [
        "Mozilla/5.0 (Windows NT 10.0; Win64; x64) AppleWebKit/537.36 (KHTML, like Gecko) Chrome/91.0.4472.124 Safari/537.36",
        "Mozilla/5.0 (Macintosh; Intel Mac OS X 10_15_7) AppleWebKit/605.1.15 (KHTML, like Gecko) Version/14.1.1 Safari/605.1.15",
        "Mozilla/5.0 (X11; Linux x86_64) AppleWebKit/537.36 (KHTML, like Gecko) Chrome/92.0.4515.107 Safari/537.36",
        "Mozilla/5.0 (iPhone; CPU iPhone OS 14_6 like Mac OS X) AppleWebKit/605.1.15 (KHTML, like Gecko) Version/14.1.1 Mobile/15E148 Safari/604.1",
    ];
    for _ in 0..16 {
        let ua = select_user_agent();
        assert!(pool.contains(&ua.as_str()));
    }
}

#[test]
fn plan_tick_staggers_task_starts() {
    let delays = plan_tick(3, 300);
    assert_eq!(delays, vec![0, 300, 600]);
}

#[test]
fn plan_tick_zero_requests_is_a_noop() {
    let delays = plan_tick(0, 300);
    assert!(delays.is_empty());
}

#[test]
fn plan_tick_saturates_instead_of_wrapping() {
    let delays = plan_tick(3, u64::MAX);
    assert_eq!(delays, vec![0, u64::MAX, u64::MAX]);
}

#[test]
fn persistence_loop_saves_once_more_on_shutdown() {
    // The flag reads false on two interval ticks, then true: two interval
    // saves happen, and observing the set flag adds exactly one final flush.
    let observations = [false, false, true];
    let mut saves = 0;
    for &flag in &observations {
        match persist_step(flag) {
            PersistAction::SaveAndContinue => saves += 1,
            PersistAction::FinalSaveAndStop => {
                saves += 1;
                break;
            },
        }
    }
    assert_eq!(saves, 3);
}

#[test]
fn shutdown_flag_starts_clear_and_is_shared() {
    let service = ShutdownService::new();
    let a = service.handle();
    let b = a.clone();
    assert!(!a.is_shutdown());
    assert!(!b.is_shutdown());
    a.signal_shutdown();
    assert!(a.is_shutdown());
    assert!(b.is_shutdown());
    assert!(service.handle().is_shutdown());
}

#[test]
fn default_config_values() {
    let c = Config::default();
    assert_eq!(c.amazon.api_url, "https://e5mquma77feepi2.amazonaws.com/graphql");
    assert_eq!(c.amazon.api_token, "YOUR_API_TOKEN");
    assert_eq!(c.amazon.country, "Canada");
    assert_eq!(c.amazon.locale, "en-US");
    assert_eq!(c.amazon.page_size, 100);
    assert_eq!(c.telegram.bot_token, "YOUR_BOT_TOKEN");
    assert_eq!(c.telegram.chat_id, "YOUR_CHAT_ID");
    assert_eq!(c.persistence.seen_jobs_file, "seen_jobs.txt");
    assert_eq!(c.persistence.persist_interval_secs, 300);
    assert_eq!(c.rate_limiting.requests_per_second, 2);
    assert_eq!(c.rate_limiting.delay_between_requests_ms, 300);
    assert_eq!(c.rate_limiting.retry_base_ms, 500);
    assert_eq!(c.rate_limiting.retry_max_delay_ms, 10_000);
    assert_eq!(c.rate_limiting.max_retries, 5);
}
