use committer::collector::{Collector, CollectorConfig, Step, Termination};
use committer::page::ResultPage;
use committer::retry::{FailureCause, RetryPolicy};
use committer::user::User;

fn user(login: &str, followers: i64) -> User {
    User::new(
        login.to_string(),
        String::new(),
        None,
        None,
        Vec::new(),
        followers,
        0,
        0,
        0,
        0,
    )
}

fn page(entries: &[(&str, i64)], cursor: Option<&str>) -> ResultPage {
    ResultPage {
        users: entries.iter().map(|(l, f)| user(l, *f)).collect(),
        next_cursor: cursor.map(|c| c.to_string()),
    }
}

fn config(target: usize, page_size: u32, max_pages: u32) -> CollectorConfig {
    CollectorConfig {
        target,
        page_size,
        max_pages_per_window: max_pages,
        retry: RetryPolicy { max_attempts: 10, backoff_secs: 10 },
    }
}

fn logins(c: &Collector) -> Vec<String> {
    c.users.iter().map(|u| u.login.clone()).collect()
}

#[test]
fn twelve_of_three_full_pages_in_one_window() {
    let mut c = Collector::new(config(12, 5, 200), vec!["nz".to_string()], Vec::new(), &Vec::new());
    let pages = vec![
        page(&[("a", 150), ("b", 140), ("c", 130), ("d", 120), ("e", 110)], Some("c1")),
        page(&[("f", 100), ("g", 90), ("h", 80), ("i", 70), ("j", 60)], Some("c2")),
        page(&[("k", 50), ("l", 40), ("m", 30), ("n", 20), ("o", 10)], Some("c3")),
    ];
    let mut fetched = 0;
    let mut queries = Vec::new();
    let mut steps = Vec::new();
    for p in pages {
        let req = c.request().expect("run still going");
        assert_eq!(req.first, 5);
        queries.push(req.query);
        fetched += 1;
        let s = c.on_page(p);
        steps.push(s);
        if c.is_done() {
            break;
        }
    }
    assert_eq!(fetched, 3);
    assert_eq!(c.users.len(), 12);
    assert_eq!(c.outcome, Some(Termination::Success));
    assert_eq!(logins(&c), vec!["a", "b", "c", "d", "e", "f", "g", "h", "i", "j", "k", "l"]);
    assert!(queries.iter().all(|q| q == " location:nz sort:followers-desc"));
    assert_eq!(steps[0], Step::Progress { collected: 5, target: 12 });
    assert_eq!(steps[1], Step::Progress { collected: 10, target: 12 });
    assert_eq!(steps[2], Step::Finished(Termination::Success));
    assert!(c.request().is_none());
}

#[test]
fn next_window_bound_is_lowest_key_of_closed_window() {
    let mut c = Collector::new(config(100, 5, 1), vec!["nz".to_string()], Vec::new(), &Vec::new());
    let s = c.on_page(page(&[("a", 50), ("b", 40), ("c", 30), ("d", 20), ("e", 10)], Some("c1")));
    assert_eq!(s, Step::Progress { collected: 5, target: 100 });
    assert_eq!(c.window.upper_bound, Some(10));
    assert_eq!(c.cursor.pages, 0);
    assert!(c.cursor.after.is_none());
    let req = c.request().unwrap();
    assert_eq!(req.query, " location:nz followers:<10 sort:followers-desc");
    assert!(req.after.is_none());
}

#[test]
fn cursor_advances_within_window() {
    let mut c = Collector::new(config(100, 2, 200), vec!["nz".to_string()], Vec::new(), &Vec::new());
    c.on_page(page(&[("a", 50), ("b", 40)], Some("cur-b")));
    let req = c.request().unwrap();
    assert_eq!(req.after.as_deref(), Some("cur-b"));
    assert_eq!(c.cursor.pages, 1);
    assert_eq!(c.window_min, Some(40));
    assert_eq!(c.window_max, Some(50));
}

#[test]
fn duplicates_across_windows_are_dropped() {
    let mut c = Collector::new(config(100, 3, 1), Vec::new(), Vec::new(), &Vec::new());
    c.on_page(page(&[("a", 30), ("b", 20), ("c", 10)], Some("x")));
    // The next window starts below 10, yet the source repeats "c".
    let s = c.on_page(page(&[("c", 10), ("d", 9), ("d", 9), ("e", 8)], Some("y")));
    assert_eq!(s, Step::Progress { collected: 5, target: 100 });
    assert_eq!(logins(&c), vec!["a", "b", "c", "d", "e"]);
    // Keys of dropped duplicates still count for the window's minimum.
    assert_eq!(c.window.upper_bound, Some(8));
}

#[test]
fn page_of_only_known_entities_reports_no_progress() {
    let mut c = Collector::new(config(100, 2, 200), Vec::new(), Vec::new(), &Vec::new());
    c.on_page(page(&[("a", 30), ("b", 20)], Some("x")));
    let s = c.on_page(page(&[("a", 30), ("b", 20)], Some("y")));
    assert_eq!(s, Step::Continue);
    assert_eq!(c.users.len(), 2);
}

#[test]
fn truncates_at_target_mid_page() {
    let mut c = Collector::new(config(3, 5, 200), Vec::new(), Vec::new(), &Vec::new());
    let s = c.on_page(page(&[("a", 5), ("b", 4), ("c", 3), ("d", 2), ("e", 1)], Some("x")));
    assert_eq!(s, Step::Finished(Termination::Success));
    assert_eq!(logins(&c), vec!["a", "b", "c"]);
    assert_eq!(c.lowest_seen, Some(1));
}

#[test]
fn zero_target_is_done_at_once() {
    let c = Collector::new(config(0, 5, 200), Vec::new(), Vec::new(), &Vec::new());
    assert_eq!(c.outcome, Some(Termination::Success));
    assert!(c.request().is_none());
}

#[test]
fn blacklisted_identities_are_never_kept() {
    let blacklist = vec!["bad".to_string(), "worse".to_string()];
    let mut c = Collector::new(config(100, 5, 200), Vec::new(), Vec::new(), &blacklist);
    c.on_page(page(&[("good", 9), ("bad", 8), ("fine", 7), ("worse", 6)], Some("x")));
    assert_eq!(logins(&c), vec!["good", "fine"]);
    assert_eq!(c.window_min, Some(6));
}

#[test]
fn empty_first_page_closes_window_and_run() {
    let mut c = Collector::new(config(100, 5, 200), Vec::new(), Vec::new(), &Vec::new());
    let s = c.on_page(page(&[], None));
    assert_eq!(s, Step::Finished(Termination::Exhausted));
    assert_eq!(c.users.len(), 0);
}

#[test]
fn empty_page_after_entities_plans_next_window() {
    let mut c = Collector::new(config(100, 5, 200), Vec::new(), Vec::new(), &Vec::new());
    c.on_page(page(&[("a", 9), ("b", 4)], Some("x")));
    let s = c.on_page(page(&[], None));
    assert_eq!(s, Step::Continue);
    assert_eq!(c.window.upper_bound, Some(4));
    assert!(!c.is_done());
}

#[test]
fn window_of_equal_keys_ends_run() {
    let mut c = Collector::new(config(100, 5, 1), Vec::new(), Vec::new(), &Vec::new());
    let s = c.on_page(page(&[("a", 7), ("b", 7)], Some("x")));
    assert_eq!(s, Step::Finished(Termination::Exhausted));
    assert_eq!(c.users.len(), 2);
}

#[test]
fn failures_below_ceiling_retry_then_succeed() {
    let mut c = Collector::new(config(100, 5, 200), Vec::new(), Vec::new(), &Vec::new());
    let mut waits = 0;
    for n in 1..=3u32 {
        let s = c.on_failure(FailureCause::Transport);
        assert_eq!(s, Step::Retry { attempt: n, wait_secs: 10 });
        waits += 1;
    }
    assert_eq!(waits, 3);
    let s = c.on_page(page(&[("a", 3)], Some("x")));
    assert_eq!(s, Step::Progress { collected: 1, target: 100 });
    assert_eq!(c.retry.attempts, 0);
}

#[test]
fn failures_at_ceiling_end_run_fatally() {
    let mut c = Collector::new(config(100, 5, 200), Vec::new(), Vec::new(), &Vec::new());
    let mut waits = 0;
    let last = loop {
        match c.on_failure(FailureCause::MissingData) {
            Step::Retry { .. } => waits += 1,
            other => break other,
        }
    };
    assert_eq!(waits, 9);
    assert_eq!(last, Step::Finished(Termination::Fatal(FailureCause::MissingData)));
    assert!(c.request().is_none());
    assert_eq!(c.on_failure(FailureCause::Transport), Step::Finished(Termination::Fatal(FailureCause::MissingData)));
}

#[test]
fn standard_config_values() {
    let c = CollectorConfig::standard();
    assert_eq!(c.target, 1000);
    assert_eq!(c.page_size, 5);
    assert_eq!(c.max_pages_per_window, 200);
    assert_eq!(c.retry.max_attempts, 10);
    assert_eq!(c.retry.backoff_secs, 10);
}
