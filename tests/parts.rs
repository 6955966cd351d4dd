use committer::blacklist::{filter_blacklist, is_white_space, parse_blacklist};
use committer::dedup::Deduplicator;
use committer::output::{sort_by_commits, Output};
use committer::page::{Edge, ResultPage};
use committer::preset::LocationPreset;
use committer::retry::{classify_response, FailureCause, RetryDecision, RetryPolicy, RetryState};
use committer::user::User;
use committer::window::QueryWindow;

fn user(login: &str, commits: i64) -> User {
    User::new(login.to_string(), String::new(), None, None, Vec::new(), 0, 0, 0, commits, 0)
}

fn strings(v: &[&str]) -> Vec<String> {
    v.iter().map(|s| s.to_string()).collect()
}

#[test]
fn query_text_lists_terms_bound_and_sort() {
    let w = QueryWindow { locations: strings(&["a", "b"]), excluded: strings(&["c"]), upper_bound: Some(42) };
    assert_eq!(w.query(), " location:a location:b -location:c followers:<42 sort:followers-desc");
    let w = QueryWindow { locations: Vec::new(), excluded: Vec::new(), upper_bound: Some(-105) };
    assert_eq!(w.query(), " followers:<-105 sort:followers-desc");
    let w = QueryWindow { locations: Vec::new(), excluded: Vec::new(), upper_bound: Some(i64::MIN) };
    assert_eq!(w.query(), format!(" followers:<{} sort:followers-desc", i64::MIN));
    let w = QueryWindow::first(Vec::new(), Vec::new());
    assert_eq!(w.query(), " sort:followers-desc");
}

#[test]
fn next_window_narrows_or_stops() {
    let w = QueryWindow::first(strings(&["x"]), strings(&["y"]));
    let n = w.next_window(Some(10), Some(50)).unwrap();
    assert_eq!(n.upper_bound, Some(10));
    assert_eq!(n.locations, strings(&["x"]));
    assert_eq!(n.excluded, strings(&["y"]));
    assert!(n.next_window(Some(10), Some(12)).is_none());
    assert_eq!(n.next_window(Some(3), Some(9)).unwrap().upper_bound, Some(3));
    assert!(w.next_window(Some(5), Some(5)).is_none());
    assert!(w.next_window(None, None).is_none());
}

#[test]
fn decode_keeps_account_nodes_and_last_cursor() {
    let edges = vec![
        Some(Edge { cursor: "1".to_string(), node: Some(user("a", 0)) }),
        None,
        Some(Edge { cursor: "2".to_string(), node: None }),
        Some(Edge { cursor: "3".to_string(), node: Some(user("b", 0)) }),
        Some(Edge { cursor: "4".to_string(), node: None }),
    ];
    let p = ResultPage::decode(Some(edges));
    let logins: Vec<&str> = p.users.iter().map(|u| u.login.as_str()).collect();
    assert_eq!(logins, vec!["a", "b"]);
    assert_eq!(p.next_cursor.as_deref(), Some("4"));
    let p = ResultPage::decode(None);
    assert!(p.users.is_empty() && p.next_cursor.is_none());
    let p = ResultPage::decode(Some(Vec::new()));
    assert!(p.users.is_empty() && p.next_cursor.is_none());
}

#[test]
fn blacklist_text_skips_blank_and_comment_lines() {
    let text = "  alice \n# comment\n\n\tbob\r\n   # also comment\ncarol";
    assert_eq!(parse_blacklist(text), strings(&["alice", "bob", "carol"]));
    assert_eq!(parse_blacklist(""), Vec::<String>::new());
    assert_eq!(parse_blacklist("dave\n"), strings(&["dave"]));
    assert_eq!(parse_blacklist("\u{3000}eve\u{a0}\n"), strings(&["eve"]));
}

#[test]
fn white_space_matches_std() {
    for c in ['\t', '\n', '\r', ' ', '\u{85}', '\u{a0}', '\u{2003}', '\u{3000}', 'a', '#', '\u{200b}'] {
        assert_eq!(is_white_space(c), c.is_whitespace());
    }
}

#[test]
fn filter_blacklist_drops_every_match() {
    let mut users = vec![user("x", 1), user("bad", 2), user("y", 3), user("bad", 4), user("z", 5)];
    filter_blacklist(&mut users, &strings(&["bad", "nobody"]));
    let logins: Vec<&str> = users.iter().map(|u| u.login.as_str()).collect();
    assert_eq!(logins, vec!["x", "y", "z"]);
}

#[test]
fn sort_by_commits_is_descending_and_stable() {
    let mut users = vec![user("a", 3), user("b", 9), user("c", 3), user("d", 12), user("e", 0)];
    sort_by_commits(&mut users);
    let logins: Vec<&str> = users.iter().map(|u| u.login.as_str()).collect();
    assert_eq!(logins, vec!["d", "b", "a", "c", "e"]);
}

#[test]
fn output_sorts_and_records_lowest_key() {
    let o = Output::new("T".to_string(), None, 7, vec![user("a", 1), user("b", 2)]);
    assert_eq!(o.min_followers, -1);
    assert_eq!(o.generated_at, 7);
    assert_eq!(o.users[0].login, "b");
    let o = Output::new("T".to_string(), Some(33), 7, Vec::new());
    assert_eq!(o.min_followers, 33);
}

#[test]
fn classify_response_order() {
    assert_eq!(classify_response(true, false), Some(FailureCause::RequestErrors));
    assert_eq!(classify_response(true, true), Some(FailureCause::RequestErrors));
    assert_eq!(classify_response(false, false), Some(FailureCause::MissingData));
    assert_eq!(classify_response(false, true), None);
}

#[test]
fn retry_state_counts_and_resets() {
    let policy = RetryPolicy { max_attempts: 3, backoff_secs: 4 };
    let mut s = RetryState::new();
    assert_eq!(s.on_failure(&policy, FailureCause::Transport), RetryDecision::Retry { attempt: 1, wait_secs: 4 });
    assert_eq!(s.on_failure(&policy, FailureCause::Transport), RetryDecision::Retry { attempt: 2, wait_secs: 4 });
    assert_eq!(s.on_failure(&policy, FailureCause::RequestErrors), RetryDecision::Exhausted(FailureCause::RequestErrors));
    s.on_success();
    assert_eq!(s.attempts, 0);
    let one = RetryPolicy { max_attempts: 1, backoff_secs: 4 };
    assert_eq!(s.on_failure(&one, FailureCause::Transport), RetryDecision::Exhausted(FailureCause::Transport));
}

#[test]
fn deduplicator_remembers() {
    let mut d = Deduplicator::with_blacklist(&strings(&["x"]));
    assert!(d.seen(&"x".to_string()));
    assert!(!d.seen(&"y".to_string()));
    d.record("y".to_string());
    assert!(d.seen(&"y".to_string()));
    assert!(!Deduplicator::new().seen(&"x".to_string()));
}

#[test]
fn user_public_contributions() {
    let u = User::new("a".to_string(), "av".to_string(), None, None, Vec::new(), 1, 10, 4, 2, 3);
    assert_eq!(u.pub_contribs, 6);
    assert_eq!(u.priv_contribs, 4);
}

#[test]
fn new_zealand_preset() {
    let p = LocationPreset::new_zealand();
    assert_eq!(p.locations.len(), 16);
    assert_eq!(p.locations[0], "new+zealand");
    assert!(p.excluded.is_empty());
}
