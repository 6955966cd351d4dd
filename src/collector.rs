use vstd::prelude::*;
use crate::dedup::{Deduplicator, id_set};
use crate::page::{ResultPage, cursor_view, is_empty_terminal};
use crate::retry::{FailureCause, RetryDecision, RetryPolicy, RetryState, retry_step};
use crate::user::{User, keys_of, login_set, unique_logins, lemma_login_set_push};
use crate::window::{QueryWindow, next_bound, query_text};

verus! {

/// The settings of one collection run.
#[derive(Debug, Clone, Copy)]
pub struct CollectorConfig {
    /// How many entities to collect.
    pub target: usize,
    /// How many entities to ask for per page.
    pub page_size: u32,
    /// How many pages one window may consume before it is closed.
    pub max_pages_per_window: u32,
    pub retry: RetryPolicy,
}

impl CollectorConfig {
    pub open spec fn valid(&self) -> bool {
        &&& self.page_size >= 1
        &&& self.max_pages_per_window >= 1
        &&& self.retry.max_attempts >= 1
    }

    /// A thousand entities, five per page, two hundred pages per window,
    /// and the standard retry policy.
    pub fn standard() -> (r: CollectorConfig)
        ensures
            r.valid(),
            r.target == 1000,
            r.page_size == 5,
            r.max_pages_per_window == 200,
            r.retry.max_attempts == 10,
            r.retry.backoff_secs == 10,
    {
        CollectorConfig {
            target: 1000,
            page_size: 5,
            max_pages_per_window: 200,
            retry: RetryPolicy::standard(),
        }
    }
}

/// Pagination progress within the current window.
#[derive(Debug)]
pub struct WindowCursor {
    /// Where to continue; `None` is the start of the window.
    pub after: Option<String>,
    /// Pages consumed in the window so far.
    pub pages: u32,
}

/// The next page to fetch.
#[derive(Debug)]
pub struct PageRequest {
    pub query: String,
    pub first: i64,
    pub after: Option<String>,
}

/// How a run ended.
#[derive(Debug, Clone, Copy, PartialEq, Eq, Structural)]
pub enum Termination {
    /// The target count was reached.
    Success,
    /// The source has nothing more to give, or no narrower window exists.
    Exhausted,
    /// A call kept failing past the attempt ceiling.
    Fatal(FailureCause),
}

/// What the caller should do after handing an event to the collector.
#[derive(Debug, Clone, Copy, PartialEq, Eq, Structural)]
pub enum Step {
    /// Fetch the next page.
    Continue,
    /// New entities were kept: `collected` of `target` so far. Fetch the
    /// next page.
    Progress { collected: usize, target: usize },
    /// Wait `wait_secs` seconds, then repeat the same request.
    Retry { attempt: u32, wait_secs: u64 },
    /// The run is over.
    Finished(Termination),
}

/// The lowest of `cur` and `keys`.
pub open spec fn min_with(cur: Option<i64>, keys: Seq<i64>) -> Option<i64>
    decreases keys.len(),
{
    if keys.len() == 0 {
        cur
    } else {
        let k = keys.last();
        match min_with(cur, keys.drop_last()) {
            Some(m) => Some(if k < m { k } else { m }),
            None => Some(k),
        }
    }
}

/// The highest of `cur` and `keys`.
pub open spec fn max_with(cur: Option<i64>, keys: Seq<i64>) -> Option<i64>
    decreases keys.len(),
{
    if keys.len() == 0 {
        cur
    } else {
        let k = keys.last();
        match max_with(cur, keys.drop_last()) {
            Some(m) => Some(if k > m { k } else { m }),
            None => Some(k),
        }
    }
}

/// The entities of `page` that are kept, given the identities already
/// `known` and `room` left before the target: in order, each one whose
/// identity is neither known nor kept earlier on the page, up to `room`.
pub open spec fn accepted(known: Set<Seq<char>>, page: Seq<User>, room: nat) -> Seq<User>
    decreases page.len(),
{
    if page.len() == 0 || room == 0 {
        seq![]
    } else if known.contains(page[0].login@) {
        accepted(known, page.drop_first(), room)
    } else {
        seq![page[0]] + accepted(known.insert(page[0].login@), page.drop_first(), (room - 1) as nat)
    }
}

/// Cutting a page off at `room` entities keeps exactly the first `room`
/// entities that would be kept without the cut, or all of them when there
/// are fewer.
pub proof fn lemma_truncation(known: Set<Seq<char>>, page: Seq<User>, room: nat)
    ensures
        ({
            let all = accepted(known, page, page.len());
            accepted(known, page, room) == all.take(
                if room < all.len() { room as int } else { all.len() as int },
            )
        }),
{
    lemma_accepted_room(known, page, room, page.len());
}

proof fn lemma_accepted_len(known: Set<Seq<char>>, page: Seq<User>, room: nat)
    ensures
        accepted(known, page, room).len() <= room,
        accepted(known, page, room).len() <= page.len(),
    decreases page.len(),
{
    if page.len() > 0 && room > 0 {
        if known.contains(page[0].login@) {
            lemma_accepted_len(known, page.drop_first(), room);
        } else {
            lemma_accepted_len(known.insert(page[0].login@), page.drop_first(), (room - 1) as nat);
        }
    }
}

proof fn lemma_accepted_room(known: Set<Seq<char>>, page: Seq<User>, room: nat, wide: nat)
    requires
        wide >= page.len(),
    ensures
        ({
            let all = accepted(known, page, wide);
            accepted(known, page, room) == all.take(
                if room < all.len() { room as int } else { all.len() as int },
            )
        }),
    decreases page.len(),
{
    let all = accepted(known, page, wide);
    lemma_accepted_len(known, page, wide);
    if page.len() == 0 {
        assert(all.take(0) =~= seq![]);
    } else if room == 0 {
        assert(all.take(0) =~= seq![]);
    } else if known.contains(page[0].login@) {
        lemma_accepted_room(known, page.drop_first(), room, wide);
    } else {
        let k2 = known.insert(page[0].login@);
        lemma_accepted_room(k2, page.drop_first(), (room - 1) as nat, (wide - 1) as nat);
        let rest = accepted(k2, page.drop_first(), (wide - 1) as nat);
        assert(all == seq![page[0]] + rest);
        let cut = if room < all.len() { room as int } else { all.len() as int };
        let cut2 = if room - 1 < rest.len() { room - 1 } else { rest.len() as int };
        assert(all.take(cut) =~= seq![page[0]] + rest.take(cut2));
    }
}

/// A window planned after one whose keys are bounded by `lo` and `hi` lies
/// strictly below the previous bound and at or below every key seen.
pub proof fn lemma_narrowing(bound: Option<i64>, keys: Seq<i64>, lo: Option<i64>, hi: Option<i64>)
    requires
        window_stats(keys, lo, hi),
        next_bound(bound, lo, hi) is Some,
    ensures
        ({
            let b = next_bound(bound, lo, hi)->Some_0;
            &&& Some(b) == lo
            &&& forall|i: int| 0 <= i < keys.len() ==> b <= #[trigger] keys[i]
            &&& bound is Some ==> b < bound->Some_0
        }),
{
}

/// In every state of a run: no two kept entities share an identity, no
/// more than the target count are kept, and no kept entity is
/// blacklisted.
pub proof fn lemma_run_invariants(c: &Collector)
    requires
        c.wf(),
    ensures
        unique_logins(c.users@),
        c.users@.len() <= c.config.target,
        forall|i: int| 0 <= i < c.users@.len() ==> !c.blacklist@.contains(#[trigger] c.users@[i].login@),
{
}

/// `lo` and `hi` bound the sort keys seen in a window, and are present
/// exactly when a key was seen.
pub open spec fn window_stats(keys: Seq<i64>, lo: Option<i64>, hi: Option<i64>) -> bool {
    &&& (lo is None <==> keys.len() == 0)
    &&& (hi is None <==> keys.len() == 0)
    &&& forall|i: int| 0 <= i < keys.len() ==> lo->Some_0 <= #[trigger] keys[i] <= hi->Some_0
}

fn lower(cur: Option<i64>, k: i64) -> (r: Option<i64>)
    ensures
        r == Some(match cur {
            Some(m) => if k < m { k } else { m },
            None => k,
        }),
{
    match cur {
        Some(m) => Some(if k < m { k } else { m }),
        None => Some(k),
    }
}

fn higher(cur: Option<i64>, k: i64) -> (r: Option<i64>)
    ensures
        r == Some(match cur {
            Some(m) => if k > m { k } else { m },
            None => k,
        }),
{
    match cur {
        Some(m) => Some(if k > m { k } else { m }),
        None => Some(k),
    }
}

/// The state of one collection run.
pub struct Collector {
    pub config: CollectorConfig,
    pub window: QueryWindow,
    pub cursor: WindowCursor,
    /// Lowest and highest sort key seen among the raw entities of the
    /// current window.
    pub window_min: Option<i64>,
    pub window_max: Option<i64>,
    /// Lowest sort key seen in the whole run.
    pub lowest_seen: Option<i64>,
    /// Identities that are never kept again: the blacklist and every
    /// entity kept so far.
    pub known: Deduplicator,
    /// The kept entities, in order of arrival.
    pub users: Vec<User>,
    pub retry: RetryState,
    /// `Some` once the run is over.
    pub outcome: Option<Termination>,
    pub blacklist: Ghost<Set<Seq<char>>>,
    /// The sort keys seen in the current window.
    pub window_keys: Ghost<Seq<i64>>,
}

impl Collector {
    pub open spec fn wf(&self) -> bool {
        &&& self.config.valid()
        &&& self.users@.len() <= self.config.target
        &&& self.users@.len() == self.config.target ==> self.outcome == Some(Termination::Success)
        &&& unique_logins(self.users@)
        &&& forall|i: int|
            0 <= i < self.users@.len() ==> !self.blacklist@.contains(#[trigger] self.users@[i].login@)
        &&& self.known@ == self.blacklist@.union(login_set(self.users@))
        &&& self.cursor.pages < self.config.max_pages_per_window
        &&& window_stats(self.window_keys@, self.window_min, self.window_max)
    }

    /// Starts a run over the given location filters; the identities of
    /// `blacklist` are never kept.
    pub fn new(
        config: CollectorConfig,
        locations: Vec<String>,
        excluded: Vec<String>,
        blacklist: &Vec<String>,
    ) -> (r: Collector)
        requires
            config.valid(),
        ensures
            r.wf(),
            r.config == config,
            r.blacklist@ == id_set(blacklist@),
            r.users@.len() == 0,
            r.window.locations == locations,
            r.window.excluded == excluded,
            r.window.upper_bound is None,
            r.cursor.after is None,
            r.cursor.pages == 0,
            r.retry.attempts == 0,
            r.lowest_seen is None,
            r.outcome == (if config.target == 0 { Some(Termination::Success) } else { None }),
    {
        let known = Deduplicator::with_blacklist(blacklist);
        let r = Collector {
            config,
            window: QueryWindow::first(locations, excluded),
            cursor: WindowCursor { after: None, pages: 0 },
            window_min: None,
            window_max: None,
            lowest_seen: None,
            known,
            users: Vec::new(),
            retry: RetryState::new(),
            outcome: if config.target == 0 { Some(Termination::Success) } else { None },
            blacklist: Ghost(id_set(blacklist@)),
            window_keys: Ghost(Seq::empty()),
        };
        assert(login_set(r.users@) =~= Set::<Seq<char>>::empty());
        assert(r.known@ =~= r.blacklist@.union(login_set(r.users@)));
        r
    }

    /// Whether the run is over.
    pub fn is_done(&self) -> (r: bool)
        ensures
            r == self.outcome is Some,
    {
        self.outcome.is_some()
    }

    /// The request for the next page of the current window, or `None` once
    /// the run is over.
    pub fn request(&self) -> (r: Option<PageRequest>)
        ensures
            match r {
                Some(req) => {
                    &&& self.outcome is None
                    &&& req.query@ == query_text(
                        self.window.locations.deep_view(),
                        self.window.excluded.deep_view(),
                        self.window.upper_bound,
                    )
                    &&& req.first == self.config.page_size as i64
                    &&& cursor_view(req.after) == cursor_view(self.cursor.after)
                },
                None => self.outcome is Some,
            },
    {
        if self.outcome.is_some() {
            return None;
        }
        let after = match &self.cursor.after {
            Some(c) => Some(c.clone()),
            None => None,
        };
        Some(PageRequest { query: self.window.query(), first: self.config.page_size as i64, after })
    }

    /// Handles a failed call: retry the same request, or end the run with a
    /// fatal error once the attempt ceiling is reached.
    pub fn on_failure(&mut self, cause: FailureCause) -> (s: Step)
        requires
            old(self).wf(),
        ensures
            final(self).wf(),
            final(self).config == old(self).config,
            final(self).blacklist == old(self).blacklist,
            final(self).users == old(self).users,
            final(self).window == old(self).window,
            final(self).cursor == old(self).cursor,
            final(self).window_keys == old(self).window_keys,
            match old(self).outcome {
                Some(t) => final(self).outcome == old(self).outcome && s == Step::Finished(t),
                None => match retry_step(
                    old(self).retry.attempts as nat,
                    old(self).config.retry.max_attempts as nat,
                ) {
                    Some(n) => {
                        &&& final(self).retry.attempts == n
                        &&& final(self).outcome is None
                        &&& s == Step::Retry { attempt: n as u32, wait_secs: old(self).config.retry.backoff_secs }
                    },
                    None => {
                        &&& final(self).outcome == Some(Termination::Fatal(cause))
                        &&& s == Step::Finished(Termination::Fatal(cause))
                    },
                },
            },
    {
        if let Some(t) = self.outcome {
            return Step::Finished(t);
        }
        let policy = self.config.retry;
        match self.retry.on_failure(&policy, cause) {
            RetryDecision::Retry { attempt, wait_secs } => Step::Retry { attempt, wait_secs },
            RetryDecision::Exhausted(c) => {
                self.outcome = Some(Termination::Fatal(c));
                Step::Finished(Termination::Fatal(c))
            },
        }
    }
    /// Whether `page` closes the current window: it carries no cursor, or
    /// it spends the window's page budget.
    pub open spec fn closes_window(&self, page: ResultPage) -> bool {
        page.next_cursor is None || self.cursor.pages + 1 >= self.config.max_pages_per_window
    }

    /// Handles a page that arrived: keeps its new entities up to the target,
    /// tracks the sort keys of all its entities, and advances the cursor,
    /// closes the window and plans the next one, or ends the run.
    pub fn on_page(&mut self, page: ResultPage) -> (s: Step)
        requires
            old(self).wf(),
        ensures
            final(self).wf(),
            final(self).config == old(self).config,
            final(self).blacklist == old(self).blacklist,
            old(self).outcome is Some ==> {
                &&& final(self).outcome == old(self).outcome
                &&& final(self).users == old(self).users
                &&& s == Step::Finished(old(self).outcome->Some_0)
            },
            old(self).outcome is None ==> ({
                let keys = keys_of(page.users@);
                let all_keys = old(self).window_keys@ + keys;
                let lo = min_with(old(self).window_min, keys);
                let hi = max_with(old(self).window_max, keys);
                let kept = accepted(
                    old(self).known@,
                    page.users@,
                    (old(self).config.target - old(self).users@.len()) as nat,
                );
                &&& final(self).retry.attempts == 0
                &&& final(self).users@ == old(self).users@ + kept
                &&& final(self).lowest_seen == min_with(old(self).lowest_seen, keys)
                &&& if final(self).users@.len() == old(self).config.target {
                    &&& final(self).outcome == Some(Termination::Success)
                    &&& s == Step::Finished(Termination::Success)
                } else if old(self).closes_window(page) {
                    match next_bound(old(self).window.upper_bound, lo, hi) {
                        Some(b) => {
                            &&& final(self).outcome is None
                            &&& final(self).window.locations.deep_view()
                                == old(self).window.locations.deep_view()
                            &&& final(self).window.excluded.deep_view()
                                == old(self).window.excluded.deep_view()
                            &&& final(self).window.upper_bound == Some(b)
                            &&& forall|i: int| 0 <= i < all_keys.len() ==> b <= #[trigger] all_keys[i]
                            &&& final(self).cursor.after is None
                            &&& final(self).cursor.pages == 0
                            &&& final(self).window_keys@.len() == 0
                            &&& s == (if kept.len() > 0 {
                                Step::Progress { collected: final(self).users@.len() as usize, target: old(self).config.target }
                            } else {
                                Step::Continue
                            })
                        },
                        None => {
                            &&& final(self).outcome == Some(Termination::Exhausted)
                            &&& s == Step::Finished(Termination::Exhausted)
                        },
                    }
                } else {
                    &&& final(self).outcome is None
                    &&& final(self).window == old(self).window
                    &&& cursor_view(final(self).cursor.after) == cursor_view(page.next_cursor)
                    &&& final(self).cursor.pages == old(self).cursor.pages + 1
                    &&& final(self).window_keys@ == all_keys
                    &&& final(self).window_min == lo
                    &&& final(self).window_max == hi
                    &&& s == (if kept.len() > 0 {
                        Step::Progress { collected: final(self).users@.len() as usize, target: old(self).config.target }
                    } else {
                        Step::Continue
                    })
                }
            }),
            old(self).outcome is None && is_empty_terminal(page) ==> {
                &&& final(self).users@ == old(self).users@
                &&& old(self).window_keys@.len() == 0 ==> final(self).outcome == Some(Termination::Exhausted)
            },
    {
        if let Some(t) = self.outcome {
            return Step::Finished(t);
        }
        self.retry.on_success();
        let ghost page_users = page.users@;
        let ghost old_users = self.users@;
        let ghost old_known = self.known@;
        let ghost old_keys = self.window_keys@;
        let ghost room0 = (self.config.target - self.users@.len()) as nat;
        let before = self.users.len();
        let ResultPage { users: mut rest, next_cursor } = page;
        let total: usize = rest.len();
        let mut taken: usize = 0;
        while rest.len() > 0
            invariant
                self.config == old(self).config,
                self.blacklist == old(self).blacklist,
                self.window == old(self).window,
                self.cursor == old(self).cursor,
                self.outcome is None,
                self.retry.attempts == 0,
                self.config.valid(),
                self.cursor.pages < self.config.max_pages_per_window,
                page_users.len() == total,
                taken + rest@.len() == total,
                rest@ == page_users.subrange(taken as int, total as int),
                before <= self.users@.len() <= self.config.target,
                self.users@.len() == old_users.len() || self.users@.len() > before,
                self.users@ + accepted(self.known@, rest@, (self.config.target - self.users@.len()) as nat)
                    == old_users + accepted(old_known, page_users, room0),
                room0 == self.config.target - old_users.len(),
                old_users.len() == before,
                old_users == old(self).users@,
                old_known == old(self).known@,
                unique_logins(self.users@),
                forall|i: int|
                    0 <= i < self.users@.len() ==> !self.blacklist@.contains(#[trigger] self.users@[i].login@),
                self.known@ == self.blacklist@.union(login_set(self.users@)),
                self.window_keys@ == old_keys + keys_of(page_users.subrange(0, taken as int)),
                old_keys == old(self).window_keys@,
                self.window_min == min_with(old(self).window_min, keys_of(page_users.subrange(0, taken as int))),
                self.window_max == max_with(old(self).window_max, keys_of(page_users.subrange(0, taken as int))),
                self.lowest_seen == min_with(old(self).lowest_seen, keys_of(page_users.subrange(0, taken as int))),
                window_stats(self.window_keys@, self.window_min, self.window_max),
            decreases rest@.len(),
        {
            let ghost rest_before = rest@;
            let ghost users_before = self.users@;
            let ghost known_before = self.known@;
            let u = rest.remove(0);
            let k = u.followers;
            proof {
                let done = page_users.subrange(0, taken as int);
                let next = page_users.subrange(0, taken + 1);
                assert(next.drop_last() =~= done);
                assert(keys_of(next) =~= keys_of(done).push(k));
                assert(keys_of(next).drop_last() =~= keys_of(done));
                assert(u == rest_before[0]);
                assert(rest@ =~= rest_before.drop_first());
            }
            self.window_min = lower(self.window_min, k);
            self.window_max = higher(self.window_max, k);
            self.lowest_seen = lower(self.lowest_seen, k);
            proof {
                self.window_keys@ = self.window_keys@.push(k);
                assert forall|i: int| 0 <= i < self.window_keys@.len() implies
                    self.window_min->Some_0 <= #[trigger] self.window_keys@[i] <= self.window_max->Some_0 by {
                    if i < self.window_keys@.len() - 1 {
                        assert(self.window_keys@[i] == old_keys.add(keys_of(page_users.subrange(0, taken as int)))[i]);
                    }
                }
                assert(self.window_keys@ =~= old_keys + keys_of(page_users.subrange(0, taken + 1)));
            }
            if self.users.len() < self.config.target && !self.known.seen(&u.login) {
                let login = u.login.clone();
                self.known.record(login);
                self.users.push(u);
                proof {
                    lemma_login_set_push(users_before, u);
                    assert(self.users@ =~= users_before.push(u));
                    assert(self.known@ =~= self.blacklist@.union(login_set(self.users@)));
                    assert forall|i: int, j: int|
                        0 <= i < self.users@.len() && 0 <= j < self.users@.len() && i != j implies
                        #[trigger] self.users@[i].login@ != #[trigger] self.users@[j].login@ by {
                        if i < users_before.len() && j < users_before.len() {
                            assert(self.users@[i] == users_before[i]);
                            assert(self.users@[j] == users_before[j]);
                        } else if i < users_before.len() {
                            assert(self.users@[i] == users_before[i]);
                            assert(login_set(users_before).contains(users_before[i].login@));
                        } else {
                            assert(self.users@[j] == users_before[j]);
                            assert(login_set(users_before).contains(users_before[j].login@));
                        }
                    }
                    assert(self.users@ + accepted(self.known@, rest@, (self.config.target - self.users@.len()) as nat)
                        =~= users_before + accepted(known_before, rest_before, (self.config.target - users_before.len()) as nat));
                }
            } else {
                proof {
                    if users_before.len() < self.config.target {
                        assert(accepted(known_before, rest_before, (self.config.target - users_before.len()) as nat)
                            == accepted(known_before, rest@, (self.config.target - users_before.len()) as nat));
                    }
                }
            }
            taken = taken + 1;
            proof {
                assert(rest@ =~= page_users.subrange(taken as int, total as int));
            }
        }
        proof {
            assert(page_users.subrange(0, total as int) =~= page_users);
            assert(accepted(self.known@, rest@, (self.config.target - self.users@.len()) as nat) == Seq::<User>::empty());
            assert(self.users@ =~= self.users@ + Seq::<User>::empty());
            if page_users.len() == 0 {
                assert(old_users =~= old_users + Seq::<User>::empty());
            }
        }
        let added = self.users.len() - before;
        if self.users.len() == self.config.target {
            self.outcome = Some(Termination::Success);
            return Step::Finished(Termination::Success);
        }
        let closes = next_cursor.is_none() || self.cursor.pages >= self.config.max_pages_per_window - 1;
        if closes {
            match self.window.next_window(self.window_min, self.window_max) {
                Some(w) => {
                    proof {
                        let b = w.upper_bound->Some_0;
                        assert forall|i: int| 0 <= i < self.window_keys@.len() implies
                            b <= #[trigger] self.window_keys@[i] by {}
                    }
                    self.window = w;
                    self.cursor = WindowCursor { after: None, pages: 0 };
                    self.window_min = None;
                    self.window_max = None;
                    proof {
                        self.window_keys@ = Seq::empty();
                    }
                },
                None => {
                    self.outcome = Some(Termination::Exhausted);
                    return Step::Finished(Termination::Exhausted);
                },
            }
        } else {
            self.cursor = WindowCursor { after: next_cursor, pages: self.cursor.pages + 1 };
        }
        if added > 0 {
            Step::Progress { collected: self.users.len(), target: self.config.target }
        } else {
            Step::Continue
        }
    }
}

} // verus!
