use vstd::prelude::*;
use crate::user::User;

verus! {

/// `u` placed into `s` after every account with at least as many commits.
pub open spec fn insert_by_commits(s: Seq<User>, u: User) -> Seq<User>
    decreases s.len(),
{
    if s.len() == 0 {
        seq![u]
    } else if s[0].commits < u.commits {
        seq![u] + s
    } else {
        seq![s[0]] + insert_by_commits(s.drop_first(), u)
    }
}

/// `s` ordered by commits, most first; accounts with equal counts keep
/// their order.
pub open spec fn sorted_by_commits(s: Seq<User>) -> Seq<User>
    decreases s.len(),
{
    if s.len() == 0 {
        seq![]
    } else {
        insert_by_commits(sorted_by_commits(s.drop_last()), s.last())
    }
}

pub open spec fn descending_commits(s: Seq<User>) -> bool {
    forall|i: int, j: int| 0 <= i < j < s.len() ==> #[trigger] s[i].commits >= #[trigger] s[j].commits
}

proof fn lemma_insert_at(s: Seq<User>, u: User, p: int)
    requires
        0 <= p <= s.len(),
        forall|j: int| 0 <= j < p ==> #[trigger] s[j].commits >= u.commits,
        p == s.len() || s[p].commits < u.commits,
    ensures
        s.insert(p, u) == insert_by_commits(s, u),
    decreases p,
{
    if s.len() == 0 {
        assert(s.insert(p, u) =~= seq![u]);
    } else if p == 0 {
        assert(s.insert(p, u) =~= seq![u] + s);
    } else {
        let t = s.drop_first();
        assert forall|j: int| 0 <= j < p - 1 implies #[trigger] t[j].commits >= u.commits by {
            assert(t[j] == s[j + 1]);
        }
        lemma_insert_at(t, u, p - 1);
        assert(s.insert(p, u) =~= seq![s[0]] + t.insert(p - 1, u));
    }
}

proof fn lemma_insert_descending(s: Seq<User>, u: User)
    requires
        descending_commits(s),
    ensures
        descending_commits(insert_by_commits(s, u)),
        insert_by_commits(s, u).len() == s.len() + 1,
        forall|i: int| 0 <= i < insert_by_commits(s, u).len() ==>
            #[trigger] insert_by_commits(s, u)[i] == u || s.contains(insert_by_commits(s, u)[i]),
    decreases s.len(),
{
    let r = insert_by_commits(s, u);
    if s.len() == 0 {
    } else if s[0].commits < u.commits {
        assert forall|i: int| 0 < i < r.len() implies s.contains(#[trigger] r[i]) by {
            assert(r[i] == s[i - 1]);
        }
    } else {
        let t = s.drop_first();
        assert forall|i: int, j: int| 0 <= i < j < t.len() implies #[trigger] t[i].commits >= #[trigger] t[j].commits by {
            assert(t[i] == s[i + 1] && t[j] == s[j + 1]);
        }
        lemma_insert_descending(t, u);
        let rt = insert_by_commits(t, u);
        assert(r == seq![s[0]] + rt);
        assert forall|i: int| 0 < i < r.len() implies #[trigger] r[i] == u || s.contains(r[i]) by {
            assert(r[i] == rt[i - 1]);
            if rt[i - 1] != u {
                let k = choose|k: int| 0 <= k < t.len() && t[k] == rt[i - 1];
                assert(s[k + 1] == t[k]);
            }
        }
        assert forall|i: int, j: int| 0 <= i < j < r.len() implies #[trigger] r[i].commits >= #[trigger] r[j].commits by {
            if i == 0 {
                assert(r[j] == rt[j - 1]);
                if rt[j - 1] != u {
                    let k = choose|k: int| 0 <= k < s.len() && s[k] == r[j];
                    if k > 0 {
                        assert(s[0].commits >= s[k].commits);
                    }
                }
            } else {
                assert(r[i] == rt[i - 1] && r[j] == rt[j - 1]);
            }
        }
    }
}

/// The order `sorted_by_commits` produces runs from most commits to
/// fewest.
pub proof fn lemma_sorted_descending(s: Seq<User>)
    ensures
        descending_commits(sorted_by_commits(s)),
        sorted_by_commits(s).len() == s.len(),
    decreases s.len(),
{
    if s.len() > 0 {
        lemma_sorted_descending(s.drop_last());
        lemma_insert_descending(sorted_by_commits(s.drop_last()), s.last());
    }
}

/// Orders `users` by commits, most first, keeping the order of accounts
/// with equal counts.
pub fn sort_by_commits(users: &mut Vec<User>)
    ensures
        final(users)@ == sorted_by_commits(old(users)@),
        descending_commits(final(users)@),
{
    let ghost all = users@;
    let mut rest: Vec<User> = Vec::new();
    std::mem::swap(users, &mut rest);
    let total: usize = rest.len();
    let mut taken: usize = 0;
    while rest.len() > 0
        invariant
            all.len() == total,
            taken + rest@.len() == total,
            rest@ == all.subrange(taken as int, total as int),
            users@ == sorted_by_commits(all.subrange(0, taken as int)),
            users@.len() == taken,
        decreases rest@.len(),
    {
        let u = rest.remove(0);
        proof {
            let next = all.subrange(0, taken + 1);
            assert(next.drop_last() =~= all.subrange(0, taken as int));
            assert(next.last() == u);
        }
        let mut p: usize = 0;
        while p < users.len() && users[p].commits >= u.commits
            invariant
                p <= users@.len(),
                forall|j: int| 0 <= j < p ==> #[trigger] users@[j].commits >= u.commits,
            decreases users@.len() - p,
        {
            p = p + 1;
        }
        proof {
            lemma_insert_at(users@, u, p as int);
            lemma_sorted_descending(all.subrange(0, taken + 1));
        }
        users.insert(p, u);
        taken = taken + 1;
        assert(rest@ =~= all.subrange(taken as int, total as int));
    }
    proof {
        assert(all.subrange(0, total as int) =~= all);
        lemma_sorted_descending(all);
    }
}

/// The record of a finished run, ready to be persisted: its title, the
/// lowest sort key seen (`-1` when none was), when it was generated (Unix
/// seconds) and the collected accounts, most commits first.
#[derive(Debug)]
pub struct Output {
    pub title: String,
    pub min_followers: i64,
    pub generated_at: i64,
    pub users: Vec<User>,
}

impl Output {
    pub fn new(title: String, lowest_seen: Option<i64>, generated_at: i64, users: Vec<User>) -> (r: Output)
        ensures
            r.title == title,
            r.min_followers == (match lowest_seen {
                Some(k) => k,
                None => -1i64,
            }),
            r.generated_at == generated_at,
            r.users@ == sorted_by_commits(users@),
    {
        let mut users = users;
        sort_by_commits(&mut users);
        let min_followers = match lowest_seen {
            Some(k) => k,
            None => -1,
        };
        Output { title, min_followers, generated_at, users }
    }
}

} // verus!
