use vstd::prelude::*;

verus! {

/// One collected account: its identity (`login`), its sort key
/// (`followers`) and its activity counters.
#[derive(Debug)]
pub struct User {
    pub login: String,
    pub avatar: String,
    pub name: Option<String>,
    pub company: Option<String>,
    pub orgs: Vec<String>,
    pub followers: i64,
    pub contribs: i64,
    pub pub_contribs: i64,
    pub priv_contribs: i64,
    pub commits: i64,
    pub pull_requests: i64,
}

impl User {
    /// Builds an account record; public contributions are the total
    /// contributions less the restricted (private) ones.
    pub fn new(
        login: String,
        avatar: String,
        name: Option<String>,
        company: Option<String>,
        orgs: Vec<String>,
        followers: i64,
        contribs: i64,
        priv_contribs: i64,
        commits: i64,
        pull_requests: i64,
    ) -> (r: User)
        requires
            i64::MIN <= contribs - priv_contribs <= i64::MAX,
        ensures
            r.login == login,
            r.avatar == avatar,
            r.name == name,
            r.company == company,
            r.orgs == orgs,
            r.followers == followers,
            r.contribs == contribs,
            r.pub_contribs == contribs - priv_contribs,
            r.priv_contribs == priv_contribs,
            r.commits == commits,
            r.pull_requests == pull_requests,
    {
        User {
            login,
            avatar,
            name,
            company,
            orgs,
            followers,
            contribs,
            pub_contribs: contribs - priv_contribs,
            priv_contribs,
            commits,
            pull_requests,
        }
    }
}

/// The identities of a sequence of accounts, in order.
pub open spec fn logins_of(users: Seq<User>) -> Seq<Seq<char>> {
    users.map_values(|u: User| u.login@)
}

/// The sort keys of a sequence of accounts, in order.
pub open spec fn keys_of(users: Seq<User>) -> Seq<i64> {
    users.map_values(|u: User| u.followers)
}

/// No two accounts of the sequence share an identity.
pub open spec fn unique_logins(users: Seq<User>) -> bool {
    forall|i: int, j: int|
        0 <= i < users.len() && 0 <= j < users.len() && i != j ==> #[trigger] users[i].login@
            != #[trigger] users[j].login@
}


/// The identities of a sequence of accounts, as a set.
pub open spec fn login_set(users: Seq<User>) -> Set<Seq<char>> {
    Set::new(|s: Seq<char>| exists|i: int| 0 <= i < users.len() && users[i].login@ == s)
}

pub proof fn lemma_login_set_push(users: Seq<User>, u: User)
    ensures
        login_set(users.push(u)) == login_set(users).insert(u.login@),
{
    let pushed = users.push(u);
    assert forall|s: Seq<char>| login_set(pushed).contains(s) <==> login_set(users).insert(u.login@).contains(s) by {
        if login_set(pushed).contains(s) {
            let k = choose|k: int| 0 <= k < pushed.len() && pushed[k].login@ == s;
            if k < users.len() {
                assert(users[k] == pushed[k]);
            }
        }
        if login_set(users).contains(s) {
            let k = choose|k: int| 0 <= k < users.len() && users[k].login@ == s;
            assert(pushed[k] == users[k]);
        }
        if s == u.login@ {
            assert(pushed[users.len() as int] == u);
        }
    }
    assert(login_set(pushed) =~= login_set(users).insert(u.login@));
}

} // verus!
