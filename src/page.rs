use vstd::prelude::*;
use crate::user::User;

verus! {

/// One edge of a search response: its continuation cursor and its node,
/// which is `None` when the node is not an account.
#[derive(Debug)]
pub struct Edge {
    pub cursor: String,
    pub node: Option<User>,
}

/// A decoded page: the candidate entities in the order the source gave
/// them, and the cursor that continues after them (`None` when the source
/// signalled the end of the results).
#[derive(Debug)]
pub struct ResultPage {
    pub users: Vec<User>,
    pub next_cursor: Option<String>,
}

/// The accounts among `edges`, in order.
pub open spec fn edge_users(edges: Seq<Option<Edge>>) -> Seq<User>
    decreases edges.len(),
{
    if edges.len() == 0 {
        seq![]
    } else {
        let rest = edge_users(edges.drop_last());
        match edges.last() {
            Some(e) => match e.node {
                Some(u) => rest.push(u),
                None => rest,
            },
            None => rest,
        }
    }
}

/// The cursor of the last edge present in `edges`.
pub open spec fn last_cursor(edges: Seq<Option<Edge>>) -> Option<Seq<char>>
    decreases edges.len(),
{
    if edges.len() == 0 {
        None
    } else {
        match edges.last() {
            Some(e) => Some(e.cursor@),
            None => last_cursor(edges.drop_last()),
        }
    }
}

/// The text of an optional cursor.
pub open spec fn cursor_view(c: Option<String>) -> Option<Seq<char>> {
    match c {
        Some(s) => Some(s@),
        None => None,
    }
}

/// Whether a page ends its window's results: no entity and no cursor.
pub open spec fn is_empty_terminal(page: ResultPage) -> bool {
    page.users@.len() == 0 && page.next_cursor is None
}

impl ResultPage {
    /// Decodes the edge list of a response. A missing list decodes as an
    /// empty page with no cursor; otherwise the page holds the accounts of
    /// the edges present, in order, and the cursor of the last of them.
    pub fn decode(edges: Option<Vec<Option<Edge>>>) -> (r: ResultPage)
        ensures
            match edges {
                Some(es) => {
                    &&& r.users@ == edge_users(es@)
                    &&& cursor_view(r.next_cursor) == last_cursor(es@)
                },
                None => r.users@.len() == 0 && r.next_cursor is None,
            },
    {
        let mut users: Vec<User> = Vec::new();
        let mut next_cursor: Option<String> = None;
        match edges {
            None => {},
            Some(es) => {
                let ghost all = es@;
                let mut rest = es;
                let mut taken: usize = 0;
                let total: usize = rest.len();
                while rest.len() > 0
                    invariant
                        taken + rest@.len() == all.len(),
                        all.len() == total,
                        rest@ == all.subrange(taken as int, all.len() as int),
                        users@ == edge_users(all.subrange(0, taken as int)),
                        cursor_view(next_cursor) == last_cursor(all.subrange(0, taken as int)),
                    decreases rest@.len(),
                {
                    let e = rest.remove(0);
                    proof {
                        let next = all.subrange(0, taken + 1);
                        assert(next.drop_last() =~= all.subrange(0, taken as int));
                        assert(next.last() == e);
                    }
                    match e {
                        Some(edge) => {
                            next_cursor = Some(edge.cursor);
                            match edge.node {
                                Some(u) => users.push(u),
                                None => {},
                            }
                        },
                        None => {},
                    }
                    taken = taken + 1;
                    assert(rest@ =~= all.subrange(taken as int, all.len() as int));
                }
                assert(all.subrange(0, all.len() as int) =~= all);
            },
        }
        ResultPage { users, next_cursor }
    }
}

} // verus!
