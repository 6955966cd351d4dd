use vstd::prelude::*;

verus! {

broadcast use vstd::std_specs::vec::group_vec_axioms;

/// One slice of the search: the locations a result must match, those it
/// must not match, and an optional exclusive upper bound on the sort key.
#[derive(Debug)]
pub struct QueryWindow {
    pub locations: Vec<String>,
    pub excluded: Vec<String>,
    pub upper_bound: Option<i64>,
}

/// The bound of the window that follows one whose sort keys ranged from
/// `lowest` to `highest` (`None` when it saw no entity), or `None` when no
/// narrower window can be planned: nothing was seen, all keys were equal,
/// or the keys did not fall below the window's own bound.
pub open spec fn next_bound(bound: Option<i64>, lowest: Option<i64>, highest: Option<i64>) -> Option<i64> {
    match (lowest, highest) {
        (Some(lo), Some(hi)) => {
            if lo == hi {
                None
            } else {
                match bound {
                    Some(b) => if lo < b { Some(lo) } else { None },
                    None => Some(lo),
                }
            }
        },
        _ => None,
    }
}

/// The decimal digits of `n`.
pub open spec fn decimal(n: nat) -> Seq<char>
    decreases n,
{
    if n < 10 {
        seq![digit(n)]
    } else {
        decimal(n / 10).push(digit(n % 10))
    }
}

pub open spec fn digit(d: nat) -> char {
    seq!['0', '1', '2', '3', '4', '5', '6', '7', '8', '9'][d as int]
}

/// The decimal text of a signed integer.
pub open spec fn signed_decimal(n: int) -> Seq<char> {
    if n < 0 {
        seq!['-'] + decimal((-n) as nat)
    } else {
        decimal(n as nat)
    }
}

/// Each term of `terms`, led by `prefix`, one after the other.
pub open spec fn prefixed_terms(prefix: Seq<char>, terms: Seq<Seq<char>>) -> Seq<char>
    decreases terms.len(),
{
    if terms.len() == 0 {
        seq![]
    } else {
        prefixed_terms(prefix, terms.drop_last()) + prefix + terms.last()
    }
}

/// The search text of a window.
pub open spec fn query_text(locations: Seq<Seq<char>>, excluded: Seq<Seq<char>>, bound: Option<i64>) -> Seq<char> {
    prefixed_terms(" location:"@, locations) + prefixed_terms(" -location:"@, excluded) + match bound {
        Some(b) => " followers:<"@ + signed_decimal(b as int),
        None => seq![],
    } + " sort:followers-desc"@
}

fn push_digit(out: &mut String, d: u64)
    requires
        d < 10,
    ensures
        final(out)@ == old(out)@.push(digit(d as nat)),
{
    let digits = "0123456789";
    proof {
        reveal_strlit("0123456789");
    }
    let one = digits.substring_char(d as usize, d as usize + 1);
    assert(one@ =~= seq![digit(d as nat)]);
    out.append(one);
}

fn push_decimal(out: &mut String, n: u64)
    ensures
        final(out)@ == old(out)@ + decimal(n as nat),
    decreases n,
{
    if n >= 10 {
        push_decimal(out, n / 10);
    }
    push_digit(out, n % 10);
    assert(out@ =~= old(out)@ + decimal(n as nat));
}

fn push_terms(out: &mut String, prefix: &str, terms: &Vec<String>)
    ensures
        final(out)@ == old(out)@ + prefixed_terms(prefix@, terms.deep_view()),
{
    let mut i: usize = 0;
    while i < terms.len()
        invariant
            i <= terms.len(),
            out@ == old(out)@ + prefixed_terms(prefix@, terms.deep_view().subrange(0, i as int)),
        decreases terms.len() - i,
    {
        let ghost before = out@;
        out.append(prefix);
        out.append(terms[i].as_str());
        proof {
            let next = terms.deep_view().subrange(0, i + 1);
            assert(next.drop_last() =~= terms.deep_view().subrange(0, i as int));
            assert(next.last() == terms@[i as int]@);
            assert(out@ =~= old(out)@ + prefixed_terms(prefix@, next));
        }
        i = i + 1;
    }
    assert(terms.deep_view().subrange(0, terms.len() as int) =~= terms.deep_view());
}

impl QueryWindow {
    /// The first window of a run: the given filters, no bound.
    pub fn first(locations: Vec<String>, excluded: Vec<String>) -> (r: QueryWindow)
        ensures
            r.locations == locations,
            r.excluded == excluded,
            r.upper_bound.is_none(),
    {
        QueryWindow { locations, excluded, upper_bound: None }
    }

    /// The window after this one, given the lowest and highest sort keys
    /// seen in it: the same filters, bounded strictly below the lowest key.
    pub fn next_window(&self, lowest: Option<i64>, highest: Option<i64>) -> (r: Option<QueryWindow>)
        ensures
            match next_bound(self.upper_bound, lowest, highest) {
                Some(b) => r is Some && ({
                    let w = r->Some_0;
                    &&& w.locations.deep_view() == self.locations.deep_view()
                    &&& w.excluded.deep_view() == self.excluded.deep_view()
                    &&& w.upper_bound == Some(b)
                }),
                None => r is None,
            },
    {
        let bound = match (lowest, highest) {
            (Some(lo), Some(hi)) => {
                if lo == hi {
                    None
                } else {
                    match self.upper_bound {
                        Some(b) => if lo < b { Some(lo) } else { None },
                        None => Some(lo),
                    }
                }
            },
            _ => None,
        };
        match bound {
            Some(b) => {
                let locations = self.locations.clone();
                let excluded = self.excluded.clone();
                Some(QueryWindow { locations, excluded, upper_bound: Some(b) })
            },
            None => None,
        }
    }

    /// The search text of this window: its location terms, its excluded terms, its
    /// bound if any, and the descending sort on the sort key.
    pub fn query(&self) -> (r: String)
        ensures
            r@ == query_text(self.locations.deep_view(), self.excluded.deep_view(), self.upper_bound),
    {
        let mut out = String::new();
        push_terms(&mut out, " location:", &self.locations);
        push_terms(&mut out, " -location:", &self.excluded);
        let ghost terms = out@;
        match self.upper_bound {
            Some(b) => {
                out.append(" followers:<");
                if b < 0 {
                    out.append("-");
                    let magnitude: u64 = ((-(b + 1)) as u64) + 1;
                    push_decimal(&mut out, magnitude);
                    proof {
                        reveal_strlit("-");
                    }
                } else {
                    push_decimal(&mut out, b as u64);
                }
                assert(out@ =~= terms + " followers:<"@ + signed_decimal(b as int));
            },
            None => {
                assert(out@ =~= terms + seq![]);
            },
        }
        out.append(" sort:followers-desc");
        let ghost bound_text = match self.upper_bound {
            Some(b) => " followers:<"@ + signed_decimal(b as int),
            None => Seq::<char>::empty(),
        };
        assert(out@ =~= terms + bound_text + " sort:followers-desc"@);
        out
    }
}

} // verus!
