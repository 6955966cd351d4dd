use vstd::prelude::*;

verus! {

/// The set of identities already known to a collection run.
pub struct Deduplicator {
    known: Vec<String>,
}

impl View for Deduplicator {
    type V = Set<Seq<char>>;

    closed spec fn view(&self) -> Set<Seq<char>> {
        Set::new(|s: Seq<char>| exists|i: int| 0 <= i < self.known@.len() && self.known@[i]@ == s)
    }
}

/// The identities listed in `ids`, as a set.
pub open spec fn id_set(ids: Seq<String>) -> Set<Seq<char>> {
    Set::new(|s: Seq<char>| exists|i: int| 0 <= i < ids.len() && ids[i]@ == s)
}

impl Deduplicator {
    /// A deduplicator that knows no identity yet.
    pub fn new() -> (r: Deduplicator)
        ensures
            r@ == Set::<Seq<char>>::empty(),
    {
        let r = Deduplicator { known: Vec::new() };
        assert(r@ =~= Set::<Seq<char>>::empty());
        r
    }

    /// A deduplicator seeded with the identities of `blacklist`, which are
    /// then treated as already seen.
    pub fn with_blacklist(blacklist: &Vec<String>) -> (r: Deduplicator)
        ensures
            r@ == id_set(blacklist@),
    {
        let mut r = Deduplicator::new();
        let mut i: usize = 0;
        while i < blacklist.len()
            invariant
                i <= blacklist.len(),
                r@ == id_set(blacklist@.subrange(0, i as int)),
            decreases blacklist.len() - i,
        {
            let ghost before = r@;
            r.record(blacklist[i].clone());
            proof {
                let prefix = blacklist@.subrange(0, i as int);
                let next = blacklist@.subrange(0, i + 1);
                assert forall|s: Seq<char>| id_set(next).contains(s) <==> r@.contains(s) by {
                    if id_set(next).contains(s) {
                        let k = choose|k: int| 0 <= k < next.len() && next[k]@ == s;
                        if k < i {
                            assert(prefix[k] == next[k]);
                        }
                    }
                    if before.contains(s) {
                        let k = choose|k: int| 0 <= k < prefix.len() && prefix[k]@ == s;
                        assert(next[k] == prefix[k]);
                    }
                    if s == blacklist@[i as int]@ {
                        assert(next[i as int] == blacklist@[i as int]);
                    }
                }
                assert(id_set(next) =~= r@);
            }
            i = i + 1;
        }
        assert(blacklist@.subrange(0, blacklist@.len() as int) =~= blacklist@);
        r
    }

    /// Whether `id` is already known.
    pub fn seen(&self, id: &String) -> (r: bool)
        ensures
            r == self@.contains(id@),
    {
        let mut i: usize = 0;
        while i < self.known.len()
            invariant
                i <= self.known@.len(),
                forall|k: int| 0 <= k < i ==> self.known@[k]@ != id@,
            decreases self.known@.len() - i,
        {
            if self.known[i] == *id {
                assert(self@.contains(id@));
                return true;
            }
            i = i + 1;
        }
        assert(!self@.contains(id@));
        false
    }

    /// Marks `id` as known.
    pub fn record(&mut self, id: String)
        ensures
            final(self)@ == old(self)@.insert(id@),
    {
        let ghost old_known = self.known@;
        self.known.push(id);
        proof {
            assert forall|s: Seq<char>| self@.contains(s) <==> old(self)@.insert(id@).contains(s) by {
                if self@.contains(s) {
                    let k = choose|k: int| 0 <= k < self.known@.len() && self.known@[k]@ == s;
                    if k < old_known.len() {
                        assert(old_known[k] == self.known@[k]);
                    }
                }
                if old(self)@.contains(s) {
                    let k = choose|k: int| 0 <= k < old_known.len() && old_known[k]@ == s;
                    assert(old_known[k] == self.known@[k]);
                }
                if s == id@ {
                    assert(self.known@[old_known.len() as int] == id);
                }
            }
            assert(self@ =~= old(self)@.insert(id@));
        }
    }
}

} // verus!
