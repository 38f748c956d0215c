//! A finite set of paths, kept as a vector in which no path occurs twice.
use vstd::prelude::*;
use crate::text::{is_prefix, lex_le, sort_strings, sorted, starts_with, views};

verus! {

/// A finite set of element paths.
pub struct PathSet {
    items: Vec<String>,
}

impl View for PathSet {
    type V = Set<Seq<char>>;

    closed spec fn view(&self) -> Set<Seq<char>> {
        views(self.items@).to_set()
    }
}

impl PathSet {
    /// No path is held twice.
    pub closed spec fn wf(&self) -> bool {
        views(self.items@).no_duplicates()
    }

    /// The empty set.
    pub fn new() -> (s: PathSet)
        ensures
            s.wf(),
            s@ == Set::<Seq<char>>::empty(),
    {
        let s = PathSet { items: Vec::new() };
        assert(views(s.items@) =~= Seq::<Seq<char>>::empty());
        assert(s@ =~= Set::<Seq<char>>::empty());
        s
    }

    /// Every set of paths is finite.
    pub proof fn lemma_finite(&self)
        ensures
            self@.finite(),
    {
        vstd::seq_lib::seq_to_set_is_finite(views(self.items@));
    }

    fn index_of(&self, p: &String) -> (r: Option<usize>)
        ensures
            match r {
                Some(i) => i < self.items@.len() && self.items@[i as int]@ == p@,
                None => !self@.contains(p@),
            },
    {
        let mut i: usize = 0;
        while i < self.items.len()
            invariant
                i <= self.items@.len(),
                forall|j: int| 0 <= j < i ==> #[trigger] self.items@[j]@ != p@,
            decreases self.items.len() - i,
        {
            if self.items[i] == *p {
                return Some(i);
            }
            i = i + 1;
        }
        proof {
            if self@.contains(p@) {
                let k = choose|k: int| 0 <= k < views(self.items@).len() && views(self.items@)[k] == p@;
                assert(self.items@[k]@ == p@);
            }
        }
        None
    }

    /// Whether `p` is in the set.
    pub fn contains(&self, p: &String) -> (b: bool)
        ensures
            b == self@.contains(p@),
    {
        match self.index_of(p) {
            Some(i) => {
                assert(views(self.items@)[i as int] == p@);
                true
            },
            None => false,
        }
    }

    /// Adds `p` to the set.
    pub fn insert(&mut self, p: String)
        requires
            old(self).wf(),
        ensures
            final(self).wf(),
            final(self)@ == old(self)@.insert(p@),
    {
        if self.contains(&p) {
            assert(self@.insert(p@) =~= self@);
            return;
        }
        let ghost old_items = views(self.items@);
        self.items.push(p);
        proof {
            assert(views(self.items@) =~= old_items.push(p@));
            assert(!old_items.contains(p@));
            assert(self@ =~= old_items.to_set().insert(p@)) by {
                assert forall|q| self@.contains(q) <==> old_items.to_set().insert(p@).contains(q) by {
                    if q == p@ {
                        assert(views(self.items@)[old_items.len() as int] == p@);
                    }
                    if old_items.contains(q) {
                        let k = choose|k: int| 0 <= k < old_items.len() && old_items[k] == q;
                        assert(views(self.items@)[k] == q);
                    }
                    if views(self.items@).contains(q) && q != p@ {
                        let k = choose|k: int| 0 <= k < views(self.items@).len() && views(self.items@)[k] == q;
                        assert(old_items[k] == q);
                    }
                }
            }
        }
    }

    /// Takes `p` out of the set.
    pub fn remove(&mut self, p: &String)
        requires
            old(self).wf(),
        ensures
            final(self).wf(),
            final(self)@ == old(self)@.remove(p@),
    {
        match self.index_of(p) {
            None => {
                assert(self@.remove(p@) =~= self@);
            },
            Some(i) => {
                let ghost old_items = views(self.items@);
                self.items.remove(i);
                proof {
                    assert(views(self.items@) =~= old_items.remove(i as int));
                    assert forall|q| self@.contains(q) <==> old_items.to_set().remove(p@).contains(q) by {
                        if views(self.items@).contains(q) {
                            let k = choose|k: int| 0 <= k < views(self.items@).len() && views(self.items@)[k] == q;
                            if k < i {
                                assert(old_items[k] == q);
                            } else {
                                assert(old_items[k + 1] == q);
                            }
                            assert(old_items[i as int] == p@);
                        }
                        if old_items.contains(q) && q != p@ {
                            let k = choose|k: int| 0 <= k < old_items.len() && old_items[k] == q;
                            if k < i {
                                assert(views(self.items@)[k] == q);
                            } else {
                                assert(views(self.items@)[k - 1] == q);
                            }
                        }
                    }
                    assert(self@ =~= old_items.to_set().remove(p@));
                }
            },
        }
    }

    /// Empties the set.
    pub fn clear(&mut self)
        ensures
            final(self).wf(),
            final(self)@ == Set::<Seq<char>>::empty(),
    {
        self.items.clear();
        assert(views(self.items@) =~= Seq::<Seq<char>>::empty());
        assert(self@ =~= Set::<Seq<char>>::empty());
    }

    /// Whether the set holds no path.
    pub fn is_empty(&self) -> (b: bool)
        ensures
            b == (self@ == Set::<Seq<char>>::empty()),
    {
        if self.items.len() == 0 {
            assert(views(self.items@) =~= Seq::<Seq<char>>::empty());
            assert(self@ =~= Set::<Seq<char>>::empty());
            true
        } else {
            assert(self@.contains(views(self.items@)[0]));
            false
        }
    }

    /// Whether some path of the set starts with `p`.
    pub fn any_starts_with(&self, p: &String) -> (b: bool)
        ensures
            b == exists|q: Seq<char>| self@.contains(q) && is_prefix(p@, q),
    {
        let mut i: usize = 0;
        while i < self.items.len()
            invariant
                i <= self.items@.len(),
                forall|j: int| 0 <= j < i ==> !is_prefix(p@, #[trigger] self.items@[j]@),
            decreases self.items.len() - i,
        {
            if starts_with(&self.items[i], p) {
                assert(self@.contains(views(self.items@)[i as int]));
                return true;
            }
            i = i + 1;
        }
        assert forall|q: Seq<char>| self@.contains(q) implies !is_prefix(p@, q) by {
            let k = choose|k: int| 0 <= k < views(self.items@).len() && views(self.items@)[k] == q;
            assert(self.items@[k]@ == q);
        }
        false
    }

    /// The paths of the set in ascending order, each once.
    pub fn sorted_paths(&self) -> (r: Vec<String>)
        requires
            self.wf(),
        ensures
            sorted(views(r@)),
            views(r@).no_duplicates(),
            views(r@).to_set() == self@,
    {
        let copy = self.items.clone();
        proof {
            assert(copy@ =~= self.items@);
        }
        let r = sort_strings(copy);
        proof {
            let a = views(self.items@);
            let b = views(r@);
            a.lemma_multiset_has_no_duplicates();
            b.lemma_multiset_has_no_duplicates_conv();
            a.to_multiset_ensures();
            b.to_multiset_ensures();
            assert forall|x| b.to_set().contains(x) <==> a.to_set().contains(x) by {
                assert(b.contains(x) <==> b.to_multiset().count(x) > 0);
                assert(a.contains(x) <==> a.to_multiset().count(x) > 0);
            }
            assert(b.to_set() =~= a.to_set());
        }
        r
    }
}

} // verus!
