//! Sets of layer file names.

use vstd::prelude::*;

verus! {

/// The character sequences of `paths`, in order.
pub open spec fn views_of(paths: Seq<String>) -> Seq<Seq<char>> {
    paths.map_values(|p: String| p@)
}

/// The paths of the layer files of one timeline, each at most once.
pub struct LayerSet {
    paths: Vec<String>,
}

impl LayerSet {
    /// The paths in the order in which they are held.
    pub closed spec fn names(&self) -> Seq<Seq<char>> {
        views_of(self.paths@)
    }

    #[verifier::type_invariant]
    closed spec fn no_repeats(&self) -> bool {
        self.names().no_duplicates()
    }

    /// An empty set.
    pub fn new() -> (r: LayerSet)
        ensures
            r@ == Set::<Seq<char>>::empty(),
    {
        let r = LayerSet { paths: Vec::new() };
        proof {
            assert(r.names() =~= Seq::<Seq<char>>::empty());
        }
        r
    }

    /// Whether `path` is in the set.
    pub fn contains(&self, path: &String) -> (r: bool)
        ensures
            r == self@.contains(path@),
    {
        let mut i: usize = 0;
        while i < self.paths.len()
            invariant
                0 <= i <= self.paths@.len(),
                forall|j: int| 0 <= j < i ==> self.names()[j] != path@,
            decreases self.paths@.len() - i,
        {
            if self.paths[i] == *path {
                proof {
                    assert(self.names()[i as int] == path@);
                    assert(self.names().contains(path@));
                }
                return true;
            }
            i = i + 1;
        }
        proof {
            if self.names().contains(path@) {
                let k = choose|k: int| 0 <= k < self.names().len() && self.names()[k] == path@;
                assert(self.names()[k] == path@);
            }
        }
        false
    }

    /// Adds `path`; returns whether it was not there before.
    pub fn insert(&mut self, path: String) -> (added: bool)
        ensures
            final(self)@ == old(self)@.insert(path@),
            added == !old(self)@.contains(path@),
    {
        if self.contains(&path) {
            proof {
                assert(self@.insert(path@) =~= self@);
            }
            return false;
        }
        proof {
            use_type_invariant(&*self);
        }
        let ghost before = self.names();
        let ghost p = path@;
        let mut paths = Vec::new();
        std::mem::swap(&mut paths, &mut self.paths);
        paths.push(path);
        proof {
            assert(views_of(paths@) =~= before.push(p));
            assert(before.push(p).no_duplicates()) by {
                assert forall|a: int, b: int|
                    0 <= a < before.len() + 1 && 0 <= b < before.len() + 1 && a != b implies
                    #[trigger] before.push(p)[a] != #[trigger] before.push(p)[b] by {
                    if a == before.len() {
                        assert(before.contains(before[b]));
                    } else if b == before.len() {
                        assert(before.contains(before[a]));
                    }
                }
            }
            before.lemma_push_to_set_commute(p);
        }
        self.paths = paths;
        proof {
            assert(self.names() == before.push(p));
            assert(self@ == self.names().to_set());
            assert(self@ == before.to_set().insert(p));
        }
        true
    }

    /// Number of paths in the set.
    pub fn len(&self) -> (r: usize)
        ensures
            r == self@.len(),
    {
        proof {
            use_type_invariant(&*self);
            self.names().unique_seq_to_set();
        }
        self.paths.len()
    }

    /// Whether the set holds no path.
    pub fn is_empty(&self) -> (r: bool)
        ensures
            r == (self@ == Set::<Seq<char>>::empty()),
    {
        let n = self.len();
        proof {
            if n != 0 {
                assert(self@.len() != 0);
            } else {
                assert(self@ =~= Set::<Seq<char>>::empty()) by {
                    self@.lemma_len0_is_empty();
                }
            }
        }
        n == 0
    }
}

impl LayerSet {
    /// A set holding each of `paths`.
    pub fn from_paths(paths: Vec<String>) -> (r: LayerSet)
        ensures
            r@ == views_of(paths@).to_set(),
    {
        let ghost names = views_of(paths@);
        let mut r = LayerSet::new();
        let mut i: usize = 0;
        proof {
            assert(names.take(0).to_set() =~= Set::<Seq<char>>::empty());
        }
        while i < paths.len()
            invariant
                0 <= i <= paths@.len(),
                names == views_of(paths@),
                r@ == names.take(i as int).to_set(),
            decreases paths@.len() - i,
        {
            let p = paths[i].clone();
            r.insert(p);
            proof {
                lemma_take_succ_to_set(names, i as int);
            }
            i = i + 1;
        }
        proof {
            assert(names.take(i as int) =~= names);
        }
        r
    }

    /// A set with the same paths.
    pub fn duplicate(&self) -> (r: LayerSet)
        ensures
            r@ == self@,
    {
        let mut r = LayerSet::new();
        let mut i: usize = 0;
        proof {
            assert(self.names().take(0).to_set() =~= Set::<Seq<char>>::empty());
        }
        while i < self.paths.len()
            invariant
                0 <= i <= self.paths@.len(),
                r@ == self.names().take(i as int).to_set(),
            decreases self.paths@.len() - i,
        {
            let p = self.paths[i].clone();
            r.insert(p);
            proof {
                lemma_take_succ_to_set(self.names(), i as int);
            }
            i = i + 1;
        }
        proof {
            assert(self.names().take(i as int) =~= self.names());
        }
        r
    }

    /// The paths of the set, each once, in no particular order.
    pub fn to_vec(&self) -> (r: Vec<String>)
        ensures
            views_of(r@).to_set() == self@,
            views_of(r@).no_duplicates(),
    {
        proof {
            use_type_invariant(&*self);
        }
        let mut r: Vec<String> = Vec::new();
        let mut i: usize = 0;
        while i < self.paths.len()
            invariant
                0 <= i <= self.paths@.len(),
                self.names().no_duplicates(),
                views_of(r@) == self.names().take(i as int),
            decreases self.paths@.len() - i,
        {
            let p = self.paths[i].clone();
            let ghost old_r = r@;
            r.push(p);
            proof {
                assert(r@ == old_r.push(self.paths@[i as int]));
                assert(self.names()[i as int] == self.paths@[i as int]@);
                assert(views_of(old_r).len() == old_r.len());
                assert forall|j: int| 0 <= j < i + 1 implies views_of(r@)[j]
                    == self.names().take(i + 1)[j] by {
                    if j < i {
                        assert(views_of(old_r)[j] == self.names().take(i as int)[j]);
                    }
                }
                assert(views_of(r@) =~= self.names().take(i + 1));
            }
            i = i + 1;
        }
        proof {
            assert(self.names().take(i as int) =~= self.names());
        }
        r
    }

    /// Adds every path of `other`.
    pub fn extend(&mut self, other: &LayerSet)
        ensures
            final(self)@ == old(self)@.union(other@),
    {
        let mut i: usize = 0;
        proof {
            assert(other.names().take(0).to_set() =~= Set::<Seq<char>>::empty());
            assert(self@ =~= old(self)@.union(Set::<Seq<char>>::empty()));
        }
        while i < other.paths.len()
            invariant
                0 <= i <= other.paths@.len(),
                self@ == old(self)@.union(other.names().take(i as int).to_set()),
            decreases other.paths@.len() - i,
        {
            let p = other.paths[i].clone();
            self.insert(p);
            proof {
                lemma_take_succ_to_set(other.names(), i as int);
                assert(self@ =~= old(self)@.union(other.names().take(i + 1).to_set()));
            }
            i = i + 1;
        }
        proof {
            assert(other.names().take(i as int) =~= other.names());
        }
    }

    /// The paths of `self` that are not in `other`.
    pub fn difference(&self, other: &LayerSet) -> (r: LayerSet)
        ensures
            r@ == self@.difference(other@),
    {
        let mut r = LayerSet::new();
        let mut i: usize = 0;
        proof {
            assert(r@ =~= self.names().take(0).to_set().difference(other@));
        }
        while i < self.paths.len()
            invariant
                0 <= i <= self.paths@.len(),
                r@ == self.names().take(i as int).to_set().difference(other@),
            decreases self.paths@.len() - i,
        {
            let ghost before = r@;
            if !other.contains(&self.paths[i]) {
                let p = self.paths[i].clone();
                r.insert(p);
            }
            proof {
                lemma_take_succ_to_set(self.names(), i as int);
                assert(r@ =~= self.names().take(i + 1).to_set().difference(other@));
            }
            i = i + 1;
        }
        proof {
            assert(self.names().take(i as int) =~= self.names());
        }
        r
    }

    /// Removes every path of `other`.
    pub fn remove_all(&mut self, other: &LayerSet)
        ensures
            final(self)@ == old(self)@.difference(other@),
    {
        let rest = self.difference(other);
        *self = rest;
    }

    /// Whether both sets hold the same paths.
    pub fn same_paths(&self, other: &LayerSet) -> (r: bool)
        ensures
            r == (self@ == other@),
    {
        let only_here = self.difference(other);
        let only_there = other.difference(self);
        let r = only_here.is_empty() && only_there.is_empty();
        proof {
            if r {
                assert forall|p: Seq<char>| self@.contains(p) implies other@.contains(p) by {
                    if !other@.contains(p) {
                        assert(only_here@.contains(p));
                    }
                }
                assert forall|p: Seq<char>| other@.contains(p) implies self@.contains(p) by {
                    if !self@.contains(p) {
                        assert(only_there@.contains(p));
                    }
                }
                assert(self@ =~= other@);
            } else if self@ == other@ {
                assert(only_here@ =~= Set::<Seq<char>>::empty());
                assert(only_there@ =~= Set::<Seq<char>>::empty());
            }
        }
        r
    }
}

proof fn lemma_take_succ_to_set(s: Seq<Seq<char>>, i: int)
    requires
        0 <= i < s.len(),
    ensures
        s.take(i + 1).to_set() == s.take(i).to_set().insert(s[i]),
{
    assert(s.take(i + 1) =~= s.take(i).push(s[i]));
    s.take(i).lemma_push_to_set_commute(s[i]);
}

impl View for LayerSet {
    type V = Set<Seq<char>>;

    closed spec fn view(&self) -> Set<Seq<char>> {
        self.names().to_set()
    }
}

} // verus!
