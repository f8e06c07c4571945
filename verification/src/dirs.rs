//! The set of expanded directories of the Tree view.
use vstd::prelude::*;

verus! {

/// A set of directory paths.
#[derive(Debug)]
pub struct DirSet {
    paths: Vec<String>,
}

impl View for DirSet {
    type V = Set<Seq<char>>;

    closed spec fn view(&self) -> Set<Seq<char>> {
        self.paths@.map_values(|s: String| s@).to_set()
    }
}

/// Filtering a sequence without duplicates leaves none.
pub proof fn lemma_filter_no_duplicates<A>(s: Seq<A>, pred: spec_fn(A) -> bool)
    requires
        s.no_duplicates(),
    ensures
        s.filter(pred).no_duplicates(),
    decreases s.len(),
{
    if s.len() == 0 {
        reveal(Seq::filter);
        assert(s.filter(pred).len() == 0);
    } else {
        let init = s.drop_last();
        assert(init.no_duplicates()) by {
            assert forall|i: int, j: int| 0 <= i < init.len() && 0 <= j < init.len() && i != j implies init[i] != init[j] by {
                assert(init[i] == s[i] && init[j] == s[j]);
            }
        }
        lemma_filter_no_duplicates(init, pred);
        init.lemma_filter_push(s.last(), pred);
        assert(init.push(s.last()) =~= s);
        if pred(s.last()) {
            let f = init.filter(pred);
            if f.contains(s.last()) {
                init.lemma_filter_contains_rev(pred, s.last());
                let k = choose|k: int| 0 <= k < init.len() && init[k] == s.last();
                assert(s[k] == s[s.len() - 1]);
            }
            let g = f.push(s.last());
            assert forall|i: int, j: int| 0 <= i < g.len() && 0 <= j < g.len() && i != j implies g[i] != g[j] by {
                if i < f.len() && j < f.len() {
                } else if i == f.len() {
                    assert(f.contains(f[j]));
                } else {
                    assert(f.contains(f[i]));
                }
            }
        }
    }
}

impl DirSet {
    /// No directory is held twice.
    #[verifier::type_invariant]
    spec fn wf(self) -> bool {
        self.paths@.map_values(|s: String| s@).no_duplicates()
    }

    proof fn lemma_view_contains(&self, p: Seq<char>)
        ensures
            self@.contains(p) <==> exists|j: int| 0 <= j < self.paths@.len() && self.paths@[j]@ == p,
    {
        let m = self.paths@.map_values(|s: String| s@);
        if self@.contains(p) {
            let j = choose|j: int| 0 <= j < m.len() && m[j] == p;
            assert(self.paths@[j]@ == p);
        }
        if exists|j: int| 0 <= j < self.paths@.len() && self.paths@[j]@ == p {
            let j = choose|j: int| 0 <= j < self.paths@.len() && self.paths@[j]@ == p;
            assert(m[j] == p);
            assert(m.contains(p));
        }
    }

    pub fn new() -> (r: DirSet)
        ensures
            r@ == Set::<Seq<char>>::empty(),
    {
        let paths: Vec<String> = Vec::new();
        assert(paths@.map_values(|s: String| s@) =~= Seq::<Seq<char>>::empty());
        let r = DirSet { paths };
        assert(r@ =~= Set::<Seq<char>>::empty());
        r
    }

    /// Whether `path` is in the set.
    pub fn contains(&self, path: &str) -> (r: bool)
        ensures
            r == self@.contains(path@),
    {
        proof {
            self.lemma_view_contains(path@);
        }
        for i in 0..self.paths.len()
            invariant
                forall|j: int| 0 <= j < i ==> self.paths@[j]@ != path@,
        {
            if crate::text::str_eq(self.paths[i].as_str(), path) {
                proof {
                    self.lemma_view_contains(path@);
                }
                return true;
            }
        }
        false
    }

    /// Adds `path`; returns whether it was absent before.
    pub fn insert(&mut self, path: String) -> (r: bool)
        ensures
            r == !old(self)@.contains(path@),
            final(self)@ == old(self)@.insert(path@),
    {
        proof {
            use_type_invariant(&*self);
        }
        if self.contains(path.as_str()) {
            assert(self@.insert(path@) =~= self@);
            false
        } else {
            let ghost p = path@;
            proof {
                self.lemma_view_contains(p);
                let m = self.paths@.map_values(|s: String| s@);
                let m2 = self.paths@.push(path).map_values(|s: String| s@);
                assert(m2 =~= m.push(p));
                assert forall|i: int, j: int| 0 <= i < m2.len() && 0 <= j < m2.len() && i != j implies m2[i] != m2[j] by {
                    if i == m.len() {
                        assert(self.paths@[j]@ == m[j]);
                    } else if j == m.len() {
                        assert(self.paths@[i]@ == m[i]);
                    }
                }
            }
            let ghost before = self.paths@;
            let mut v: Vec<String> = Vec::new();
            assert(v@.map_values(|s: String| s@) =~= Seq::<Seq<char>>::empty());
            std::mem::swap(&mut v, &mut self.paths);
            v.push(path);
            assert(v@ == before.push(path));
            assert(v@.map_values(|s: String| s@).no_duplicates());
            self.paths = v;
            proof {
                assert forall|x: Seq<char>| self@.contains(x) <==> old(self)@.insert(p).contains(x) by {
                    self.lemma_view_contains(x);
                    old(self).lemma_view_contains(x);
                    if exists|j: int| 0 <= j < old(self).paths@.len() && old(self).paths@[j]@ == x {
                        let j = choose|j: int| 0 <= j < old(self).paths@.len() && old(self).paths@[j]@ == x;
                        assert(self.paths@[j]@ == x);
                    }
                    if exists|j: int| 0 <= j < self.paths@.len() && self.paths@[j]@ == x {
                        let j = choose|j: int| 0 <= j < self.paths@.len() && self.paths@[j]@ == x;
                        if j < old(self).paths@.len() {
                            assert(old(self).paths@[j]@ == x);
                        }
                    }
                    assert(self.paths@[self.paths@.len() - 1]@ == p);
                }
                assert(self@ =~= old(self)@.insert(p));
            }
            true
        }
    }

    /// Removes `path` if present.
    pub fn remove(&mut self, path: &str)
        ensures
            final(self)@ == old(self)@.remove(path@),
    {
        proof {
            use_type_invariant(&*self);
        }
        let ghost pv = path@;
        let ghost pred = |x: Seq<char>| x != pv;
        let ghost all = self.paths@.map_values(|s: String| s@);
        let mut kept: Vec<String> = Vec::new();
        for i in 0..self.paths.len()
            invariant
                pv == path@,
                all == self.paths@.map_values(|s: String| s@),
                pred == (|x: Seq<char>| x != pv),
                kept@.map_values(|s: String| s@) == all.take(i as int).filter(pred),
        {
            proof {
                all.take(i as int).lemma_filter_push(all[i as int], pred);
                assert(all.take(i + 1) =~= all.take(i as int).push(all[i as int]));
            }
            if !crate::text::str_eq(self.paths[i].as_str(), path) {
                let ghost before = kept@;
                kept.push(self.paths[i].clone());
                assert(kept@.map_values(|s: String| s@) =~= before.map_values(|s: String| s@).push(all[i as int]));
            }
        }
        proof {
            assert(all.take(all.len() as int) =~= all);
            lemma_filter_no_duplicates(all, pred);
            assert(kept@.map_values(|s: String| s@).no_duplicates());
        }
        self.paths = kept;
        proof {
            let f = all.filter(pred);
            assert forall|x: Seq<char>| f.to_set().contains(x) <==> all.to_set().remove(pv).contains(x) by {
                if f.contains(x) {
                    all.lemma_filter_contains_rev(pred, x);
                }
                if all.contains(x) && x != pv {
                    let j = choose|j: int| 0 <= j < all.len() && all[j] == x;
                    all.lemma_filter_contains(pred, j);
                }
            }
            assert(self@ =~= old(self)@.remove(path@));
        }
    }

    pub fn clear(&mut self)
        ensures
            final(self)@ == Set::<Seq<char>>::empty(),
    {
        let paths: Vec<String> = Vec::new();
        assert(paths@.map_values(|s: String| s@) =~= Seq::<Seq<char>>::empty());
        self.paths = paths;
        assert(self@ =~= Set::<Seq<char>>::empty());
    }
}

} // verus!
