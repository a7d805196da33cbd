//! A set of feature names, kept in ascending lexicographic order without
//! duplicates.
use vstd::prelude::*;
use crate::order::{compare, lex_lt, lemma_lex_total, lemma_lex_transitive, lemma_lex_irreflexive};

verus! {

/// Each name comes strictly before the next, so none occurs twice.
pub open spec fn sorted_unique(s: Seq<Seq<char>>) -> bool {
    forall|i: int, j: int| 0 <= i < j < s.len() ==> lex_lt(#[trigger] s[i], #[trigger] s[j])
}

/// The names held by a vector of strings.
pub open spec fn names_of(v: Seq<String>) -> Seq<Seq<char>> {
    v.map_values(|s: String| s@)
}

/// Feature names, in ascending order, each once.
pub struct FeatureSet {
    names: Vec<String>,
}

impl View for FeatureSet {
    type V = Seq<Seq<char>>;

    closed spec fn view(&self) -> Seq<Seq<char>> {
        names_of(self.names@)
    }
}

impl FeatureSet {
    /// The set holds its names in ascending order, each once.
    pub open spec fn wf(&self) -> bool {
        sorted_unique(self@)
    }

    /// An empty set.
    pub fn new() -> (r: FeatureSet)
        ensures
            r@ == Seq::<Seq<char>>::empty(),
            r.wf(),
    {
        FeatureSet { names: Vec::new() }
    }

    /// Adds `name` unless it is already there.
    pub fn insert(&mut self, name: String)
        requires
            old(self).wf(),
        ensures
            final(self).wf(),
            forall|f: Seq<char>| #[trigger] final(self)@.contains(f) <==> (old(self)@.contains(f) || f == name@),
    {
        let ghost prev = self@;
        let n = self.names.len();
        let mut i: usize = 0;
        while i < n
            invariant_except_break
                forall|k: int| 0 <= k < i ==> lex_lt(#[trigger] prev[k], name@),
            invariant
                n == self.names.len(),
                i <= n,
                self@ == prev,
                prev == old(self)@,
                sorted_unique(prev),
            ensures
                forall|k: int| 0 <= k < i ==> lex_lt(#[trigger] prev[k], name@),
                i < n ==> lex_lt(name@, prev[i as int]),
            decreases n - i,
        {
            let c = compare(self.names[i].as_str(), name.as_str());
            if c == 0 {
                assert(prev[i as int] == name@);
                assert(prev.contains(name@));
                return;
            }
            if c == 1 {
                break;
            }
            i = i + 1;
        }
        self.names.insert(i, name);
        let ghost next = self@;
        assert(next =~= prev.insert(i as int, name@));
        assert forall|a: int, b: int| 0 <= a < b < next.len() implies lex_lt(#[trigger] next[a], #[trigger] next[b]) by {
            if b > i {
                if b - 1 > i {
                    lemma_lex_transitive(name@, prev[i as int], prev[b - 1]);
                }
                assert(lex_lt(name@, next[b]));
                if a < i {
                    lemma_lex_transitive(next[a], name@, next[b]);
                }
            }
        }
        assert forall|f: Seq<char>| #[trigger] next.contains(f) <==> (prev.contains(f) || f == name@) by {
            if prev.contains(f) {
                let k = choose|k: int| 0 <= k < prev.len() && prev[k] == f;
                if k < i {
                    assert(next[k] == f);
                } else {
                    assert(next[k + 1] == f);
                }
            }
            if f == name@ {
                assert(next[i as int] == f);
            }
        }
    }

    /// Takes `name` out if it is there.
    pub fn remove(&mut self, name: &str)
        requires
            old(self).wf(),
        ensures
            final(self).wf(),
            forall|f: Seq<char>| #[trigger] final(self)@.contains(f) <==> (old(self)@.contains(f) && f != name@),
    {
        let ghost prev = self@;
        let n = self.names.len();
        let mut i: usize = 0;
        while i < n
            invariant
                n == self.names.len(),
                i <= n,
                self@ == prev,
                prev == old(self)@,
                sorted_unique(prev),
                forall|k: int| 0 <= k < i ==> prev[k] != name@,
            decreases n - i,
        {
            if compare(self.names[i].as_str(), name) == 0 {
                assert(prev[i as int] == name@);
                self.names.remove(i);
                let ghost next = self@;
                assert(next =~= prev.remove(i as int));
                assert forall|f: Seq<char>| #[trigger] next.contains(f) <==> (prev.contains(f) && f != name@) by {
                    if prev.contains(f) && f != name@ {
                        let k = choose|k: int| 0 <= k < prev.len() && prev[k] == f;
                        if k < i {
                            assert(next[k] == f);
                        } else {
                            assert(k != i);
                            assert(next[k - 1] == f);
                        }
                    }
                    if next.contains(f) {
                        let k = choose|k: int| 0 <= k < next.len() && next[k] == f;
                        if k >= i {
                            assert(prev[k + 1] == f);
                            assert(lex_lt(prev[i as int], prev[k + 1]));
                            lemma_lex_irreflexive(name@);
                        } else {
                            assert(prev[k] == f);
                        }
                    }
                }
                return;
            }
            i = i + 1;
        }
        assert(!prev.contains(name@));
    }

    /// The names, in ascending order.
    pub fn into_vec(self) -> (r: Vec<String>)
        ensures
            names_of(r@) == self@,
    {
        self.names
    }
}

} // verus!
