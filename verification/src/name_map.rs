//! A small map from names to values, kept in insertion order.

use vstd::prelude::*;
use crate::text::{chars_eq, copy_range};

verus! {

/// Position of the first entry named `k` in `keys` (`keys.len()` if none).
pub open spec fn first_index(keys: Seq<Seq<char>>, k: Seq<char>) -> int
    decreases keys.len(),
{
    if keys.len() == 0 {
        0
    } else if keys[0] == k {
        0
    } else {
        1 + first_index(keys.drop_first(), k)
    }
}

pub proof fn lemma_first_index(keys: Seq<Seq<char>>, k: Seq<char>)
    ensures
        0 <= first_index(keys, k) <= keys.len(),
        first_index(keys, k) < keys.len() ==> keys[first_index(keys, k)] == k,
        forall|j: int| 0 <= j < first_index(keys, k) ==> keys[j] != k,
    decreases keys.len(),
{
    if keys.len() > 0 && keys[0] != k {
        lemma_first_index(keys.drop_first(), k);
        assert forall|j: int| 0 <= j < first_index(keys, k) implies keys[j] != k by {
            if j > 0 {
                assert(keys[j] == keys.drop_first()[j - 1]);
            }
        }
    }
}

pub proof fn lemma_first_index_is(keys: Seq<Seq<char>>, k: Seq<char>, i: int)
    requires
        0 <= i <= keys.len(),
        i < keys.len() ==> keys[i] == k,
        forall|j: int| 0 <= j < i ==> keys[j] != k,
    ensures
        first_index(keys, k) == i,
    decreases keys.len(),
{
    if keys.len() > 0 && i > 0 {
        assert forall|j: int| 0 <= j < i - 1 implies keys.drop_first()[j] != k by {
            assert(keys.drop_first()[j] == keys[j + 1]);
        }
        lemma_first_index_is(keys.drop_first(), k, i - 1);
    }
}

/// Names mapped to values; a name occurs at most once.
#[derive(Debug)]
pub struct NameMap<V> {
    keys: Vec<Vec<char>>,
    values: Vec<V>,
}

impl<V> NameMap<V> {
    pub closed spec fn keys(&self) -> Seq<Seq<char>> {
        self.keys@.map_values(|k: Vec<char>| k@)
    }

    pub closed spec fn values(&self) -> Seq<V> {
        self.values@
    }

    pub closed spec fn wf(&self) -> bool {
        self.keys@.len() == self.values@.len()
    }

    /// The map as a mathematical map.
    pub closed spec fn view(&self) -> Map<Seq<char>, V> {
        Map::new(
            |k: Seq<char>| first_index(self.keys(), k) < self.keys().len(),
            |k: Seq<char>| self.values@[first_index(self.keys(), k)],
        )
    }

    pub closed spec fn len(&self) -> nat {
        self.keys@.len()
    }

    pub fn new() -> (r: NameMap<V>)
        ensures
            r.wf(),
            r.view() == Map::<Seq<char>, V>::empty(),
            r.len() == 0,
    {
        let r = NameMap { keys: Vec::new(), values: Vec::new() };
        assert(r.view() =~= Map::<Seq<char>, V>::empty());
        r
    }

    fn find(&self, k: &[char]) -> (r: usize)
        requires
            self.wf(),
        ensures
            r == first_index(self.keys(), k@),
            r <= self.keys@.len(),
    {
        proof {
            lemma_first_index(self.keys(), k@);
        }
        let mut i: usize = 0;
        while i < self.keys.len()
            invariant
                self.wf(),
                i <= self.keys@.len(),
                forall|j: int| 0 <= j < i ==> self.keys()[j] != k@,
            decreases self.keys@.len() - i,
        {
            assert(self.keys()[i as int] == self.keys@[i as int]@);
            if chars_eq(self.keys[i].as_slice(), k) {
                proof {
                    lemma_first_index_is(self.keys(), k@, i as int);
                }
                return i;
            }
            i = i + 1;
        }
        proof {
            lemma_first_index_is(self.keys(), k@, i as int);
        }
        i
    }

    /// The value named `k`.
    pub fn get(&self, k: &[char]) -> (r: Option<&V>)
        requires
            self.wf(),
        ensures
            match r {
                Some(v) => self.view().dom().contains(k@) && self.view()[k@] == *v,
                None => !self.view().dom().contains(k@),
            },
    {
        let i = self.find(k);
        if i < self.values.len() {
            Some(&self.values[i])
        } else {
            None
        }
    }

    /// Whether a value is named `k`.
    pub fn contains(&self, k: &[char]) -> (r: bool)
        requires
            self.wf(),
        ensures
            r == self.view().dom().contains(k@),
    {
        self.find(k) < self.keys.len()
    }

    /// Names `v` by `k`, replacing any value `k` named before.
    pub fn insert(&mut self, k: &[char], v: V)
        requires
            old(self).wf(),
        ensures
            final(self).wf(),
            final(self).view() == old(self).view().insert(k@, v),
    {
        let i = self.find(k);
        let ghost old_keys = self.keys();
        let ghost old_view = self.view();
        if i < self.keys.len() {
            self.values.set(i, v);
            assert forall|q: Seq<char>| #![auto] self.view().dom().contains(q) == old_view.insert(k@, v).dom().contains(q)
                && (self.view().dom().contains(q) ==> self.view()[q] == old_view.insert(k@, v)[q]) by {
                lemma_first_index(old_keys, q);
                lemma_first_index(old_keys, k@);
                if q != k@ {
                    let fq = first_index(old_keys, q);
                    assert(fq != i);
                }
            }
            assert(self.view() =~= old_view.insert(k@, v));
        } else {
            let key = copy_range(k, 0, k.len());
            assert(key@ =~= k@);
            self.keys.push(key);
            self.values.push(v);
            assert(self.keys() =~= old_keys.push(k@));
            let ghost nv = old_view.insert(k@, v);
            assert forall|q: Seq<char>| #[trigger] self.view().dom().contains(q) == nv.dom().contains(q) by {
                lemma_first_index(old_keys, q);
                lemma_first_index(self.keys(), q);
                if q == k@ {
                    lemma_first_index_is(self.keys(), q, old_keys.len() as int);
                } else if first_index(old_keys, q) < old_keys.len() {
                    lemma_first_index_is(self.keys(), q, first_index(old_keys, q));
                } else {
                    lemma_first_index_is(self.keys(), q, self.keys().len() as int);
                }
            }
            assert forall|q: Seq<char>| self.view().dom().contains(q) implies #[trigger] self.view()[q] == nv[q] by {
                lemma_first_index(old_keys, q);
                lemma_first_index(self.keys(), q);
                if q == k@ {
                    lemma_first_index_is(self.keys(), q, old_keys.len() as int);
                } else {
                    lemma_first_index_is(self.keys(), q, first_index(old_keys, q));
                }
            }
            assert(self.view() =~= old_view.insert(k@, v));
        }
    }
}

} // verus!
