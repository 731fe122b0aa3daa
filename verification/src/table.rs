//! A small string-keyed table with set/get/remove, the store underneath the
//! source registry and the query cache. Keys are unique; `get` is specified
//! by a first-match scan, which under uniqueness is the only match.

use vstd::prelude::*;
use vstd::pervasive::VecAdditionalExecFns;

verus! {

/// First match of `key` in a sequence of pairs, scanning from the front.
pub open spec fn tbl_get<V>(s: Seq<(String, V)>, key: Seq<char>) -> Option<V>
    decreases s.len(),
{
    if s.len() == 0 {
        None
    } else if s[0].0@ == key {
        Some(s[0].1)
    } else {
        tbl_get(s.drop_first(), key)
    }
}

pub struct Table<V> {
    pub pairs: Vec<(String, V)>,
}

impl<V> Table<V> {
    /// The value stored under `key`, if any.
    pub open spec fn get(self, key: Seq<char>) -> Option<V> {
        tbl_get(self.pairs@, key)
    }

    pub open spec fn contains_key(self, key: Seq<char>) -> bool {
        self.get(key) is Some
    }

    /// Keys are pairwise distinct.
    pub open spec fn wf(self) -> bool {
        forall|i: int, j: int|
            0 <= i < j < self.pairs@.len() ==> self.pairs@[i].0@ != self.pairs@[j].0@
    }

    pub fn new() -> (t: Self)
        ensures
            t.wf(),
            forall|k: Seq<char>| t.get(k) is None,
    {
        Table { pairs: Vec::new() }
    }

    /// Index of the first pair whose key is `key`, if any.
    fn find(&self, key: &str) -> (r: Option<usize>)
        ensures
            match r {
                Some(i) => {
                    &&& i < self.pairs@.len()
                    &&& self.pairs@[i as int].0@ == key@
                    &&& forall|j: int| 0 <= j < i ==> self.pairs@[j].0@ != key@
                },
                None => forall|j: int|
                    0 <= j < self.pairs@.len() ==> self.pairs@[j].0@ != key@,
            },
    {
        let owned = key.to_owned();
        let n = self.pairs.len();
        for i in 0..n
            invariant
                n == self.pairs@.len(),
                owned@ == key@,
                forall|j: int| 0 <= j < i ==> self.pairs@[j].0@ != key@,
        {
            if self.pairs[i].0 == owned {
                return Some(i);
            }
        }
        None
    }

    /// A borrow of the value stored under `key`.
    pub fn get_ref(&self, key: &str) -> (r: Option<&V>)
        ensures
            match r {
                Some(v) => self.get(key@) == Some(*v),
                None => self.get(key@) is None,
            },
    {
        match self.find(key) {
            Some(i) => {
                proof {
                    lemma_tbl_get_first_match(self.pairs@, i as int, key@);
                }
                Some(&self.pairs[i].1)
            },
            None => {
                proof {
                    lemma_tbl_get_no_match(self.pairs@, key@);
                }
                None
            },
        }
    }

    /// Upsert: after the call `key` maps to `value` and no other key moved.
    pub fn set(&mut self, key: &str, value: V)
        requires
            old(self).wf(),
        ensures
            final(self).wf(),
            final(self).get(key@) == Some(value),
            forall|k: Seq<char>| k != key@ ==> final(self).get(k) == old(self).get(k),
    {
        let ghost value_g = value;
        match self.find(key) {
            Some(i) => {
                self.pairs.set(i, (key.to_owned(), value));
                proof {
                    let p = self.pairs@[i as int];
                    assert(p.1 == value_g);
                    assert(self.pairs@ =~= old(self).pairs@.update(i as int, p));
                    lemma_tbl_get_update(old(self).pairs@, i as int, p, key@);
                    assert forall|k: Seq<char>| k != key@
                        implies self.get(k) == old(self).get(k) by {
                        lemma_tbl_get_update(old(self).pairs@, i as int, p, k);
                    }
                    assert forall|i2: int, j2: int|
                        0 <= i2 < j2 < self.pairs@.len()
                        implies self.pairs@[i2].0@ != self.pairs@[j2].0@ by {
                        assert(self.pairs@[i2].0@ == old(self).pairs@[i2].0@);
                        assert(self.pairs@[j2].0@ == old(self).pairs@[j2].0@);
                    }
                }
            },
            None => {
                self.pairs.push((key.to_owned(), value));
                proof {
                    let p = self.pairs@.last();
                    assert(p.1 == value_g);
                    assert(self.pairs@ =~= old(self).pairs@.push(p));
                    lemma_tbl_get_no_match(old(self).pairs@, key@);
                    lemma_tbl_get_push(old(self).pairs@, p, key@);
                    assert forall|k: Seq<char>| k != key@
                        implies self.get(k) == old(self).get(k) by {
                        lemma_tbl_get_push(old(self).pairs@, p, k);
                    }
                }
            },
        }
    }

    /// Removes `key` if present; every other key keeps its value.
    pub fn remove(&mut self, key: &str)
        requires
            old(self).wf(),
        ensures
            final(self).wf(),
            final(self).get(key@) is None,
            forall|k: Seq<char>| k != key@ ==> final(self).get(k) == old(self).get(k),
    {
        match self.find(key) {
            Some(i) => {
                let ghost s0 = self.pairs@;
                self.pairs.remove(i);
                proof {
                    assert(self.pairs@ =~= s0.remove(i as int));
                    lemma_tbl_get_remove(s0, i as int, key@);
                    assert forall|k: Seq<char>| k != key@
                        implies self.get(k) == old(self).get(k) by {
                        lemma_tbl_get_remove(s0, i as int, k);
                    }
                    assert forall|i2: int, j2: int|
                        0 <= i2 < j2 < self.pairs@.len()
                        implies self.pairs@[i2].0@ != self.pairs@[j2].0@ by {
                        let oi = if i2 < i as int { i2 } else { i2 + 1 };
                        let oj = if j2 < i as int { j2 } else { j2 + 1 };
                        assert(self.pairs@[i2] == s0[oi]);
                        assert(self.pairs@[j2] == s0[oj]);
                    }
                }
            },
            None => {
                proof {
                    lemma_tbl_get_no_match(self.pairs@, key@);
                }
            },
        }
    }
}

/// A borrow of the first value paired with `key` in a raw pair list, which
/// unlike a `Table` may hold duplicate keys.
pub fn tbl_member<'a, V>(pairs: &'a Vec<(String, V)>, key: &str) -> (r: Option<&'a V>)
    ensures
        match r {
            Some(v) => tbl_get(pairs@, key@) == Some(*v),
            None => tbl_get(pairs@, key@) is None,
        },
{
    let owned = key.to_owned();
    let n = pairs.len();
    for i in 0..n
        invariant
            n == pairs@.len(),
            owned@ == key@,
            forall|j: int| 0 <= j < i ==> pairs@[j].0@ != key@,
    {
        if pairs[i].0 == owned {
            proof {
                lemma_tbl_get_first_match(pairs@, i as int, key@);
            }
            return Some(&pairs[i].1);
        }
    }
    proof {
        lemma_tbl_get_no_match(pairs@, key@);
    }
    None
}

/// Moves the first value paired with `key` out of a raw pair list.
pub fn tbl_take<V>(pairs: &mut Vec<(String, V)>, key: &str) -> (r: Option<V>)
    ensures
        match r {
            Some(v) => tbl_get(old(pairs)@, key@) == Some(v),
            None => tbl_get(old(pairs)@, key@) is None,
        },
{
    let owned = key.to_owned();
    let n = pairs.len();
    let mut i: usize = 0;
    while i < n
        invariant
            n == pairs@.len(),
            pairs@ == old(pairs)@,
            owned@ == key@,
            i <= n,
            forall|j: int| 0 <= j < i ==> pairs@[j].0@ != key@,
        decreases n - i,
    {
        if pairs[i].0 == owned {
            proof {
                lemma_tbl_get_first_match(pairs@, i as int, key@);
            }
            let pair = pairs.remove(i);
            return Some(pair.1);
        }
        i = i + 1;
    }
    proof {
        lemma_tbl_get_no_match(pairs@, key@);
    }
    None
}

/// If the first `i` keys miss and pair `i` hits, the scan returns pair `i`.
proof fn lemma_tbl_get_first_match<V>(s: Seq<(String, V)>, i: int, key: Seq<char>)
    requires
        0 <= i < s.len(),
        s[i].0@ == key,
        forall|j: int| 0 <= j < i ==> s[j].0@ != key,
    ensures
        tbl_get(s, key) == Some(s[i].1),
    decreases i,
{
    if i > 0 {
        lemma_tbl_get_first_match(s.drop_first(), i - 1, key);
    }
}

/// If no key matches, the scan misses.
proof fn lemma_tbl_get_no_match<V>(s: Seq<(String, V)>, key: Seq<char>)
    requires
        forall|j: int| 0 <= j < s.len() ==> s[j].0@ != key,
    ensures
        tbl_get(s, key) is None,
    decreases s.len(),
{
    if s.len() > 0 {
        lemma_tbl_get_no_match(s.drop_first(), key);
    }
}

/// Appending a pair only changes the scan where it used to miss.
proof fn lemma_tbl_get_push<V>(s: Seq<(String, V)>, p: (String, V), k: Seq<char>)
    ensures
        tbl_get(s.push(p), k) == if tbl_get(s, k) is Some {
            tbl_get(s, k)
        } else if p.0@ == k {
            Some(p.1)
        } else {
            None::<V>
        },
    decreases s.len(),
{
    if s.len() == 0 {
        assert(s.push(p)[0] == p);
        assert(s.push(p).len() == 1);
        let e = Seq::<(String, V)>::empty();
        assert(s.push(p).drop_first() =~= e);
        assert(tbl_get(e, k) is None);
        assert(tbl_get(s.push(p), k) == if p.0@ == k {
            Some(p.1)
        } else {
            tbl_get(s.push(p).drop_first(), k)
        });
        assert(tbl_get(s, k) is None);
    } else {
        assert(s.push(p)[0] == s[0]);
        assert(s.push(p).drop_first() =~= s.drop_first().push(p));
        lemma_tbl_get_push(s.drop_first(), p, k);
    }
}

/// Overwriting the first match in place rebinds that key and nothing else.
proof fn lemma_tbl_get_update<V>(s: Seq<(String, V)>, i: int, p: (String, V), k: Seq<char>)
    requires
        0 <= i < s.len(),
        s[i].0@ == p.0@,
        forall|j: int| 0 <= j < i ==> s[j].0@ != p.0@,
    ensures
        tbl_get(s.update(i, p), k) == if k == p.0@ {
            Some(p.1)
        } else {
            tbl_get(s, k)
        },
    decreases i,
{
    let t = s.update(i, p);
    if i == 0 {
        assert(t[0] == p);
        assert(t.drop_first() =~= s.drop_first());
    } else {
        assert(t[0] == s[0]);
        assert(t.drop_first() =~= s.drop_first().update(i - 1, p));
        lemma_tbl_get_update(s.drop_first(), i - 1, p, k);
    }
}

/// Removing the first match unbinds that key and nothing else.
proof fn lemma_tbl_get_remove<V>(s: Seq<(String, V)>, i: int, k: Seq<char>)
    requires
        0 <= i < s.len(),
        forall|j: int| 0 <= j < i ==> s[j].0@ != s[i].0@,
        forall|i2: int, j2: int| 0 <= i2 < j2 < s.len() ==> s[i2].0@ != s[j2].0@,
    ensures
        tbl_get(s.remove(i), k) == if k == s[i].0@ {
            None::<V>
        } else {
            tbl_get(s, k)
        },
    decreases i,
{
    let t = s.remove(i);
    if i == 0 {
        assert(t =~= s.drop_first());
        if k == s[0].0@ {
            assert(forall|j: int| 0 <= j < t.len() ==> t[j].0@ != k);
            lemma_tbl_get_no_match(t, k);
        }
    } else {
        assert(t[0] == s[0]);
        assert(t.drop_first() =~= s.drop_first().remove(i - 1));
        lemma_tbl_get_remove(s.drop_first(), i - 1, k);
    }
}

} // verus!
