//! An order-preserving string-to-string map with case-insensitive keys.
//!
//! Keys are unique up to ASCII case folding and keep both the casing and the
//! position they were first inserted with; inserting an existing key replaces
//! its value in place. Lookups succeed regardless of the casing of either the
//! stored key or the query.

use vstd::prelude::*;

use crate::strutil::{eq_ignore_case, lower_chars};

verus! {

/// Two keys are the same header when they agree up to ASCII case.
pub open spec fn key_eq(a: Seq<char>, b: Seq<char>) -> bool {
    lower_chars(a) == lower_chars(b)
}

/// First entry of `hs` whose key matches `k`, if any.
pub open spec fn find_key(hs: Seq<(Seq<char>, Seq<char>)>, k: Seq<char>) -> Option<int>
    decreases hs.len(),
{
    if hs.len() == 0 {
        None
    } else if key_eq(hs[0].0, k) {
        Some(0)
    } else {
        match find_key(hs.drop_first(), k) {
            Some(i) => Some(i + 1),
            None => None,
        }
    }
}

pub proof fn lemma_find_key_props(hs: Seq<(Seq<char>, Seq<char>)>, k: Seq<char>)
    ensures
        match find_key(hs, k) {
            Some(i) => 0 <= i < hs.len() && key_eq(hs[i].0, k) && (forall|j: int|
                0 <= j < i ==> !key_eq(hs[j].0, k)),
            None => forall|j: int| 0 <= j < hs.len() ==> !key_eq(hs[j].0, k),
        },
    decreases hs.len(),
{
    if hs.len() > 0 && !key_eq(hs[0].0, k) {
        lemma_find_key_props(hs.drop_first(), k);
        match find_key(hs.drop_first(), k) {
            Some(i) => {
                assert(hs.drop_first()[i] == hs[i + 1]);
                assert forall|j: int| 0 <= j < i + 1 implies !key_eq(hs[j].0, k) by {
                    if j > 0 {
                        assert(hs.drop_first()[j - 1] == hs[j]);
                    }
                }
            },
            None => {
                assert forall|j: int| 0 <= j < hs.len() implies !key_eq(hs[j].0, k) by {
                    if j > 0 {
                        assert(hs.drop_first()[j - 1] == hs[j]);
                    }
                }
            },
        }
    }
}

pub proof fn lemma_find_key_is_first(hs: Seq<(Seq<char>, Seq<char>)>, k: Seq<char>, i: int)
    requires
        0 <= i < hs.len(),
        key_eq(hs[i].0, k),
        forall|j: int| 0 <= j < i ==> !key_eq(hs[j].0, k),
    ensures
        find_key(hs, k) == Some(i),
{
    lemma_find_key_props(hs, k);
    match find_key(hs, k) {
        Some(n) => {
            if n < i {
                assert(!key_eq(hs[n].0, k));
            } else if i < n {
                assert(!key_eq(hs[i].0, k));
            }
        },
        None => {
            assert(!key_eq(hs[i].0, k));
        },
    }
}

/// The value stored under `k`, found case-insensitively.
pub open spec fn spec_get(hs: Seq<(Seq<char>, Seq<char>)>, k: Seq<char>) -> Option<Seq<char>> {
    match find_key(hs, k) {
        Some(i) => Some(hs[i].1),
        None => None,
    }
}

/// Map-style insertion: an existing matching key keeps its casing and its
/// position and has its value replaced; a new key is appended.
pub open spec fn spec_insert(
    hs: Seq<(Seq<char>, Seq<char>)>,
    k: Seq<char>,
    v: Seq<char>,
) -> Seq<(Seq<char>, Seq<char>)> {
    match find_key(hs, k) {
        Some(i) => hs.update(i, (hs[i].0, v)),
        None => hs.push((k, v)),
    }
}

/// Every pair of entries has distinct keys under case folding.
pub open spec fn keys_unique(hs: Seq<(Seq<char>, Seq<char>)>) -> bool {
    forall|i: int, j: int| 0 <= i < j < hs.len() ==> !key_eq(hs[i].0, hs[j].0)
}

/// The header map itself: insertion order preserved, keys unique up to case.
#[derive(Debug)]
pub struct HeaderMap {
    entries: Vec<(String, String)>,
}

impl View for HeaderMap {
    type V = Seq<(Seq<char>, Seq<char>)>;

    closed spec fn view(&self) -> Seq<(Seq<char>, Seq<char>)> {
        Seq::new(
            self.entries@.len(),
            |i: int|
                {
                    let (k, v) = self.entries@[i];
                    (k@, v@)
                },
        )
    }
}

impl HeaderMap {
    /// Well-formed maps never hold the same key twice.
    pub open spec fn wf(&self) -> bool {
        keys_unique(self@)
    }

    pub fn new() -> (r: HeaderMap)
        ensures
            r@ == Seq::<(Seq<char>, Seq<char>)>::empty(),
            r.wf(),
    {
        let r = HeaderMap { entries: Vec::new() };
        proof {
            assert(r@ =~= Seq::<(Seq<char>, Seq<char>)>::empty());
        }
        r
    }

    pub fn len(&self) -> (n: usize)
        ensures
            n == self@.len(),
    {
        self.entries.len()
    }

    /// The stored key at position `i`, in insertion order.
    pub fn key_at(&self, i: usize) -> (r: &String)
        requires
            i < self@.len(),
        ensures
            r@ == self@[i as int].0,
    {
        &self.entries[i].0
    }

    /// The value at position `i`, in insertion order.
    pub fn value_at(&self, i: usize) -> (r: &String)
        requires
            i < self@.len(),
        ensures
            r@ == self@[i as int].1,
    {
        &self.entries[i].1
    }

    /// Position of the entry matching `key` up to case, if any.
    fn index_of(&self, key: &str) -> (r: Option<usize>)
        ensures
            match r {
                Some(i) => find_key(self@, key@) == Some(i as int),
                None => find_key(self@, key@) is None,
            },
    {
        let n = self.entries.len();
        let mut i: usize = 0;
        while i < n
            invariant
                n == self@.len(),
                0 <= i <= n,
                forall|j: int| 0 <= j < i ==> !key_eq(self@[j].0, key@),
            decreases n - i,
        {
            if eq_ignore_case(self.entries[i].0.as_str(), key) {
                proof {
                    lemma_find_key_is_first(self@, key@, i as int);
                }
                return Some(i);
            }
            i += 1;
        }
        proof {
            lemma_find_key_props(self@, key@);
        }
        None
    }

    /// Case-insensitive lookup; the stored value is returned as a copy.
    pub fn get(&self, key: &str) -> (r: Option<String>)
        ensures
            match r {
                Some(v) => spec_get(self@, key@) == Some(v@),
                None => spec_get(self@, key@) is None,
            },
    {
        match self.index_of(key) {
            Some(i) => {
                proof {
                    lemma_find_key_props(self@, key@);
                }
                Some(self.entries[i].1.clone())
            },
            None => None,
        }
    }

    /// Map-style insertion; see [`spec_insert`].
    pub fn insert(&mut self, key: String, value: String)
        ensures
            final (self)@ == spec_insert(old(self)@, key@, value@),
            old(self).wf() ==> final (self).wf(),
    {
        let ghost hs = self@;
        match self.index_of(key.as_str()) {
            Some(i) => {
                proof {
                    lemma_find_key_props(hs, key@);
                }
                let pair = self.entries.remove(i);
                self.entries.insert(i, (pair.0, value));
                proof {
                    assert(self@ =~= hs.update(i as int, (hs[i as int].0, value@)));
                    if keys_unique(hs) {
                        assert forall|a: int, b: int|
                            0 <= a < b < self@.len() implies !key_eq(
                            self@[a].0,
                            self@[b].0,
                        ) by {
                            assert(self@[a].0 == hs[a].0);
                            assert(self@[b].0 == hs[b].0);
                        }
                    }
                }
            },
            None => {
                proof {
                    lemma_find_key_props(hs, key@);
                }
                self.entries.push((key, value));
                proof {
                    assert(self@ =~= hs.push((key@, value@)));
                    if keys_unique(hs) {
                        assert forall|a: int, b: int|
                            0 <= a < b < self@.len() implies !key_eq(
                            self@[a].0,
                            self@[b].0,
                        ) by {
                            if b < hs.len() {
                                assert(self@[a].0 == hs[a].0);
                                assert(self@[b].0 == hs[b].0);
                            } else {
                                assert(self@[a].0 == hs[a].0);
                                assert(self@[b].0 == key@);
                            }
                        }
                    }
                }
            },
        }
    }
}

/// How a lookup reads through an insertion: the inserted key answers with the
/// new value, every other key is untouched.
pub broadcast proof fn lemma_get_insert(
    hs: Seq<(Seq<char>, Seq<char>)>,
    k: Seq<char>,
    v: Seq<char>,
    q: Seq<char>,
)
    ensures
        #[trigger] spec_get(spec_insert(hs, k, v), q) == if key_eq(k, q) {
            Some(v)
        } else {
            spec_get(hs, q)
        },
{
    lemma_find_key_props(hs, k);
    lemma_find_key_props(hs, q);
    match find_key(hs, k) {
        Some(i) => {
            let upd = hs.update(i, (hs[i].0, v));
            assert(upd.len() == hs.len());
            assert(forall|j: int| 0 <= j < upd.len() ==> (#[trigger] upd[j]).0 == hs[j].0);
            if key_eq(k, q) {
                assert(key_eq(upd[i].0, q));
                assert forall|j: int| 0 <= j < i implies !key_eq(upd[j].0, q) by {
                    if key_eq(hs[j].0, q) {
                        assert(key_eq(hs[j].0, k));
                    }
                }
                lemma_find_key_is_first(upd, q, i);
            } else {
                match find_key(hs, q) {
                    Some(m) => {
                        assert(m != i) by {
                            if m == i {
                                assert(key_eq(hs[i].0, k) && key_eq(hs[i].0, q));
                            }
                        }
                        assert(key_eq(upd[m].0, q));
                        assert forall|j: int| 0 <= j < m implies !key_eq(upd[j].0, q) by {}
                        lemma_find_key_is_first(upd, q, m);
                        assert(upd[m].1 == hs[m].1);
                    },
                    None => {
                        lemma_find_key_props(upd, q);
                        match find_key(upd, q) {
                            Some(x) => {
                                assert(key_eq(hs[x].0, q));
                            },
                            None => {},
                        }
                    },
                }
            }
        },
        None => {
            let ext = hs.push((k, v));
            assert(ext.len() == hs.len() + 1);
            assert(forall|j: int| 0 <= j < hs.len() ==> (#[trigger] ext[j]).0 == hs[j].0);
            assert(ext[hs.len() as int] == (k, v));
            if key_eq(k, q) {
                assert(key_eq(ext[hs.len() as int].0, q));
                assert forall|j: int| 0 <= j < hs.len() implies !key_eq(ext[j].0, q) by {
                    if key_eq(hs[j].0, q) {
                        assert(key_eq(hs[j].0, k));
                    }
                }
                lemma_find_key_is_first(ext, q, hs.len() as int);
            } else {
                match find_key(hs, q) {
                    Some(m) => {
                        assert(key_eq(ext[m].0, q));
                        assert forall|j: int| 0 <= j < m implies !key_eq(ext[j].0, q) by {}
                        lemma_find_key_is_first(ext, q, m);
                        assert(ext[m].1 == hs[m].1);
                    },
                    None => {
                        lemma_find_key_props(ext, q);
                        match find_key(ext, q) {
                            Some(x) => {
                                if x < hs.len() {
                                    assert(key_eq(hs[x].0, q));
                                } else {
                                    assert(key_eq(k, q));
                                }
                            },
                            None => {},
                        }
                    },
                }
            }
        },
    }
}

/// Inserts every pair of `ps` in order, front to back.
pub open spec fn spec_insert_all(
    hs: Seq<(Seq<char>, Seq<char>)>,
    ps: Seq<(Seq<char>, Seq<char>)>,
) -> Seq<(Seq<char>, Seq<char>)>
    decreases ps.len(),
{
    if ps.len() == 0 {
        hs
    } else {
        spec_insert_all(spec_insert(hs, ps[0].0, ps[0].1), ps.drop_first())
    }
}

impl PartialEq for HeaderMap {
    /// Two maps are equal when they hold the same headers, compared as a map:
    /// same size, and every entry of one is found in the other, keys up to
    /// case, values exactly. Order and key casing do not take part.
    fn eq(&self, other: &HeaderMap) -> (r: bool) {
        let n = self.entries.len();
        if n != other.entries.len() {
            return false;
        }
        let mut i: usize = 0;
        while i < n
            invariant
                n == self@.len(),
                n == other@.len(),
                n == self.entries@.len(),
                0 <= i <= n,
                forall|j: int|
                    0 <= j < i ==> spec_get(other@, (#[trigger] self@[j]).0) == Some(self@[j].1),
            decreases n - i,
        {
            let ghost j = i as int;
            proof {
                assert(self@[j].0 == self.entries@[j].0@);
                assert(self@[j].1 == self.entries@[j].1@);
            }
            match other.get(self.entries[i].0.as_str()) {
                Some(v) => {
                    if !v.eq(&self.entries[i].1) {
                        proof {
                            assert(spec_get(other@, self@[j].0) != Some(self@[j].1));
                        }
                        return false;
                    }
                },
                None => {
                    proof {
                        assert(spec_get(other@, self@[j].0) != Some(self@[j].1));
                    }
                    return false;
                },
            }
            i += 1;
        }
        true
    }
}

impl vstd::std_specs::cmp::PartialEqSpecImpl for HeaderMap {
    open spec fn obeys_eq_spec() -> bool {
        true
    }

    open spec fn eq_spec(&self, other: &HeaderMap) -> bool {
        self@.len() == other@.len() && forall|j: int|
            0 <= j < self@.len() ==> spec_get(other@, (#[trigger] self@[j]).0) == Some(self@[j].1)
    }
}

} // verus!
