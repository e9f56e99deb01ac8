use vstd::prelude::*;

use vstd::pervasive::VecAdditionalExecFns;

use crate::text::str_eq;

verus! {

/// Whether some entry of `s` carries the key `k`.
pub open spec fn has_key<V>(s: Seq<(Seq<char>, V)>, k: Seq<char>) -> bool {
    exists|i: int| 0 <= i < s.len() && s[i].0 == k
}

/// Index of the first entry of `s` that carries the key `k`.
pub open spec fn key_index<V>(s: Seq<(Seq<char>, V)>, k: Seq<char>) -> int
    decreases s.len(),
{
    if s.len() == 0 {
        0
    } else if s[0].0 == k {
        0
    } else {
        1 + key_index(s.drop_first(), k)
    }
}

/// The value stored under the key `k`.
pub open spec fn value_of<V>(s: Seq<(Seq<char>, V)>, k: Seq<char>) -> V {
    s[key_index(s, k)].1
}

/// What inserting `(k, v)` yields: the first entry under `k` is replaced,
/// or the pair is appended when `k` is absent.
pub open spec fn spec_insert<V>(s: Seq<(Seq<char>, V)>, k: Seq<char>, v: V) -> Seq<
    (Seq<char>, V),
> {
    if has_key(s, k) {
        s.update(key_index(s, k), (k, v))
    } else {
        s.push((k, v))
    }
}

/// No two entries of `s` carry the same key.
pub open spec fn unique_keys<V>(s: Seq<(Seq<char>, V)>) -> bool {
    forall|i: int, j: int| 0 <= i < j < s.len() ==> s[i].0 != s[j].0
}

/// If `k` first occurs at `i`, then `key_index` finds exactly `i`.
pub proof fn lemma_key_index_first<V>(s: Seq<(Seq<char>, V)>, k: Seq<char>, i: int)
    requires
        0 <= i < s.len(),
        s[i].0 == k,
        forall|j: int| 0 <= j < i ==> s[j].0 != k,
    ensures
        has_key(s, k),
        key_index(s, k) == i,
    decreases i,
{
    if i == 0 {
    } else {
        assert(s[0].0 != k);
        lemma_key_index_first(s.drop_first(), k, i - 1);
    }
}

/// No entry before `key_index` carries the key.
pub proof fn lemma_key_index_is_first<V>(s: Seq<(Seq<char>, V)>, k: Seq<char>)
    requires
        has_key(s, k),
    ensures
        forall|j: int| 0 <= j < key_index(s, k) ==> s[j].0 != k,
    decreases s.len(),
{
    if s[0].0 == k {
    } else {
        let i = choose|i: int| 0 <= i < s.len() && s[i].0 == k;
        assert(s.drop_first()[i - 1] == s[i]);
        lemma_key_index_is_first(s.drop_first(), k);
        assert forall|j: int| 0 <= j < key_index(s, k) implies s[j].0 != k by {
            if j > 0 {
                assert(s.drop_first()[j - 1] == s[j]);
            }
        }
    }
}

/// When `k` is present, `key_index` lands on an entry that carries it.
pub proof fn lemma_key_index_props<V>(s: Seq<(Seq<char>, V)>, k: Seq<char>)
    requires
        has_key(s, k),
    ensures
        0 <= key_index(s, k) < s.len(),
        s[key_index(s, k)].0 == k,
    decreases s.len(),
{
    if s[0].0 == k {
    } else {
        let i = choose|i: int| 0 <= i < s.len() && s[i].0 == k;
        assert(s.drop_first()[i - 1] == s[i]);
        lemma_key_index_props(s.drop_first(), k);
    }
}

/// An insertion-ordered map from titles to records: lookup finds the first
/// entry under a key, and insertion keeps keys unique.
pub struct ExtraMap<T> {
    entries: Vec<(String, T)>,
}

impl<T: DeepView> View for ExtraMap<T> {
    type V = Seq<(Seq<char>, T::V)>;

    closed spec fn view(&self) -> Seq<(Seq<char>, T::V)> {
        self.entries.deep_view()
    }
}

impl<T: DeepView> ExtraMap<T> {
    /// Keys never repeat; every map built through `new` and `insert` stays
    /// well formed.
    pub open spec fn wf(&self) -> bool {
        unique_keys(self@)
    }

    pub fn new() -> (m: Self)
        ensures
            m@ == Seq::<(Seq<char>, T::V)>::empty(),
            m.wf(),
    {
        let m = ExtraMap { entries: Vec::new() };
        proof {
            assert(m@ =~= Seq::<(Seq<char>, T::V)>::empty());
        }
        m
    }

    pub fn len(&self) -> (n: usize)
        ensures
            n == self@.len(),
    {
        self.entries.len()
    }

    pub fn key_at(&self, i: usize) -> (k: &String)
        requires
            i < self@.len(),
        ensures
            k@ == self@[i as int].0,
    {
        &self.entries[i].0
    }

    pub fn value_at(&self, i: usize) -> (v: &T)
        requires
            i < self@.len(),
        ensures
            v.deep_view() == self@[i as int].1,
    {
        &self.entries[i].1
    }

    /// Index of the first entry under `key`, if the key is present.
    pub fn index_of(&self, key: &str) -> (r: Option<usize>)
        ensures
            match r {
                Some(i) => has_key(self@, key@) && key_index(self@, key@) == i as int
                    && i < self@.len() && self@[i as int].0 == key@,
                None => !has_key(self@, key@),
            },
    {
        let n = self.entries.len();
        let mut i: usize = 0;
        while i < n
            invariant
                n == self@.len(),
                0 <= i <= n,
                forall|j: int| 0 <= j < i ==> self@[j].0 != key@,
            decreases n - i,
        {
            if str_eq(self.entries[i].0.as_str(), key) {
                proof {
                    lemma_key_index_first(self@, key@, i as int);
                }
                return Some(i);
            }
            i = i + 1;
        }
        None
    }

    pub fn contains_key(&self, key: &str) -> (r: bool)
        ensures
            r == has_key(self@, key@),
    {
        self.index_of(key).is_some()
    }

    /// A borrow of the value under `key`, if the key is present.
    pub fn get(&self, key: &str) -> (r: Option<&T>)
        ensures
            match r {
                Some(v) => has_key(self@, key@) && v.deep_view() == value_of(self@, key@),
                None => !has_key(self@, key@),
            },
    {
        match self.index_of(key) {
            Some(i) => Some(&self.entries[i].1),
            None => None,
        }
    }

    /// Stores `value` under `key`, replacing what the key held before.
    pub fn insert(&mut self, key: String, value: T)
        requires
            old(self).wf(),
        ensures
            final(self)@ == spec_insert(old(self)@, key@, value.deep_view()),
            final(self).wf(),
    {
        let ghost old_view = self@;
        match self.index_of(key.as_str()) {
            Some(i) => {
                self.entries.set(i, (key, value));
                proof {
                    assert(self@ =~= old_view.update(
                        key_index(old_view, key@),
                        (key@, value.deep_view()),
                    ));
                }
            },
            None => {
                self.entries.push((key, value));
                proof {
                    assert(self@ =~= old_view.push((key@, value.deep_view())));
                }
            },
        }
    }
}

/// Whether some entry of `s` carries the numeric key `k`.
pub open spec fn has_id<V>(s: Seq<(u64, V)>, k: u64) -> bool {
    exists|i: int| 0 <= i < s.len() && s[i].0 == k
}

/// Index of the first entry of `s` that carries the numeric key `k`.
pub open spec fn id_index<V>(s: Seq<(u64, V)>, k: u64) -> int
    decreases s.len(),
{
    if s.len() == 0 {
        0
    } else if s[0].0 == k {
        0
    } else {
        1 + id_index(s.drop_first(), k)
    }
}

/// The value stored under the numeric key `k`.
pub open spec fn id_value_of<V>(s: Seq<(u64, V)>, k: u64) -> V {
    s[id_index(s, k)].1
}

/// What inserting `(k, v)` into an id-keyed map yields.
pub open spec fn spec_id_insert<V>(s: Seq<(u64, V)>, k: u64, v: V) -> Seq<(u64, V)> {
    if has_id(s, k) {
        s.update(id_index(s, k), (k, v))
    } else {
        s.push((k, v))
    }
}

/// No two entries of `s` carry the same numeric key.
pub open spec fn unique_ids<V>(s: Seq<(u64, V)>) -> bool {
    forall|i: int, j: int| 0 <= i < j < s.len() ==> s[i].0 != s[j].0
}

/// If `k` first occurs at `i`, then `id_index` finds exactly `i`.
pub proof fn lemma_id_index_first<V>(s: Seq<(u64, V)>, k: u64, i: int)
    requires
        0 <= i < s.len(),
        s[i].0 == k,
        forall|j: int| 0 <= j < i ==> s[j].0 != k,
    ensures
        has_id(s, k),
        id_index(s, k) == i,
    decreases i,
{
    if i == 0 {
    } else {
        assert(s[0].0 != k);
        lemma_id_index_first(s.drop_first(), k, i - 1);
    }
}

/// An insertion-ordered map from numeric record ids to records.
pub struct IdMap<T> {
    entries: Vec<(u64, T)>,
}

impl<T: DeepView> View for IdMap<T> {
    type V = Seq<(u64, T::V)>;

    closed spec fn view(&self) -> Seq<(u64, T::V)> {
        self.entries.deep_view()
    }
}

impl<T: DeepView> IdMap<T> {
    /// Ids never repeat; every map built through `new` and `insert` stays
    /// well formed.
    pub open spec fn wf(&self) -> bool {
        unique_ids(self@)
    }

    pub fn new() -> (m: Self)
        ensures
            m@ == Seq::<(u64, T::V)>::empty(),
            m.wf(),
    {
        let m = IdMap { entries: Vec::new() };
        proof {
            assert(m@ =~= Seq::<(u64, T::V)>::empty());
        }
        m
    }

    pub fn len(&self) -> (n: usize)
        ensures
            n == self@.len(),
    {
        self.entries.len()
    }

    pub fn value_at(&self, i: usize) -> (v: &T)
        requires
            i < self@.len(),
        ensures
            v.deep_view() == self@[i as int].1,
    {
        &self.entries[i].1
    }

    /// Index of the first entry under `key`, if the id is present.
    pub fn index_of(&self, key: u64) -> (r: Option<usize>)
        ensures
            match r {
                Some(i) => has_id(self@, key) && id_index(self@, key) == i as int
                    && i < self@.len() && self@[i as int].0 == key,
                None => !has_id(self@, key),
            },
    {
        let n = self.entries.len();
        let mut i: usize = 0;
        while i < n
            invariant
                n == self@.len(),
                0 <= i <= n,
                forall|j: int| 0 <= j < i ==> self@[j].0 != key,
            decreases n - i,
        {
            if self.entries[i].0 == key {
                proof {
                    lemma_id_index_first(self@, key, i as int);
                }
                return Some(i);
            }
            i = i + 1;
        }
        None
    }

    pub fn contains_key(&self, key: u64) -> (r: bool)
        ensures
            r == has_id(self@, key),
    {
        self.index_of(key).is_some()
    }

    /// A borrow of the value under `key`, if the id is present.
    pub fn get(&self, key: u64) -> (r: Option<&T>)
        ensures
            match r {
                Some(v) => has_id(self@, key) && v.deep_view() == id_value_of(self@, key),
                None => !has_id(self@, key),
            },
    {
        match self.index_of(key) {
            Some(i) => Some(&self.entries[i].1),
            None => None,
        }
    }

    /// Stores `value` under `key`, replacing what the id held before.
    pub fn insert(&mut self, key: u64, value: T)
        requires
            old(self).wf(),
        ensures
            final(self)@ == spec_id_insert(old(self)@, key, value.deep_view()),
            final(self).wf(),
    {
        let ghost old_view = self@;
        match self.index_of(key) {
            Some(i) => {
                self.entries.set(i, (key, value));
                proof {
                    assert(self@ =~= old_view.update(
                        id_index(old_view, key),
                        (key, value.deep_view()),
                    ));
                }
            },
            None => {
                self.entries.push((key, value));
                proof {
                    assert(self@ =~= old_view.push((key, value.deep_view())));
                }
            },
        }
    }
}

} // verus!
