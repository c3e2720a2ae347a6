//! An ordered table keyed by strings: the model of one durable namespace.
//!
//! Entries are kept sorted by the lexicographic key order, so keys are
//! unique and range scans come out in ascending key order, as they do from
//! the durable store.  The spec-level functions `find_val`, `insert_val`,
//! `update_val` and `remove_val` describe every operation on the table's
//! view; the executable methods are proved to match them.

use vstd::prelude::*;
use crate::lex::{lex_lt, lemma_lex_lt_irreflexive, lemma_lex_lt_asymmetric, lemma_lex_lt_trichotomy,
    lemma_lex_lt_transitive, str_cmp, KeyOrd};

verus! {

/// True when the keys are strictly ascending (hence unique).
pub open spec fn sorted_keys<X>(s: Seq<(Seq<char>, X)>) -> bool {
    forall|i: int, j: int| 0 <= i < j < s.len() ==> lex_lt(s[i].0, s[j].0)
}

/// The value stored under `k`: the first entry whose key is `k`.
pub open spec fn find_val<X>(s: Seq<(Seq<char>, X)>, k: Seq<char>) -> Option<X>
    decreases s.len(),
{
    if s.len() == 0 {
        None
    } else if s[0].0 == k {
        Some(s[0].1)
    } else {
        find_val(s.drop_first(), k)
    }
}

/// Whether some entry has key `k`.
pub open spec fn has_key<X>(s: Seq<(Seq<char>, X)>, k: Seq<char>) -> bool {
    find_val(s, k) is Some
}

/// The table after inserting a fresh key `k` at its ordered position.
pub open spec fn insert_val<X>(s: Seq<(Seq<char>, X)>, k: Seq<char>, v: X) -> Seq<(Seq<char>, X)>
    decreases s.len(),
{
    if s.len() == 0 {
        seq![(k, v)]
    } else if lex_lt(k, s[0].0) {
        seq![(k, v)] + s
    } else {
        seq![s[0]] + insert_val(s.drop_first(), k, v)
    }
}

/// The table after replacing the value under an existing key `k`.
pub open spec fn update_val<X>(s: Seq<(Seq<char>, X)>, k: Seq<char>, v: X) -> Seq<(Seq<char>, X)>
    decreases s.len(),
{
    if s.len() == 0 {
        s
    } else if s[0].0 == k {
        seq![(k, v)] + s.drop_first()
    } else {
        seq![s[0]] + update_val(s.drop_first(), k, v)
    }
}

/// The table after deleting the entry under `k`.
pub open spec fn remove_val<X>(s: Seq<(Seq<char>, X)>, k: Seq<char>) -> Seq<(Seq<char>, X)>
    decreases s.len(),
{
    if s.len() == 0 {
        s
    } else if s[0].0 == k {
        s.drop_first()
    } else {
        seq![s[0]] + remove_val(s.drop_first(), k)
    }
}

pub proof fn lemma_find_absent<X>(s: Seq<(Seq<char>, X)>, k: Seq<char>)
    requires
        forall|i: int| 0 <= i < s.len() ==> s[i].0 != k,
    ensures
        find_val(s, k) is None,
    decreases s.len(),
{
    if s.len() > 0 {
        assert(forall|i: int| 0 <= i < s.drop_first().len() ==> s.drop_first()[i].0 != k);
        lemma_find_absent(s.drop_first(), k);
    }
}

pub proof fn lemma_find_at<X>(s: Seq<(Seq<char>, X)>, k: Seq<char>, i: int)
    requires
        0 <= i < s.len(),
        s[i].0 == k,
        forall|j: int| 0 <= j < i ==> s[j].0 != k,
    ensures
        find_val(s, k) == Some(s[i].1),
    decreases s.len(),
{
    if i > 0 {
        assert(s.drop_first()[i - 1] == s[i]);
        assert(forall|j: int| 0 <= j < i - 1 ==> s.drop_first()[j].0 != k);
        lemma_find_at(s.drop_first(), k, i - 1);
    }
}

/// `find_val` returns `Some` exactly when some entry has the key.
pub proof fn lemma_find_exists<X>(s: Seq<(Seq<char>, X)>, k: Seq<char>)
    ensures
        (find_val(s, k) is Some) <==> (exists|i: int| 0 <= i < s.len() && s[i].0 == k),
    decreases s.len(),
{
    if s.len() > 0 && s[0].0 != k {
        lemma_find_exists(s.drop_first(), k);
        if find_val(s, k) is Some {
            let i = choose|i: int| 0 <= i < s.drop_first().len() && s.drop_first()[i].0 == k;
            assert(s[i + 1].0 == k);
        }
        if exists|i: int| 0 <= i < s.len() && s[i].0 == k {
            let i = choose|i: int| 0 <= i < s.len() && s[i].0 == k;
            assert(s.drop_first()[i - 1].0 == k);
        }
    }
}

/// Inserting a fresh key at position `p` realises `insert_val`.
pub proof fn lemma_insert_val_at<X>(s: Seq<(Seq<char>, X)>, k: Seq<char>, v: X, p: int)
    requires
        0 <= p <= s.len(),
        forall|j: int| 0 <= j < p ==> lex_lt(s[j].0, k),
        p < s.len() ==> lex_lt(k, s[p].0),
    ensures
        insert_val(s, k, v) =~= s.insert(p, (k, v)),
    decreases s.len(),
{
    if s.len() == 0 {
        assert(insert_val(s, k, v) =~= s.insert(0, (k, v)));
    } else if p == 0 {
        assert(insert_val(s, k, v) =~= s.insert(0, (k, v)));
    } else {
        lemma_lex_lt_asymmetric(s[0].0, k);
        assert(!lex_lt(k, s[0].0));
        assert(forall|j: int| 0 <= j < p - 1 ==> s.drop_first()[j].0 == s[j + 1].0);
        lemma_insert_val_at(s.drop_first(), k, v, p - 1);
        assert(seq![s[0]] + s.drop_first().insert(p - 1, (k, v)) =~= s.insert(p, (k, v)));
    }
}

/// Inserting with the bounds of `lemma_insert_val_at` keeps the keys sorted.
pub proof fn lemma_sorted_insert<X>(s: Seq<(Seq<char>, X)>, k: Seq<char>, v: X, p: int)
    requires
        sorted_keys(s),
        0 <= p <= s.len(),
        forall|j: int| 0 <= j < p ==> lex_lt(s[j].0, k),
        p < s.len() ==> lex_lt(k, s[p].0),
    ensures
        sorted_keys(s.insert(p, (k, v))),
{
    let t = s.insert(p, (k, v));
    assert forall|i: int, j: int| 0 <= i < j < t.len() implies lex_lt(t[i].0, t[j].0) by {
        if i < p && j == p {
            assert(t[i] == s[i]);
        } else if i < p && j > p {
            assert(t[i] == s[i] && t[j] == s[j - 1]);
        } else if i == p && j > p {
            assert(t[j] == s[j - 1]);
            if j - 1 > p {
                lemma_lex_lt_transitive(k, s[p].0, s[j - 1].0);
            }
        }
    }
}

/// Removing the entry at `i` (the first with key `k`) realises `remove_val`.
pub proof fn lemma_remove_val_at<X>(s: Seq<(Seq<char>, X)>, k: Seq<char>, i: int)
    requires
        0 <= i < s.len(),
        s[i].0 == k,
        forall|j: int| 0 <= j < i ==> s[j].0 != k,
    ensures
        remove_val(s, k) =~= s.remove(i),
    decreases s.len(),
{
    if i == 0 {
        assert(remove_val(s, k) =~= s.remove(0));
    } else {
        assert(s.drop_first()[i - 1] == s[i]);
        assert(forall|j: int| 0 <= j < i - 1 ==> s.drop_first()[j].0 != k);
        lemma_remove_val_at(s.drop_first(), k, i - 1);
        assert(seq![s[0]] + s.drop_first().remove(i - 1) =~= s.remove(i));
    }
}

pub proof fn lemma_sorted_remove<X>(s: Seq<(Seq<char>, X)>, i: int)
    requires
        sorted_keys(s),
        0 <= i < s.len(),
    ensures
        sorted_keys(s.remove(i)),
{
    let t = s.remove(i);
    assert forall|x: int, y: int| 0 <= x < y < t.len() implies lex_lt(t[x].0, t[y].0) by {
        let sx: int = if x < i { x } else { x + 1 };
        let sy: int = if y < i { y } else { y + 1 };
        assert(t[x] == s[sx] && t[y] == s[sy]);
    }
}

/// Replacing the value at `i` (the first with key `k`) realises `update_val`.
pub proof fn lemma_update_val_at<X>(s: Seq<(Seq<char>, X)>, k: Seq<char>, v: X, i: int)
    requires
        0 <= i < s.len(),
        s[i].0 == k,
        forall|j: int| 0 <= j < i ==> s[j].0 != k,
    ensures
        update_val(s, k, v) =~= s.update(i, (k, v)),
    decreases s.len(),
{
    if i == 0 {
        assert(update_val(s, k, v) =~= s.update(0, (k, v)));
    } else {
        assert(s.drop_first()[i - 1] == s[i]);
        assert(forall|j: int| 0 <= j < i - 1 ==> s.drop_first()[j].0 != k);
        lemma_update_val_at(s.drop_first(), k, v, i - 1);
        assert(seq![s[0]] + s.drop_first().update(i - 1, (k, v)) =~= s.update(i, (k, v)));
    }
}

pub proof fn lemma_sorted_update<X>(s: Seq<(Seq<char>, X)>, k: Seq<char>, v: X, i: int)
    requires
        sorted_keys(s),
        0 <= i < s.len(),
        s[i].0 == k,
    ensures
        sorted_keys(s.update(i, (k, v))),
{
    let t = s.update(i, (k, v));
    assert forall|x: int, y: int| 0 <= x < y < t.len() implies lex_lt(t[x].0, t[y].0) by {
        assert(lex_lt(s[x].0, s[y].0));
    }
}

/// After inserting a fresh key it is found with the new value.
pub proof fn lemma_find_insert_same<X>(s: Seq<(Seq<char>, X)>, k: Seq<char>, v: X)
    requires
        !has_key(s, k),
    ensures
        find_val(insert_val(s, k, v), k) == Some(v),
    decreases s.len(),
{
    if s.len() > 0 && !lex_lt(k, s[0].0) {
        assert(s[0].0 != k);
        lemma_find_insert_same(s.drop_first(), k, v);
        assert((seq![s[0]] + insert_val(s.drop_first(), k, v)).drop_first()
            =~= insert_val(s.drop_first(), k, v));
    }
}

/// An insert of one key does not change the lookup of another.
pub proof fn lemma_find_insert_other<X>(s: Seq<(Seq<char>, X)>, k: Seq<char>, v: X, k2: Seq<char>)
    requires
        k2 != k,
    ensures
        find_val(insert_val(s, k, v), k2) == find_val(s, k2),
    decreases s.len(),
{
    if s.len() == 0 {
        assert(seq![(k, v)].drop_first() =~= s);
    } else if lex_lt(k, s[0].0) {
        assert((seq![(k, v)] + s).drop_first() =~= s);
    } else {
        lemma_find_insert_other(s.drop_first(), k, v, k2);
        assert((seq![s[0]] + insert_val(s.drop_first(), k, v)).drop_first()
            =~= insert_val(s.drop_first(), k, v));
    }
}

/// After an update the key is found with the new value.
pub proof fn lemma_find_update_same<X>(s: Seq<(Seq<char>, X)>, k: Seq<char>, v: X)
    requires
        has_key(s, k),
    ensures
        find_val(update_val(s, k, v), k) == Some(v),
    decreases s.len(),
{
    if s.len() > 0 && s[0].0 != k {
        lemma_find_update_same(s.drop_first(), k, v);
        assert((seq![s[0]] + update_val(s.drop_first(), k, v)).drop_first()
            =~= update_val(s.drop_first(), k, v));
    }
}

/// An update of one key does not change the lookup of another.
pub proof fn lemma_find_update_other<X>(s: Seq<(Seq<char>, X)>, k: Seq<char>, v: X, k2: Seq<char>)
    requires
        k2 != k,
    ensures
        find_val(update_val(s, k, v), k2) == find_val(s, k2),
    decreases s.len(),
{
    if s.len() > 0 {
        if s[0].0 == k {
            assert((seq![(k, v)] + s.drop_first()).drop_first() =~= s.drop_first());
        } else {
            lemma_find_update_other(s.drop_first(), k, v, k2);
            assert((seq![s[0]] + update_val(s.drop_first(), k, v)).drop_first()
                =~= update_val(s.drop_first(), k, v));
        }
    }
}

/// After a removal the key is gone (keys are unique in a sorted table).
pub proof fn lemma_find_remove_same<X>(s: Seq<(Seq<char>, X)>, k: Seq<char>)
    requires
        sorted_keys(s),
    ensures
        find_val(remove_val(s, k), k) is None,
    decreases s.len(),
{
    if s.len() > 0 {
        assert(forall|i: int, j: int| 0 <= i < j < s.drop_first().len()
            ==> lex_lt(s.drop_first()[i].0, s.drop_first()[j].0));
        if s[0].0 == k {
            assert forall|i: int| 0 <= i < s.drop_first().len() implies s.drop_first()[i].0 != k by {
                assert(lex_lt(s[0].0, s[i + 1].0));
                lemma_lex_lt_irreflexive(k);
            }
            lemma_find_absent(s.drop_first(), k);
        } else {
            lemma_find_remove_same(s.drop_first(), k);
            assert((seq![s[0]] + remove_val(s.drop_first(), k)).drop_first()
                =~= remove_val(s.drop_first(), k));
        }
    }
}

/// A removal of one key does not change the lookup of another.
pub proof fn lemma_find_remove_other<X>(s: Seq<(Seq<char>, X)>, k: Seq<char>, k2: Seq<char>)
    requires
        k2 != k,
    ensures
        find_val(remove_val(s, k), k2) == find_val(s, k2),
    decreases s.len(),
{
    if s.len() > 0 && s[0].0 != k {
        lemma_find_remove_other(s.drop_first(), k, k2);
        assert((seq![s[0]] + remove_val(s.drop_first(), k)).drop_first()
            =~= remove_val(s.drop_first(), k));
    }
}

/// An ordered table: the model of one durable namespace.
pub struct Table<V> {
    entries: Vec<(String, V)>,
}

impl<V: View> View for Table<V> {
    type V = Seq<(Seq<char>, V::V)>;

    closed spec fn view(&self) -> Seq<(Seq<char>, V::V)> {
        self.entries@.map_values(|p: (String, V)| (p.0@, p.1@))
    }
}

impl<V: View> Table<V> {
    /// Keys strictly ascending: every key names at most one entry.
    pub open spec fn wf(&self) -> bool {
        sorted_keys(self@)
    }

    pub fn new() -> (t: Table<V>)
        ensures
            t@ =~= Seq::<(Seq<char>, V::V)>::empty(),
            t.wf(),
    {
        Table { entries: Vec::new() }
    }

    pub fn len(&self) -> (n: usize)
        ensures
            n == self@.len(),
    {
        self.entries.len()
    }

    pub fn key_at(&self, i: usize) -> (k: &String)
        requires
            i < self@.len(),
        ensures
            k@ == self@[i as int].0,
    {
        &self.entries[i].0
    }

    pub fn val_at(&self, i: usize) -> (v: &V)
        requires
            i < self@.len(),
        ensures
            v@ == self@[i as int].1,
    {
        &self.entries[i].1
    }

    /// Index of the first entry whose key is not below `key`.
    fn lower_bound(&self, key: &str) -> (p: usize)
        ensures
            0 <= p <= self@.len(),
            forall|j: int| 0 <= j < p ==> lex_lt(self@[j].0, key@),
            p < self@.len() ==> !lex_lt(self@[p as int].0, key@),
    {
        let n = self.entries.len();
        let mut p: usize = 0;
        while p < n && matches!(str_cmp(self.entries[p].0.as_str(), key), KeyOrd::Less)
            invariant
                0 <= p <= n,
                n == self@.len(),
                forall|j: int| 0 <= j < p ==> lex_lt(self@[j].0, key@),
            decreases n - p,
        {
            p = p + 1;
        }
        p
    }

    /// The value stored under `key`, if any.
    pub fn load(&self, key: &str) -> (r: Option<&V>)
        requires
            self.wf(),
        ensures
            match r {
                Some(v) => find_val(self@, key@) == Some(v@),
                None => find_val(self@, key@) is None,
            },
    {
        let p = self.lower_bound(key);
        if p < self.entries.len() && matches!(str_cmp(self.entries[p].0.as_str(), key), KeyOrd::Equal) {
            proof {
                assert forall|j: int| 0 <= j < p implies self@[j].0 != key@ by {
                    lemma_lex_lt_irreflexive(key@);
                }
                lemma_find_at(self@, key@, p as int);
            }
            Some(&self.entries[p].1)
        } else {
            proof {
                assert forall|j: int| 0 <= j < self@.len() implies self@[j].0 != key@ by {
                    if j < p {
                        lemma_lex_lt_irreflexive(key@);
                    } else {
                        lemma_lex_lt_trichotomy(self@[p as int].0, key@);
                        if j > p {
                            lemma_lex_lt_transitive(key@, self@[p as int].0, self@[j].0);
                        }
                        lemma_lex_lt_irreflexive(key@);
                    }
                }
                lemma_find_absent(self@, key@);
            }
            None
        }
    }

    /// Atomic insert-if-absent.  Returns `false`, changing nothing, when the
    /// key is already present.
    pub fn try_insert(&mut self, key: &str, v: V) -> (ok: bool)
        requires
            old(self).wf(),
        ensures
            final(self).wf(),
            ok <==> !has_key(old(self)@, key@),
            ok ==> final(self)@ == insert_val(old(self)@, key@, v@),
            !ok ==> final(self)@ == old(self)@,
    {
        let p = self.lower_bound(key);
        if p < self.entries.len() && matches!(str_cmp(self.entries[p].0.as_str(), key), KeyOrd::Equal) {
            proof {
                lemma_find_exists(self@, key@);
            }
            false
        } else {
            proof {
                assert forall|j: int| 0 <= j < self@.len() implies self@[j].0 != key@ by {
                    if j < p {
                        lemma_lex_lt_irreflexive(key@);
                    } else {
                        lemma_lex_lt_trichotomy(self@[p as int].0, key@);
                        if j > p {
                            lemma_lex_lt_transitive(key@, self@[p as int].0, self@[j].0);
                        }
                        lemma_lex_lt_irreflexive(key@);
                    }
                }
                lemma_find_absent(self@, key@);
                if p < self@.len() {
                    lemma_lex_lt_trichotomy(self@[p as int].0, key@);
                }
                lemma_insert_val_at(old(self)@, key@, v@, p as int);
                lemma_sorted_insert(old(self)@, key@, v@, p as int);
            }
            let ghost pre = self@;
            self.entries.insert(p, (key.to_owned(), v));
            proof {
                assert(self@ =~= pre.insert(p as int, (key@, v@)));
            }
            true
        }
    }

    /// Replaces the value under an existing key.
    pub fn save(&mut self, key: &str, v: V)
        requires
            old(self).wf(),
            has_key(old(self)@, key@),
        ensures
            final(self).wf(),
            final(self)@ == update_val(old(self)@, key@, v@),
    {
        let p = self.lower_bound(key);
        proof {
            self.lemma_key_is_at(key@, p as int);
        }
        let _ = self.entries.remove(p);
        let ghost mid = self@;
        self.entries.insert(p, (key.to_owned(), v));
        proof {
            assert(self@ =~= old(self)@.update(p as int, (key@, v@)));
            assert forall|j: int| 0 <= j < p implies old(self)@[j].0 != key@ by {
                lemma_lex_lt_irreflexive(key@);
            }
            lemma_update_val_at(old(self)@, key@, v@, p as int);
            lemma_sorted_update(old(self)@, key@, v@, p as int);
        }
    }

    /// Deletes the entry under an existing key.
    pub fn delete(&mut self, key: &str)
        requires
            old(self).wf(),
            has_key(old(self)@, key@),
        ensures
            final(self).wf(),
            final(self)@ == remove_val(old(self)@, key@),
    {
        let p = self.lower_bound(key);
        proof {
            self.lemma_key_is_at(key@, p as int);
        }
        let _ = self.entries.remove(p);
        proof {
            assert(self@ =~= old(self)@.remove(p as int));
            assert forall|j: int| 0 <= j < p implies old(self)@[j].0 != key@ by {
                lemma_lex_lt_irreflexive(key@);
            }
            lemma_remove_val_at(old(self)@, key@, p as int);
            lemma_sorted_remove(old(self)@, p as int);
        }
    }

    /// In a sorted table holding `k`, the lower bound lands exactly on `k`.
    proof fn lemma_key_is_at(&self, k: Seq<char>, p: int)
        requires
            self.wf(),
            has_key(self@, k),
            0 <= p <= self@.len(),
            forall|j: int| 0 <= j < p ==> lex_lt(self@[j].0, k),
            p < self@.len() ==> !lex_lt(self@[p as int].0, k),
        ensures
            p < self@.len(),
            self@[p].0 == k,
    {
        lemma_find_exists(self@, k);
        let i = choose|i: int| 0 <= i < self@.len() && self@[i].0 == k;
        lemma_lex_lt_irreflexive(k);
        if i < p {
            assert(lex_lt(self@[i].0, k));
            assert(false);
        }
        if i > p {
            assert(lex_lt(self@[p].0, self@[i].0));
            lemma_lex_lt_trichotomy(self@[p].0, k);
            assert(false);
        }
    }
}

/// Locates the position where `insert_val` places a fresh key.
pub proof fn lemma_insert_val_props<X>(s: Seq<(Seq<char>, X)>, k: Seq<char>, v: X) -> (p: int)
    requires
        sorted_keys(s),
        !has_key(s, k),
    ensures
        0 <= p <= s.len(),
        insert_val(s, k, v) =~= s.insert(p, (k, v)),
        forall|j: int| 0 <= j < p ==> lex_lt(s[j].0, k),
        p < s.len() ==> lex_lt(k, s[p].0),
        sorted_keys(insert_val(s, k, v)),
    decreases s.len(),
{
    if s.len() == 0 {
        assert(insert_val(s, k, v) =~= s.insert(0, (k, v)));
        lemma_sorted_insert(s, k, v, 0);
        0
    } else if lex_lt(k, s[0].0) {
        assert(insert_val(s, k, v) =~= s.insert(0, (k, v)));
        lemma_sorted_insert(s, k, v, 0);
        0
    } else {
        lemma_lex_lt_trichotomy(k, s[0].0);
        assert(s[0].0 != k);
        assert(lex_lt(s[0].0, k));
        assert(forall|i: int, j: int| 0 <= i < j < s.drop_first().len()
            ==> lex_lt(s.drop_first()[i].0, s.drop_first()[j].0));
        let p1 = lemma_insert_val_props(s.drop_first(), k, v);
        assert(seq![s[0]] + s.drop_first().insert(p1, (k, v)) =~= s.insert(p1 + 1, (k, v)));
        assert forall|j: int| 0 <= j < p1 + 1 implies lex_lt(s[j].0, k) by {
            if j > 0 {
                assert(s.drop_first()[j - 1] == s[j]);
            }
        }
        lemma_sorted_insert(s, k, v, p1 + 1);
        assert(insert_val(s, k, v) =~= s.insert(p1 + 1, (k, v)));
        p1 + 1
    }
}

/// Locates the entry that `remove_val` deletes.
pub proof fn lemma_remove_val_props<X>(s: Seq<(Seq<char>, X)>, k: Seq<char>) -> (i: int)
    requires
        sorted_keys(s),
        has_key(s, k),
    ensures
        0 <= i < s.len(),
        s[i].0 == k,
        find_val(s, k) == Some(s[i].1),
        remove_val(s, k) =~= s.remove(i),
        sorted_keys(remove_val(s, k)),
{
    lemma_find_exists(s, k);
    let i = choose|i: int| 0 <= i < s.len() && s[i].0 == k;
    assert forall|j: int| 0 <= j < i implies s[j].0 != k by {
        lemma_lex_lt_irreflexive(k);
    }
    lemma_find_at(s, k, i);
    lemma_remove_val_at(s, k, i);
    lemma_sorted_remove(s, i);
    i
}

/// Locates the entry that `update_val` replaces.
pub proof fn lemma_update_val_props<X>(s: Seq<(Seq<char>, X)>, k: Seq<char>, v: X) -> (i: int)
    requires
        sorted_keys(s),
        has_key(s, k),
    ensures
        0 <= i < s.len(),
        s[i].0 == k,
        find_val(s, k) == Some(s[i].1),
        update_val(s, k, v) =~= s.update(i, (k, v)),
        sorted_keys(update_val(s, k, v)),
{
    lemma_find_exists(s, k);
    let i = choose|i: int| 0 <= i < s.len() && s[i].0 == k;
    assert forall|j: int| 0 <= j < i implies s[j].0 != k by {
        lemma_lex_lt_irreflexive(k);
    }
    lemma_find_at(s, k, i);
    lemma_update_val_at(s, k, v, i);
    lemma_sorted_update(s, k, v, i);
    i
}

/// A pair of key strings in an owner index: (owner, primary key).
pub type IdxPair = (Seq<char>, Seq<char>);

/// The list after deleting the first occurrence of `p`.
pub open spec fn remove_pair(s: Seq<IdxPair>, p: IdxPair) -> Seq<IdxPair>
    decreases s.len(),
{
    if s.len() == 0 {
        s
    } else if s[0] == p {
        s.drop_first()
    } else {
        seq![s[0]] + remove_pair(s.drop_first(), p)
    }
}

/// Membership is unchanged by pushing another element, except for that element.
pub proof fn lemma_push_contains<X>(s: Seq<X>, x: X, q: X)
    ensures
        s.push(x).contains(q) <==> (s.contains(q) || q == x),
{
    if s.contains(q) {
        let i = choose|i: int| 0 <= i < s.len() && s[i] == q;
        assert(s.push(x)[i] == q);
    }
    assert(s.push(x)[s.len() as int] == x);
    if s.push(x).contains(q) {
        let i = choose|i: int| 0 <= i < s.push(x).len() && s.push(x)[i] == q;
        if i < s.len() {
            assert(s[i] == q);
        }
    }
}

/// Pushing a fresh element keeps a list duplicate-free.
pub proof fn lemma_push_no_dup<X>(s: Seq<X>, x: X)
    requires
        s.no_duplicates(),
        !s.contains(x),
    ensures
        s.push(x).no_duplicates(),
{
    assert forall|i: int, j: int|
        0 <= i < s.push(x).len() && 0 <= j < s.push(x).len() && i != j
        implies s.push(x)[i] != s.push(x)[j] by {
        if i < s.len() && j == s.len() {
            assert(s.contains(s[i]));
        }
        if j < s.len() && i == s.len() {
            assert(s.contains(s[j]));
        }
    }
}

/// Removing the element at `i` (the first equal to `p`) realises `remove_pair`.
pub proof fn lemma_remove_pair_at(s: Seq<IdxPair>, p: IdxPair, i: int)
    requires
        0 <= i < s.len(),
        s[i] == p,
        forall|j: int| 0 <= j < i ==> s[j] != p,
    ensures
        remove_pair(s, p) =~= s.remove(i),
    decreases s.len(),
{
    if i == 0 {
        assert(remove_pair(s, p) =~= s.remove(0));
    } else {
        assert(s.drop_first()[i - 1] == s[i]);
        assert(forall|j: int| 0 <= j < i - 1 ==> s.drop_first()[j] != p);
        lemma_remove_pair_at(s.drop_first(), p, i - 1);
        assert(seq![s[0]] + s.drop_first().remove(i - 1) =~= s.remove(i));
    }
}

/// After removing `p` from a duplicate-free list, membership of `q` is:
/// gone for `p` itself, unchanged for every other pair.
pub proof fn lemma_remove_pair_contains(s: Seq<IdxPair>, p: IdxPair, q: IdxPair)
    requires
        s.no_duplicates(),
    ensures
        q == p ==> !remove_pair(s, p).contains(q),
        q != p ==> (remove_pair(s, p).contains(q) <==> s.contains(q)),
    decreases s.len(),
{
    if s.len() > 0 {
        assert(s.drop_first().no_duplicates());
        if s[0] == p {
            if q == p {
                if s.drop_first().contains(q) {
                    let i = choose|i: int| 0 <= i < s.drop_first().len() && s.drop_first()[i] == q;
                    assert(s[i + 1] == s[0]);
                    assert(false);
                }
            } else {
                if s.drop_first().contains(q) {
                    let i = choose|i: int| 0 <= i < s.drop_first().len() && s.drop_first()[i] == q;
                    assert(s[i + 1] == q);
                }
                if s.contains(q) {
                    let i = choose|i: int| 0 <= i < s.len() && s[i] == q;
                    assert(i > 0);
                    assert(s.drop_first()[i - 1] == q);
                }
            }
        } else {
            lemma_remove_pair_contains(s.drop_first(), p, q);
            let t = seq![s[0]] + remove_pair(s.drop_first(), p);
            assert(t.drop_first() =~= remove_pair(s.drop_first(), p));
            if q == p {
                if t.contains(q) {
                    let i = choose|i: int| 0 <= i < t.len() && t[i] == q;
                    assert(i > 0);
                    assert(t.drop_first()[i - 1] == q);
                }
            } else {
                if t.contains(q) {
                    let i = choose|i: int| 0 <= i < t.len() && t[i] == q;
                    if i == 0 {
                        assert(s[0] == q);
                    } else {
                        assert(t.drop_first()[i - 1] == q);
                        let j = choose|j: int| 0 <= j < s.drop_first().len() && s.drop_first()[j] == q;
                        assert(s[j + 1] == q);
                    }
                }
                if s.contains(q) {
                    let i = choose|i: int| 0 <= i < s.len() && s[i] == q;
                    if i == 0 {
                        assert(t[0] == q);
                    } else {
                        assert(s.drop_first()[i - 1] == q);
                        let j = choose|j: int| 0 <= j < remove_pair(s.drop_first(), p).len()
                            && remove_pair(s.drop_first(), p)[j] == q;
                        assert(t[j + 1] == q);
                    }
                }
            }
        }
    }
}

/// Removing a pair keeps a duplicate-free list duplicate-free.
pub proof fn lemma_remove_pair_no_dup(s: Seq<IdxPair>, p: IdxPair)
    requires
        s.no_duplicates(),
    ensures
        remove_pair(s, p).no_duplicates(),
{
    if s.contains(p) {
        let i = choose|i: int| 0 <= i < s.len() && s[i] == p;
        assert forall|x: int| 0 <= x < i implies s[x] != p by {
            assert(s[x] != s[i]);
        }
        lemma_remove_pair_at(s, p, i);
        let t = s.remove(i);
        assert forall|x: int, y: int|
            0 <= x < t.len() && 0 <= y < t.len() && x != y implies t[x] != t[y] by {
            let sx: int = if x < i { x } else { x + 1 };
            let sy: int = if y < i { y } else { y + 1 };
            assert(t[x] == s[sx] && t[y] == s[sy]);
        }
    } else {
        lemma_remove_pair_absent(s, p);
    }
}

/// Removing an absent pair changes nothing.
pub proof fn lemma_remove_pair_absent(s: Seq<IdxPair>, p: IdxPair)
    requires
        !s.contains(p),
    ensures
        remove_pair(s, p) =~= s,
    decreases s.len(),
{
    if s.len() > 0 {
        assert(s[0] != p);
        assert forall|i: int| 0 <= i < s.drop_first().len() implies s.drop_first()[i] != p by {
            assert(s[i + 1] == s.drop_first()[i]);
        }
        lemma_remove_pair_absent(s.drop_first(), p);
        assert(seq![s[0]] + s.drop_first() =~= s);
    }
}

/// A secondary owner index: pairs of (owner, primary key), kept
/// duplicate-free and updated in the same step as the primary table.
pub struct PairList {
    entries: Vec<(String, String)>,
}

impl View for PairList {
    type V = Seq<IdxPair>;

    closed spec fn view(&self) -> Seq<IdxPair> {
        self.entries@.map_values(|p: (String, String)| (p.0@, p.1@))
    }
}

impl PairList {
    pub fn new() -> (t: PairList)
        ensures
            t@ =~= Seq::<IdxPair>::empty(),
    {
        PairList { entries: Vec::new() }
    }

    pub fn len(&self) -> (n: usize)
        ensures
            n == self@.len(),
    {
        self.entries.len()
    }

    pub fn pair_at(&self, i: usize) -> (r: (&String, &String))
        requires
            i < self@.len(),
        ensures
            (r.0@, r.1@) == self@[i as int],
    {
        let p = &self.entries[i];
        (&p.0, &p.1)
    }

    /// Records the pair (`a`, `b`).
    pub fn add(&mut self, a: &str, b: &str)
        ensures
            final(self)@ == old(self)@.push((a@, b@)),
    {
        self.entries.push((a.to_owned(), b.to_owned()));
        proof {
            assert(self@ =~= old(self)@.push((a@, b@)));
        }
    }

    /// Deletes the first occurrence of the pair (`a`, `b`), reporting
    /// whether one was there.
    pub fn remove(&mut self, a: &str, b: &str) -> (found: bool)
        ensures
            found <==> old(self)@.contains((a@, b@)),
            found ==> final(self)@ == remove_pair(old(self)@, (a@, b@)),
            !found ==> final(self)@ == old(self)@,
    {
        let n = self.entries.len();
        let mut i: usize = 0;
        while i < n
            invariant
                0 <= i <= n,
                n == self@.len(),
                self@ == old(self)@,
                forall|j: int| 0 <= j < i ==> self@[j] != (a@, b@),
            decreases n - i,
        {
            if str_eq(self.entries[i].0.as_str(), a) && str_eq(self.entries[i].1.as_str(), b) {
                proof {
                    assert(old(self)@[i as int] == (a@, b@));
                    lemma_remove_pair_at(self@, (a@, b@), i as int);
                }
                let _ = self.entries.remove(i);
                proof {
                    assert(self@ =~= old(self)@.remove(i as int));
                }
                return true;
            }
            i = i + 1;
        }
        proof {
            if old(self)@.contains((a@, b@)) {
                let j = choose|j: int| 0 <= j < old(self)@.len() && old(self)@[j] == (a@, b@);
                assert(false);
            }
        }
        false
    }
}

/// A unique-key index: every key of its table, each at most once.
pub struct KeyList {
    entries: Vec<String>,
}

impl View for KeyList {
    type V = Seq<Seq<char>>;

    closed spec fn view(&self) -> Seq<Seq<char>> {
        self.entries@.map_values(|k: String| k@)
    }
}

impl KeyList {
    pub fn new() -> (t: KeyList)
        ensures
            t@ =~= Seq::<Seq<char>>::empty(),
    {
        KeyList { entries: Vec::new() }
    }

    pub fn len(&self) -> (n: usize)
        ensures
            n == self@.len(),
    {
        self.entries.len()
    }

    /// Records the key `k`.
    pub fn add(&mut self, k: &str)
        ensures
            final(self)@ == old(self)@.push(k@),
    {
        self.entries.push(k.to_owned());
        proof {
            assert(self@ =~= old(self)@.push(k@));
        }
    }

    /// Whether the key `k` is recorded.
    pub fn contains_key(&self, k: &str) -> (r: bool)
        ensures
            r == self@.contains(k@),
    {
        let n = self.entries.len();
        let mut i: usize = 0;
        while i < n
            invariant
                0 <= i <= n,
                n == self@.len(),
                forall|j: int| 0 <= j < i ==> self@[j] != k@,
            decreases n - i,
        {
            if str_eq(self.entries[i].as_str(), k) {
                proof {
                    assert(self@[i as int] == k@);
                }
                return true;
            }
            i = i + 1;
        }
        proof {
            if self@.contains(k@) {
                let j = choose|j: int| 0 <= j < self@.len() && self@[j] == k@;
                assert(false);
            }
        }
        false
    }
}

/// Whether two strings hold the same characters.
pub fn str_eq(a: &str, b: &str) -> (r: bool)
    ensures
        r == (a@ == b@),
{
    matches!(str_cmp(a, b), KeyOrd::Equal)
}

} // verus!
