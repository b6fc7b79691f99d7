//! Small collections keyed by text.
//!
//! Both keep their entries in insertion order, so that everything computed from them is
//! reproducible, and both compare keys by their characters.

use crate::strings::{str_eq, texts};
use vstd::prelude::*;

verus! {

/// The map that a list of entries stands for: a key is bound to the value of the first
/// entry that names it.
pub open spec fn assoc<V: View>(s: Seq<(String, V)>) -> Map<Seq<char>, V::V>
    decreases s.len(),
{
    if s.len() == 0 {
        Map::empty()
    } else {
        let rest = assoc(s.drop_last());
        if rest.contains_key(s.last().0@) {
            rest
        } else {
            rest.insert(s.last().0@, s.last().1@)
        }
    }
}

/// `i` is the first index of `s` whose entry has key `k`.
pub open spec fn is_first_index<V>(s: Seq<(String, V)>, k: Seq<char>, i: int) -> bool {
    &&& 0 <= i < s.len()
    &&& s[i].0@ == k
    &&& forall|j: int| 0 <= j < i ==> (#[trigger] s[j]).0@ != k
}

/// No entry of `s` has key `k`.
pub open spec fn no_entry<V>(s: Seq<(String, V)>, k: Seq<char>) -> bool {
    forall|j: int| 0 <= j < s.len() ==> (#[trigger] s[j]).0@ != k
}

/// A key is bound exactly when some entry names it.
pub proof fn lemma_assoc_absent<V: View>(s: Seq<(String, V)>, k: Seq<char>)
    requires
        no_entry(s, k),
    ensures
        !assoc(s).contains_key(k),
    decreases s.len(),
{
    if s.len() > 0 {
        assert(s.last() == s[s.len() - 1]);
        assert forall|j: int| 0 <= j < s.drop_last().len() implies (
        #[trigger] s.drop_last()[j]).0@ != k by {
            assert(s.drop_last()[j] == s[j]);
        }
        lemma_assoc_absent(s.drop_last(), k);
    }
}

/// The first entry that names a key gives the value bound to it.
pub proof fn lemma_assoc_first<V: View>(s: Seq<(String, V)>, k: Seq<char>, i: int)
    requires
        is_first_index(s, k, i),
    ensures
        assoc(s).contains_key(k),
        assoc(s)[k] == s[i].1@,
    decreases s.len(),
{
    let front = s.drop_last();
    if i == s.len() - 1 {
        assert forall|j: int| 0 <= j < front.len() implies (#[trigger] front[j]).0@ != k by {
            assert(front[j] == s[j]);
        }
        lemma_assoc_absent(front, k);
    } else {
        assert(front[i] == s[i]);
        assert forall|j: int| 0 <= j < i implies (#[trigger] front[j]).0@ != k by {
            assert(front[j] == s[j]);
        }
        lemma_assoc_first(front, k, i);
    }
}

/// Adding an entry at the end binds its key unless an earlier entry names it.
pub proof fn lemma_assoc_push<V: View>(s: Seq<(String, V)>, e: (String, V))
    ensures
        assoc(s.push(e)) == if assoc(s).contains_key(e.0@) {
            assoc(s)
        } else {
            assoc(s).insert(e.0@, e.1@)
        },
{
    assert(s.push(e).drop_last() =~= s);
}

/// Replacing the first entry that names a key rebinds that key and nothing else.
pub proof fn lemma_assoc_update<V: View>(s: Seq<(String, V)>, i: int, e: (String, V))
    requires
        is_first_index(s, e.0@, i),
    ensures
        assoc(s.update(i, e)) == assoc(s).insert(e.0@, e.1@),
    decreases s.len(),
{
    let k = e.0@;
    let t = s.update(i, e);
    let front = s.drop_last();
    if i == s.len() - 1 {
        assert(t.drop_last() =~= front);
        assert forall|j: int| 0 <= j < front.len() implies (#[trigger] front[j]).0@ != k by {
            assert(front[j] == s[j]);
        }
        lemma_assoc_absent(front, k);
        assert(assoc(t) =~= assoc(s).insert(k, e.1@));
    } else {
        assert(t.drop_last() =~= front.update(i, e));
        assert(front[i] == s[i]);
        assert forall|j: int| 0 <= j < i implies (#[trigger] front[j]).0@ != k by {
            assert(front[j] == s[j]);
        }
        lemma_assoc_update(front, i, e);
        lemma_assoc_first(front, k, i);
        assert(t.last() == s.last());
        assert(assoc(t) =~= assoc(s).insert(k, e.1@));
    }
}

/// Lists whose entries agree in key and value, index by index, stand for the same map.
pub proof fn lemma_assoc_same<V: View>(s: Seq<(String, V)>, t: Seq<(String, V)>)
    requires
        s.len() == t.len(),
        forall|i: int|
            0 <= i < s.len() ==> (#[trigger] s[i]).0@ == t[i].0@ && s[i].1@ == t[i].1@,
    ensures
        assoc(s) == assoc(t),
    decreases s.len(),
{
    if s.len() > 0 {
        assert forall|i: int| 0 <= i < s.drop_last().len() implies (
        #[trigger] s.drop_last()[i]).0@ == t.drop_last()[i].0@ && s.drop_last()[i].1@
            == t.drop_last()[i].1@ by {
            assert(s.drop_last()[i] == s[i]);
            assert(t.drop_last()[i] == t[i]);
        }
        lemma_assoc_same(s.drop_last(), t.drop_last());
        assert(s.last() == s[s.len() - 1]);
        assert(t.last() == t[t.len() - 1]);
    }
}

/// The keys of a list of entries, in order.
pub open spec fn keys<V>(s: Seq<(String, V)>) -> Seq<Seq<char>> {
    Seq::new(s.len(), |i: int| s[i].0@)
}

/// An entry that names a key binds it.
pub proof fn lemma_assoc_has<V: View>(s: Seq<(String, V)>, j: int)
    requires
        0 <= j < s.len(),
    ensures
        assoc(s).contains_key(s[j].0@),
    decreases s.len(),
{
    if j < s.len() - 1 {
        assert(s.drop_last()[j] == s[j]);
        lemma_assoc_has(s.drop_last(), j);
    }
}

/// The keys that are bound are the keys that the entries name.
pub proof fn lemma_assoc_dom<V: View>(s: Seq<(String, V)>)
    ensures
        assoc(s).dom() == keys(s).to_set(),
{
    assert forall|k: Seq<char>| assoc(s).dom().contains(k) <==> keys(s).to_set().contains(k) by {
        if keys(s).to_set().contains(k) {
            let j = choose|j: int| 0 <= j < keys(s).len() && keys(s)[j] == k;
            lemma_assoc_has(s, j);
        }
        if assoc(s).contains_key(k) && !keys(s).contains(k) {
            assert forall|j: int| 0 <= j < s.len() implies (#[trigger] s[j]).0@ != k by {
                assert(keys(s)[j] == s[j].0@);
            }
            lemma_assoc_absent(s, k);
        }
    }
    assert(assoc(s).dom() =~= keys(s).to_set());
}

/// Where no key is named twice, there are as many bindings as entries.
pub proof fn lemma_assoc_len<V: View>(s: Seq<(String, V)>)
    requires
        keys(s).no_duplicates(),
    ensures
        assoc(s).dom().finite(),
        assoc(s).len() == s.len(),
{
    broadcast use vstd::seq_lib::seq_to_set_is_finite;

    lemma_assoc_dom(s);
    keys(s).unique_seq_to_set();
}

/// A finite map from text to `V`, kept as a list of entries in insertion order.
/// Where two entries name one key, the first is the one that counts; the operations of
/// the map never add a second entry for a key.
#[derive(Debug)]
pub struct StrMap<V> {
    pub entries: Vec<(String, V)>,
}

impl<V: View> View for StrMap<V> {
    type V = Map<Seq<char>, V::V>;

    open spec fn view(&self) -> Map<Seq<char>, V::V> {
        assoc(self.entries@)
    }
}

impl<V: View> StrMap<V> {
    /// No key is named by two entries.
    pub open spec fn wf(&self) -> bool {
        keys(self.entries@).no_duplicates()
    }

    pub fn new() -> (m: Self)
        ensures
            m.entries@ == Seq::<(String, V)>::empty(),
            m@ == Map::<Seq<char>, V::V>::empty(),
            m.wf(),
    {
        StrMap { entries: Vec::new() }
    }

    /// The number of entries: where no key is named twice, the number of keys bound.
    pub fn len(&self) -> (n: usize)
        ensures
            n == self.entries@.len(),
            self.wf() ==> n == self@.len(),
    {
        proof {
            if self.wf() {
                lemma_assoc_len(self.entries@);
            }
        }
        self.entries.len()
    }

    /// Whether no key is bound.
    pub fn is_empty(&self) -> (b: bool)
        ensures
            b == (self.entries@.len() == 0),
            b == (self@ == Map::<Seq<char>, V::V>::empty()),
    {
        proof {
            if self.entries@.len() > 0 {
                lemma_assoc_has(self.entries@, 0);
            }
        }
        self.entries.len() == 0
    }

    /// The index of the first entry with key `k`, if there is one.
    pub fn find(&self, k: &str) -> (r: Option<usize>)
        ensures
            match r {
                Some(i) => is_first_index(self.entries@, k@, i as int) && self@.contains_key(k@)
                    && self@[k@] == self.entries@[i as int].1@,
                None => no_entry(self.entries@, k@) && !self@.contains_key(k@),
            },
    {
        let mut i: usize = 0;
        while i < self.entries.len()
            invariant
                i <= self.entries@.len(),
                forall|j: int| 0 <= j < i ==> (#[trigger] self.entries@[j]).0@ != k@,
            decreases self.entries@.len() - i,
        {
            if str_eq(self.entries[i].0.as_str(), k) {
                proof {
                    lemma_assoc_first(self.entries@, k@, i as int);
                }
                return Some(i);
            }
            i += 1;
        }
        proof {
            lemma_assoc_absent(self.entries@, k@);
        }
        None
    }

    /// The value bound to `k`, if there is one.
    pub fn get(&self, k: &str) -> (r: Option<&V>)
        ensures
            match r {
                Some(v) => self@.contains_key(k@) && v@ == self@[k@],
                None => !self@.contains_key(k@),
            },
    {
        match self.find(k) {
            Some(i) => Some(&self.entries[i].1),
            None => None,
        }
    }

    pub fn contains_key(&self, k: &str) -> (b: bool)
        ensures
            b == self@.contains_key(k@),
    {
        self.find(k).is_some()
    }

    /// Binds `k` to `v`: the value of the entry that binds `k` is replaced where it stands,
    /// otherwise a new entry is added at the end.
    pub fn insert(&mut self, k: String, v: V)
        ensures
            final(self)@ == old(self)@.insert(k@, v@),
            old(self)@.contains_key(k@) ==> exists|i: int|
                is_first_index(old(self).entries@, k@, i) && final(self).entries@ == old(
                    self,
                ).entries@.update(i, (k, v)),
            !old(self)@.contains_key(k@) ==> final(self).entries@ == old(self).entries@.push(
                (k, v),
            ),
            old(self).wf() ==> final(self).wf(),
    {
        match self.find(k.as_str()) {
            Some(i) => {
                proof {
                    lemma_assoc_update(self.entries@, i as int, (k, v));
                }
                self.entries.set(i, (k, v));
                assert(keys(self.entries@) =~= keys(old(self).entries@));
            },
            None => {
                proof {
                    lemma_assoc_push(self.entries@, (k, v));
                }
                self.entries.push((k, v));
                proof {
                    lemma_keys_push(old(self).entries@, (k, v));
                }
            },
        }
    }

    /// Binds `k` to `v` unless `k` is bound already.
    pub fn insert_absent(&mut self, k: String, v: V)
        ensures
            final(self)@ == if old(self)@.contains_key(k@) {
                old(self)@
            } else {
                old(self)@.insert(k@, v@)
            },
            final(self).entries@ == if old(self)@.contains_key(k@) {
                old(self).entries@
            } else {
                old(self).entries@.push((k, v))
            },
            old(self).wf() ==> final(self).wf(),
    {
        if !self.contains_key(k.as_str()) {
            proof {
                lemma_assoc_push(self.entries@, (k, v));
                lemma_keys_push(self.entries@, (k, v));
            }
            self.entries.push((k, v));
        }
    }
}

/// An entry whose key no entry names yet can be added without naming a key twice.
pub proof fn lemma_keys_push<V: View>(s: Seq<(String, V)>, e: (String, V))
    requires
        !assoc(s).contains_key(e.0@),
    ensures
        keys(s).no_duplicates() ==> keys(s.push(e)).no_duplicates(),
{
    if keys(s).no_duplicates() {
        let t = keys(s.push(e));
        assert forall|i: int, j: int| 0 <= i < t.len() && 0 <= j < t.len() && i != j implies t[i]
            != t[j] by {
            if i < s.len() && j < s.len() {
                assert(keys(s)[i] != keys(s)[j]);
            } else if i < s.len() {
                lemma_assoc_has(s, i);
            } else {
                lemma_assoc_has(s, j);
            }
        }
    }
}

impl<V: View> StrMap<V> {
    /// Adds every binding of `other` whose key is not bound here: on a key that both
    /// bind, the value kept is the one bound here.
    pub fn absorb(&mut self, other: StrMap<V>)
        ensures
            final(self)@ == other@.union_prefer_right(old(self)@),
            old(self).wf() ==> final(self).wf(),
    {
        let ghost all = other.entries@;
        proof {
            assert(assoc(all.take(0)) =~= Map::<Seq<char>, V::V>::empty());
            assert(self@ =~= assoc(all.take(0)).union_prefer_right(old(self)@));
        }
        for e in it: other.entries.into_iter()
            invariant
                it.seq() == all,
                self@ == assoc(all.take(it.index() as int)).union_prefer_right(old(self)@),
                old(self).wf() ==> self.wf(),
        {
            let ghost i = it.index() as int;
            let ghost before = self@;
            proof {
                assert(all.take(i + 1) =~= all.take(i).push(e));
                lemma_assoc_push(all.take(i), e);
            }
            self.insert_absent(e.0, e.1);
            assert(self@ =~= assoc(all.take(i + 1)).union_prefer_right(old(self)@));
        }
        proof {
            assert(all.take(all.len() as int) =~= all);
        }
    }
}

impl<V: View> StrMap<V> {
    /// Whether every binding of this map is a binding of `other`, where `eq` tells
    /// whether two values say the same.
    pub fn within_by<F>(&self, other: &StrMap<V>, eq: F) -> (b: bool) where F: Fn(&V, &V) -> bool
        requires
            forall|x: &V, y: &V| call_requires(eq, (x, y)),
            forall|x: &V, y: &V, r: bool| call_ensures(eq, (x, y), r) ==> r == (x@ == y@),
        ensures
            b == (forall|k: Seq<char>| #[trigger]
                self@.contains_key(k) ==> other@.contains_key(k) && other@[k] == self@[k]),
    {
        let mut i: usize = 0;
        while i < self.entries.len()
            invariant
                i <= self.entries@.len(),
                forall|x: &V, y: &V| call_requires(eq, (x, y)),
                forall|x: &V, y: &V, r: bool| call_ensures(eq, (x, y), r) ==> r == (x@ == y@),
                forall|j: int|
                    0 <= j < i ==> other@.contains_key((#[trigger] self.entries@[j]).0@)
                        && other@[self.entries@[j].0@] == self@[self.entries@[j].0@],
            decreases self.entries@.len() - i,
        {
            let key = self.entries[i].0.as_str();
            proof {
                lemma_assoc_has(self.entries@, i as int);
            }
            let same = match (self.get(key), other.get(key)) {
                (Some(mine), Some(theirs)) => eq(mine, theirs),
                _ => false,
            };
            if !same {
                assert(self@.contains_key(key@));
                return false;
            }
            i += 1;
        }
        proof {
            assert forall|k: Seq<char>| #[trigger] self@.contains_key(k) implies other@.contains_key(
                k,
            ) && other@[k] == self@[k] by {
                if no_entry(self.entries@, k) {
                    lemma_assoc_absent(self.entries@, k);
                }
                let j = choose|j: int|
                    0 <= j < self.entries@.len() && (#[trigger] self.entries@[j]).0@ == k;
            }
        }
        true
    }

    /// Whether both maps bind the same keys to values that say the same, as `eq` tells.
    pub fn same_by<F>(&self, other: &StrMap<V>, eq: F) -> (b: bool) where F: Fn(&V, &V) -> bool
        requires
            forall|x: &V, y: &V| call_requires(eq, (x, y)),
            forall|x: &V, y: &V, r: bool| call_ensures(eq, (x, y), r) ==> r == (x@ == y@),
        ensures
            b == (self@ == other@),
    {
        let b = self.within_by(other, &eq) && other.within_by(self, &eq);
        proof {
            if b {
                assert(self@ =~= other@);
            }
        }
        b
    }
}

impl StrMap<String> {
    /// Whether every binding of this map is a binding of `other`.
    pub fn within(&self, other: &StrMap<String>) -> (b: bool)
        ensures
            b == (forall|k: Seq<char>| #[trigger]
                self@.contains_key(k) ==> other@.contains_key(k) && other@[k] == self@[k]),
    {
        let eq = |x: &String, y: &String| -> (r: bool)
            ensures
                r == (x@ == y@),
            { str_eq(x.as_str(), y.as_str()) };
        self.within_by(other, eq)
    }

    /// Whether both maps bind the same keys to the same texts.
    pub fn same(&self, other: &StrMap<String>) -> (b: bool)
        ensures
            b == (self@ == other@),
    {
        let eq = |x: &String, y: &String| -> (r: bool)
            ensures
                r == (x@ == y@),
            { str_eq(x.as_str(), y.as_str()) };
        self.same_by(other, eq)
    }
}

impl Clone for StrMap<String> {
    fn clone(&self) -> (r: Self)
        ensures
            r@ == self@,
            self.wf() ==> r.wf(),
    {
        let mut entries: Vec<(String, String)> = Vec::new();
        let mut i: usize = 0;
        while i < self.entries.len()
            invariant
                i <= self.entries@.len(),
                entries@.len() == i,
                forall|j: int|
                    0 <= j < i ==> (#[trigger] entries@[j]).0@ == self.entries@[j].0@
                        && entries@[j].1@ == self.entries@[j].1@,
            decreases self.entries@.len() - i,
        {
            entries.push((self.entries[i].0.clone(), self.entries[i].1.clone()));
            i += 1;
        }
        proof {
            lemma_assoc_same(entries@, self.entries@);
            assert(keys(entries@) =~= keys(self.entries@));
        }
        StrMap { entries }
    }
}

/// The set of texts that a list holds.
pub open spec fn text_set(s: Seq<String>) -> Set<Seq<char>> {
    Set::new(|k: Seq<char>| exists|i: int| 0 <= i < s.len() && (#[trigger] s[i])@ == k)
}

/// The texts that a list holds are the texts of its strings.
pub proof fn lemma_text_set(s: Seq<String>)
    ensures
        text_set(s) == texts(s).to_set(),
{
    assert forall|k: Seq<char>| text_set(s).contains(k) <==> texts(s).to_set().contains(k) by {
        if text_set(s).contains(k) {
            let i = choose|i: int| 0 <= i < s.len() && (#[trigger] s[i])@ == k;
            assert(texts(s)[i] == k);
        }
        if texts(s).to_set().contains(k) {
            let i = choose|i: int| 0 <= i < texts(s).len() && texts(s)[i] == k;
            assert(s[i]@ == k);
        }
    }
    assert(text_set(s) =~= texts(s).to_set());
}

/// A finite set of texts, kept in insertion order. The operations of the set never keep
/// a text twice.
#[derive(Debug)]
pub struct StrSet {
    pub items: Vec<String>,
}

impl View for StrSet {
    type V = Set<Seq<char>>;

    open spec fn view(&self) -> Set<Seq<char>> {
        text_set(self.items@)
    }
}

impl StrSet {
    /// No text is kept twice.
    pub open spec fn wf(&self) -> bool {
        texts(self.items@).no_duplicates()
    }

    pub fn new() -> (s: Self)
        ensures
            s.items@ == Seq::<String>::empty(),
            s@ == Set::<Seq<char>>::empty(),
            s.wf(),
    {
        let s = StrSet { items: Vec::new() };
        assert(s@ =~= Set::<Seq<char>>::empty());
        s
    }

    /// The number of texts kept: where none is kept twice, the number of texts in the set.
    pub fn len(&self) -> (n: usize)
        ensures
            n == self.items@.len(),
            self.wf() ==> self@.finite() && n == self@.len(),
    {
        proof {
            broadcast use vstd::seq_lib::seq_to_set_is_finite;

            if self.wf() {
                lemma_text_set(self.items@);
                texts(self.items@).unique_seq_to_set();
            }
        }
        self.items.len()
    }

    pub fn contains(&self, k: &str) -> (b: bool)
        ensures
            b == self@.contains(k@),
    {
        let mut i: usize = 0;
        while i < self.items.len()
            invariant
                i <= self.items@.len(),
                forall|j: int| 0 <= j < i ==> (#[trigger] self.items@[j])@ != k@,
            decreases self.items@.len() - i,
        {
            if str_eq(self.items[i].as_str(), k) {
                return true;
            }
            i += 1;
        }
        false
    }

    /// Adds `k`; a text that is there already is not kept twice.
    pub fn insert(&mut self, k: String)
        ensures
            final(self)@ == old(self)@.insert(k@),
            final(self).items@ == if old(self)@.contains(k@) {
                old(self).items@
            } else {
                old(self).items@.push(k)
            },
            old(self).wf() ==> final(self).wf(),
    {
        if !self.contains(k.as_str()) {
            self.items.push(k);
            proof {
                if old(self).wf() {
                    let t = texts(self.items@);
                    let before = texts(old(self).items@);
                    assert forall|i: int, j: int|
                        0 <= i < t.len() && 0 <= j < t.len() && i != j implies t[i] != t[j] by {
                        if i < before.len() && j < before.len() {
                            assert(before[i] != before[j]);
                        } else if i < before.len() {
                            assert(old(self).items@[i]@ == t[i]);
                        } else {
                            assert(old(self).items@[j]@ == t[j]);
                        }
                    }
                }
            }
            assert forall|q: Seq<char>| self@.contains(q) <==> old(self)@.insert(k@).contains(
                q,
            ) by {
                if old(self)@.insert(k@).contains(q) {
                    if q == k@ {
                        assert(self.items@[old(self).items@.len() as int]@ == q);
                    } else {
                        let i = choose|i: int|
                            0 <= i < old(self).items@.len() && (#[trigger] old(self).items@[i])@
                                == q;
                        assert(self.items@[i]@ == q);
                    }
                }
            }
            assert(self@ =~= old(self)@.insert(k@));
        } else {
            assert(self@ =~= old(self)@.insert(k@));
        }
    }
}

impl StrSet {
    /// Whether every text of this set is in `other`.
    pub fn within(&self, other: &StrSet) -> (b: bool)
        ensures
            b == self@.subset_of(other@),
    {
        let mut i: usize = 0;
        while i < self.items.len()
            invariant
                i <= self.items@.len(),
                forall|j: int| 0 <= j < i ==> other@.contains((#[trigger] self.items@[j])@),
            decreases self.items@.len() - i,
        {
            if !other.contains(self.items[i].as_str()) {
                assert(self@.contains(self.items@[i as int]@));
                return false;
            }
            i += 1;
        }
        proof {
            assert forall|k: Seq<char>| self@.contains(k) implies other@.contains(k) by {
                let j = choose|j: int| 0 <= j < self.items@.len() && (#[trigger] self.items@[j])@ == k;
            }
        }
        true
    }

    /// Whether both sets hold the same texts.
    pub fn same(&self, other: &StrSet) -> (b: bool)
        ensures
            b == (self@ == other@),
    {
        let b = self.within(other) && other.within(self);
        proof {
            if b {
                assert(self@ =~= other@);
            }
        }
        b
    }
}

impl Clone for StrSet {
    fn clone(&self) -> (r: Self)
        ensures
            r@ == self@,
            texts(r.items@) == texts(self.items@),
            self.wf() ==> r.wf(),
    {
        let mut items: Vec<String> = Vec::new();
        let mut i: usize = 0;
        while i < self.items.len()
            invariant
                i <= self.items@.len(),
                items@.len() == i,
                forall|j: int| 0 <= j < i ==> (#[trigger] items@[j])@ == self.items@[j]@,
            decreases self.items@.len() - i,
        {
            items.push(self.items[i].clone());
            i += 1;
        }
        let r = StrSet { items };
        assert forall|q: Seq<char>| r@.contains(q) <==> self@.contains(q) by {
            if r@.contains(q) {
                let i = choose|i: int| 0 <= i < r.items@.len() && (#[trigger] r.items@[i])@ == q;
                assert(self.items@[i]@ == q);
            }
            if self@.contains(q) {
                let i = choose|i: int|
                    0 <= i < self.items@.len() && (#[trigger] self.items@[i])@ == q;
                assert(r.items@[i]@ == q);
            }
        }
        assert(r@ =~= self@);
        assert(texts(r.items@) =~= texts(self.items@));
        r
    }
}

} // verus!
