//! The tags collected for one request.

use crate::collections::{keys, lemma_assoc_same, StrMap};
use crate::location::{Location, LocationSet, LocationView};
use crate::strings::{joined, texts};
use vstd::prelude::*;

verus! {

/// What a [`Tags`] value says: each tag with the locations that justify it.
pub type TagsView = Map<Seq<char>, Set<LocationView>>;

/// The locations recorded for `tag`; none where the tag is not set.
pub open spec fn locations_of(tags: TagsView, tag: Seq<char>) -> Set<LocationView> {
    if tags.contains_key(tag) {
        tags[tag]
    } else {
        Set::empty()
    }
}

/// `tags` with `tag` set and `locs` added to its locations.
pub open spec fn add_locations(tags: TagsView, tag: Seq<char>, locs: Set<LocationView>) -> TagsView {
    tags.insert(tag, locations_of(tags, tag).union(locs))
}

/// `tags` with every tag of `names` set and `locs` added to the locations of each.
pub open spec fn add_all(tags: TagsView, names: Seq<Seq<char>>, locs: Set<LocationView>) -> TagsView
    decreases names.len(),
{
    if names.len() == 0 {
        tags
    } else {
        add_locations(add_all(tags, names.drop_last(), locs), names.last(), locs)
    }
}

/// Every tag of `names` is set once all of them were added.
pub proof fn lemma_add_all_sets(
    tags: TagsView,
    names: Seq<Seq<char>>,
    locs: Set<LocationView>,
    i: int,
)
    requires
        0 <= i < names.len(),
    ensures
        add_all(tags, names, locs).contains_key(names[i]),
        locs.subset_of(add_all(tags, names, locs)[names[i]]),
    decreases names.len(),
{
    if i < names.len() - 1 {
        assert(names.drop_last()[i] == names[i]);
        lemma_add_all_sets(tags, names.drop_last(), locs, i);
    }
}

/// The name of a qualified tag: the qualifier, a colon, the value.
pub open spec fn qualified(id: Seq<char>, value: Seq<char>) -> Seq<char> {
    id + seq![':'] + value
}

/// A set of tags, each with the set of locations that justified it.
#[derive(Debug)]
pub struct Tags {
    pub map: StrMap<LocationSet>,
}

impl View for Tags {
    type V = TagsView;

    open spec fn view(&self) -> TagsView {
        self.map@
    }
}

impl Tags {
    /// No tag is kept twice.
    pub open spec fn wf(&self) -> bool {
        self.map.wf()
    }

    pub fn new() -> (t: Self)
        ensures
            t@ == Map::<Seq<char>, Set<LocationView>>::empty(),
            t.wf(),
    {
        Tags { map: StrMap::new() }
    }

    /// The number of tags kept: where none is kept twice, the number of tags set.
    pub fn len(&self) -> (n: usize)
        ensures
            n == self.map.entries@.len(),
            self.wf() ==> n == self@.len(),
    {
        self.map.len()
    }

    /// Whether `tag` is set.
    pub fn contains(&self, tag: &str) -> (b: bool)
        ensures
            b == self@.contains_key(tag@),
    {
        self.map.contains_key(tag)
    }

    /// The locations that justify `tag`, where it is set.
    pub fn get(&self, tag: &str) -> (r: Option<&LocationSet>)
        ensures
            match r {
                Some(locs) => self@.contains_key(tag@) && locs@ == self@[tag@],
                None => !self@.contains_key(tag@),
            },
    {
        self.map.get(tag)
    }

    /// Sets `tag` and adds every location of `locs` to those that justify it.
    pub fn insert_locs(&mut self, tag: &str, locs: &LocationSet)
        ensures
            final(self)@ == add_locations(old(self)@, tag@, locs@),
            old(self).wf() ==> final(self).wf(),
    {
        let mut all = match self.map.get(tag) {
            Some(known) => known.clone(),
            None => LocationSet::new(),
        };
        all.extend(locs);
        self.map.insert(tag.to_string(), all);
    }

    /// Sets `tag`, justified by `loc`.
    pub fn insert(&mut self, tag: &str, loc: Location)
        ensures
            final(self)@ == add_locations(old(self)@, tag@, Set::empty().insert(loc@)),
            old(self).wf() ==> final(self).wf(),
    {
        let locs = LocationSet::single(loc);
        self.insert_locs(tag, &locs);
    }

    /// Sets the tag `id:value`, justified by `loc`.
    pub fn insert_qualified(&mut self, id: &str, value: &str, loc: Location)
        ensures
            final(self)@ == add_locations(
                old(self)@,
                qualified(id@, value@),
                Set::empty().insert(loc@),
            ),
            old(self).wf() ==> final(self).wf(),
    {
        proof {
            reveal_strlit(":");
        }
        let prefix = joined(id, ":");
        let name = joined(prefix.as_str(), value);
        assert(":"@ =~= seq![':']);
        self.insert(name.as_str(), loc);
    }

    /// Sets every tag of `names`, each justified by the locations of `locs`.
    pub fn insert_all(&mut self, names: &Vec<String>, locs: &LocationSet)
        ensures
            final(self)@ == add_all(old(self)@, texts(names@), locs@),
            old(self).wf() ==> final(self).wf(),
    {
        let ghost all = texts(names@);
        let mut i: usize = 0;
        while i < names.len()
            invariant
                i <= names@.len(),
                all == texts(names@),
                self@ == add_all(old(self)@, all.take(i as int), locs@),
                old(self).wf() ==> self.wf(),
            decreases names@.len() - i,
        {
            proof {
                assert(all.take(i + 1).drop_last() =~= all.take(i as int));
                assert(all.take(i + 1).last() == names@[i as int]@);
            }
            self.insert_locs(names[i].as_str(), locs);
            i += 1;
        }
        proof {
            assert(all.take(all.len() as int) =~= all);
        }
    }
}

impl Clone for Tags {
    fn clone(&self) -> (r: Self)
        ensures
            r@ == self@,
            self.wf() ==> r.wf(),
    {
        let mut entries: Vec<(String, LocationSet)> = Vec::new();
        let mut i: usize = 0;
        while i < self.map.entries.len()
            invariant
                i <= self.map.entries@.len(),
                entries@.len() == i,
                forall|j: int|
                    0 <= j < i ==> (#[trigger] entries@[j]).0@ == self.map.entries@[j].0@
                        && entries@[j].1@ == self.map.entries@[j].1@,
            decreases self.map.entries@.len() - i,
        {
            entries.push((self.map.entries[i].0.clone(), self.map.entries[i].1.clone()));
            i += 1;
        }
        proof {
            lemma_assoc_same(entries@, self.map.entries@);
            assert(keys(entries@) =~= keys(self.map.entries@));
        }
        Tags { map: StrMap { entries } }
    }
}

} // verus!
