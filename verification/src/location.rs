//! Evidence pointers into a request.

use crate::strings::str_eq;
use vstd::prelude::*;
use vstd::std_specs::cmp::PartialEqSpecImpl;

verus! {

/// The part of a request that made a rule match. Purely descriptive.
#[derive(Debug)]
pub enum Location {
    Ip,
    Path,
    Uri,
    Request,
    Headers,
    Cookies,
    HeaderValue(String, String),
    UriArgumentValue(String, String),
    CookieValue(String, String),
}

/// What a [`Location`] says, with its texts as character sequences.
pub enum LocationView {
    Ip,
    Path,
    Uri,
    Request,
    Headers,
    Cookies,
    HeaderValue(Seq<char>, Seq<char>),
    UriArgumentValue(Seq<char>, Seq<char>),
    CookieValue(Seq<char>, Seq<char>),
}

impl View for Location {
    type V = LocationView;

    open spec fn view(&self) -> LocationView {
        match self {
            Location::Ip => LocationView::Ip,
            Location::Path => LocationView::Path,
            Location::Uri => LocationView::Uri,
            Location::Request => LocationView::Request,
            Location::Headers => LocationView::Headers,
            Location::Cookies => LocationView::Cookies,
            Location::HeaderValue(n, v) => LocationView::HeaderValue(n@, v@),
            Location::UriArgumentValue(n, v) => LocationView::UriArgumentValue(n@, v@),
            Location::CookieValue(n, v) => LocationView::CookieValue(n@, v@),
        }
    }
}

impl Clone for Location {
    fn clone(&self) -> (r: Self)
        ensures
            r@ == self@,
    {
        match self {
            Location::Ip => Location::Ip,
            Location::Path => Location::Path,
            Location::Uri => Location::Uri,
            Location::Request => Location::Request,
            Location::Headers => Location::Headers,
            Location::Cookies => Location::Cookies,
            Location::HeaderValue(n, v) => Location::HeaderValue(n.clone(), v.clone()),
            Location::UriArgumentValue(n, v) => Location::UriArgumentValue(n.clone(), v.clone()),
            Location::CookieValue(n, v) => Location::CookieValue(n.clone(), v.clone()),
        }
    }
}

impl PartialEq for Location {
    fn eq(&self, other: &Location) -> (r: bool) {
        match (self, other) {
            (Location::Ip, Location::Ip) => true,
            (Location::Path, Location::Path) => true,
            (Location::Uri, Location::Uri) => true,
            (Location::Request, Location::Request) => true,
            (Location::Headers, Location::Headers) => true,
            (Location::Cookies, Location::Cookies) => true,
            (Location::HeaderValue(n1, v1), Location::HeaderValue(n2, v2)) => str_eq(
                n1.as_str(),
                n2.as_str(),
            ) && str_eq(v1.as_str(), v2.as_str()),
            (Location::UriArgumentValue(n1, v1), Location::UriArgumentValue(n2, v2)) => str_eq(
                n1.as_str(),
                n2.as_str(),
            ) && str_eq(v1.as_str(), v2.as_str()),
            (Location::CookieValue(n1, v1), Location::CookieValue(n2, v2)) => str_eq(
                n1.as_str(),
                n2.as_str(),
            ) && str_eq(v1.as_str(), v2.as_str()),
            _ => false,
        }
    }
}

impl PartialEqSpecImpl for Location {
    open spec fn obeys_eq_spec() -> bool {
        true
    }

    open spec fn eq_spec(&self, other: &Location) -> bool {
        self@ == other@
    }
}

/// The set of locations that a list holds.
pub open spec fn location_set(s: Seq<Location>) -> Set<LocationView> {
    Set::new(|l: LocationView| exists|i: int| 0 <= i < s.len() && (#[trigger] s[i])@ == l)
}

/// What the locations of a list say, in order.
pub open spec fn location_views(s: Seq<Location>) -> Seq<LocationView> {
    Seq::new(s.len(), |i: int| s[i]@)
}

/// The locations that a list holds are what its items say.
pub proof fn lemma_location_set(s: Seq<Location>)
    ensures
        location_set(s) == location_views(s).to_set(),
{
    assert forall|l: LocationView|
        location_set(s).contains(l) <==> location_views(s).to_set().contains(l) by {
        if location_set(s).contains(l) {
            let i = choose|i: int| 0 <= i < s.len() && (#[trigger] s[i])@ == l;
            assert(location_views(s)[i] == l);
        }
        if location_views(s).to_set().contains(l) {
            let i = choose|i: int| 0 <= i < location_views(s).len() && location_views(s)[i] == l;
            assert(s[i]@ == l);
        }
    }
    assert(location_set(s) =~= location_views(s).to_set());
}

/// A finite set of locations, kept in insertion order. The operations of the set never
/// keep a location twice.
#[derive(Debug)]
pub struct LocationSet {
    pub items: Vec<Location>,
}

impl View for LocationSet {
    type V = Set<LocationView>;

    open spec fn view(&self) -> Set<LocationView> {
        location_set(self.items@)
    }
}

impl LocationSet {
    /// No location is kept twice.
    pub open spec fn wf(&self) -> bool {
        location_views(self.items@).no_duplicates()
    }

    pub fn new() -> (s: Self)
        ensures
            s@ == Set::<LocationView>::empty(),
            s.items@.len() == 0,
            s.wf(),
    {
        let s = LocationSet { items: Vec::new() };
        assert(s@ =~= Set::<LocationView>::empty());
        s
    }

    /// The set that holds `loc` and nothing else.
    pub fn single(loc: Location) -> (s: Self)
        ensures
            s@ == Set::<LocationView>::empty().insert(loc@),
            s.wf(),
    {
        let mut s = LocationSet::new();
        s.insert(loc);
        s
    }

    /// The number of locations kept: where none is kept twice, the number of locations
    /// in the set.
    pub fn len(&self) -> (n: usize)
        ensures
            n == self.items@.len(),
            self.wf() ==> self@.finite() && n == self@.len(),
    {
        proof {
            broadcast use vstd::seq_lib::seq_to_set_is_finite;

            if self.wf() {
                lemma_location_set(self.items@);
                location_views(self.items@).unique_seq_to_set();
            }
        }
        self.items.len()
    }

    pub fn is_empty(&self) -> (b: bool)
        ensures
            b == (self@ == Set::<LocationView>::empty()),
    {
        let b = self.items.len() == 0;
        proof {
            if b {
                assert(self@ =~= Set::<LocationView>::empty());
            } else {
                assert(self@.contains(self.items@[0]@));
            }
        }
        b
    }

    pub fn contains(&self, loc: &Location) -> (b: bool)
        ensures
            b == self@.contains(loc@),
    {
        let mut i: usize = 0;
        while i < self.items.len()
            invariant
                i <= self.items@.len(),
                forall|j: int| 0 <= j < i ==> (#[trigger] self.items@[j])@ != loc@,
            decreases self.items@.len() - i,
        {
            if self.items[i] == *loc {
                return true;
            }
            i += 1;
        }
        false
    }

    /// Adds `loc`; a location that is there already is not kept twice.
    pub fn insert(&mut self, loc: Location)
        ensures
            final(self)@ == old(self)@.insert(loc@),
            old(self).wf() ==> final(self).wf(),
    {
        if !self.contains(&loc) {
            self.items.push(loc);
            proof {
                if old(self).wf() {
                    let t = location_views(self.items@);
                    let before = location_views(old(self).items@);
                    assert forall|i: int, j: int|
                        0 <= i < t.len() && 0 <= j < t.len() && i != j implies t[i] != t[j] by {
                        if i < before.len() && j < before.len() {
                            assert(before[i] != before[j]);
                        } else if i < before.len() {
                            assert(old(self).items@[i]@ == t[i]);
                        } else {
                            assert(old(self).items@[j]@ == t[j]);
                        }
                    }
                }
            }
            assert forall|q: LocationView| self@.contains(q) <==> old(self)@.insert(
                loc@,
            ).contains(q) by {
                if old(self)@.insert(loc@).contains(q) {
                    if q == loc@ {
                        assert(self.items@[old(self).items@.len() as int]@ == q);
                    } else {
                        let i = choose|i: int|
                            0 <= i < old(self).items@.len() && (#[trigger] old(self).items@[i])@
                                == q;
                        assert(self.items@[i]@ == q);
                    }
                }
            }
        }
        assert(self@ =~= old(self)@.insert(loc@));
    }

    /// Adds every location of `other`.
    pub fn extend(&mut self, other: &LocationSet)
        ensures
            final(self)@ == old(self)@.union(other@),
            old(self).wf() ==> final(self).wf(),
    {
        let mut i: usize = 0;
        while i < other.items.len()
            invariant
                i <= other.items@.len(),
                self@ == old(self)@.union(location_set(other.items@.take(i as int))),
                old(self).wf() ==> self.wf(),
            decreases other.items@.len() - i,
        {
            let ghost before = self@;
            self.insert(other.items[i].clone());
            proof {
                let s0 = other.items@.take(i as int);
                let s1 = other.items@.take(i + 1);
                assert forall|q: LocationView|
                    location_set(s1).contains(q) <==> location_set(s0).insert(
                        other.items@[i as int]@,
                    ).contains(q) by {
                    if location_set(s1).contains(q) {
                        let j = choose|j: int| 0 <= j < s1.len() && (#[trigger] s1[j])@ == q;
                        if j < i {
                            assert(s0[j]@ == q);
                        }
                    }
                    if location_set(s0).contains(q) {
                        let j = choose|j: int| 0 <= j < s0.len() && (#[trigger] s0[j])@ == q;
                        assert(s1[j]@ == q);
                    }
                    if q == other.items@[i as int]@ {
                        assert(s1[i as int]@ == q);
                    }
                }
                assert(location_set(s1) =~= location_set(s0).insert(other.items@[i as int]@));
                assert(self@ =~= old(self)@.union(location_set(s1)));
            }
            i += 1;
        }
        proof {
            assert(other.items@.take(other.items@.len() as int) =~= other.items@);
            assert(location_set(other.items@.take(0)) =~= Set::<LocationView>::empty());
        }
    }
}

impl Clone for LocationSet {
    fn clone(&self) -> (r: Self)
        ensures
            r@ == self@,
            r.wf(),
    {
        let mut r = LocationSet::new();
        r.extend(self);
        assert(r@ =~= self@);
        r
    }
}

} // verus!
