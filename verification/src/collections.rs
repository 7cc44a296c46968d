//! Hash maps from places and ids to indices, kept in `hashbrown` tables.

use vstd::prelude::*;
use crate::mir::{DefId, Location, Place, PlaceView};
use crate::wpa::{FullPlaceRef, FullPlaceView};

verus! {

/// A `hashbrown` map from places to indices.
#[verifier::external_body]
pub struct PlaceIndex {
    inner: hashbrown::HashMap<Place, usize>,
}

/// What a `PlaceIndex` holds.
pub uninterp spec fn place_index_contents(m: PlaceIndex) -> Map<PlaceView, usize>;

impl PlaceIndex {
    /// `hashbrown::HashMap::new`: an empty map.
    #[verifier::external_body]
    pub(crate) fn new() -> (r: PlaceIndex)
        ensures
            place_index_contents(r).dom() == Set::<PlaceView>::empty(),
    {
        PlaceIndex { inner: hashbrown::HashMap::new() }
    }

    /// `hashbrown::HashMap::get`: the index stored for the place, if any.
    #[verifier::external_body]
    pub(crate) fn get(&self, k: &Place) -> (r: Option<usize>)
        ensures
            r == (if place_index_contents(*self).contains_key(k@) {
                Some(place_index_contents(*self)[k@])
            } else {
                None::<usize>
            }),
    {
        self.inner.get(k).copied()
    }

    /// `hashbrown::HashMap::insert`: stores `v` for the place, replacing any earlier index.
    #[verifier::external_body]
    pub(crate) fn insert(&mut self, k: Place, v: usize)
        ensures
            place_index_contents(*final(self)) == place_index_contents(*old(self)).insert(k@, v),
    {
        self.inner.insert(k, v);
    }
}

/// A `hashbrown` map from function-qualified places to indices.
#[verifier::external_body]
pub struct FullPlaceIndex {
    inner: hashbrown::HashMap<FullPlaceRef, usize>,
}

/// What a `FullPlaceIndex` holds.
pub uninterp spec fn full_place_index_contents(m: FullPlaceIndex) -> Map<FullPlaceView, usize>;

impl FullPlaceIndex {
    /// `hashbrown::HashMap::new`: an empty map.
    #[verifier::external_body]
    pub(crate) fn new() -> (r: FullPlaceIndex)
        ensures
            full_place_index_contents(r).dom() == Set::<FullPlaceView>::empty(),
    {
        FullPlaceIndex { inner: hashbrown::HashMap::new() }
    }

    /// `hashbrown::HashMap::get`: the index stored for the place, if any.
    #[verifier::external_body]
    pub(crate) fn get(&self, k: &FullPlaceRef) -> (r: Option<usize>)
        ensures
            r == (if full_place_index_contents(*self).contains_key(k@) {
                Some(full_place_index_contents(*self)[k@])
            } else {
                None::<usize>
            }),
    {
        self.inner.get(k).copied()
    }

    /// `hashbrown::HashMap::insert`: stores `v` for the place, replacing any earlier index.
    #[verifier::external_body]
    pub(crate) fn insert(&mut self, k: FullPlaceRef, v: usize)
        ensures
            full_place_index_contents(*final(self)) == full_place_index_contents(*old(self)).insert(
                k@,
                v,
            ),
    {
        self.inner.insert(k, v);
    }
}

/// A `hashbrown` map from ids to indices.
#[verifier::external_body]
pub struct IdIndex {
    inner: hashbrown::HashMap<u32, usize>,
}

/// What an `IdIndex` holds.
pub uninterp spec fn id_index_contents(m: IdIndex) -> Map<u32, usize>;

impl IdIndex {
    /// `hashbrown::HashMap::new`: an empty map.
    #[verifier::external_body]
    pub(crate) fn new() -> (r: IdIndex)
        ensures
            id_index_contents(r).dom() == Set::<u32>::empty(),
    {
        IdIndex { inner: hashbrown::HashMap::new() }
    }

    /// `hashbrown::HashMap::get`: the index stored for the id, if any.
    #[verifier::external_body]
    pub(crate) fn get(&self, k: u32) -> (r: Option<usize>)
        ensures
            r == (if id_index_contents(*self).contains_key(k) {
                Some(id_index_contents(*self)[k])
            } else {
                None::<usize>
            }),
    {
        self.inner.get(&k).copied()
    }

    /// `hashbrown::HashMap::insert`: stores `v` for the id, replacing any earlier index.
    #[verifier::external_body]
    pub(crate) fn insert(&mut self, k: u32, v: usize)
        ensures
            id_index_contents(*final(self)) == id_index_contents(*old(self)).insert(k, v),
    {
        self.inner.insert(k, v);
    }
}

/// A `hashbrown` set of definition ids.
#[verifier::external_body]
pub struct DefIdSet {
    inner: hashbrown::HashSet<DefId>,
}

/// What a `DefIdSet` holds.
pub uninterp spec fn def_id_set_contents(m: DefIdSet) -> Set<DefId>;

impl DefIdSet {
    /// `hashbrown::HashSet::new`: an empty set.
    #[verifier::external_body]
    pub(crate) fn new() -> (r: DefIdSet)
        ensures
            def_id_set_contents(r) == Set::<DefId>::empty(),
    {
        DefIdSet { inner: hashbrown::HashSet::new() }
    }

    /// `hashbrown::HashSet::insert`: adds the id; true when it was not there before.
    #[verifier::external_body]
    pub(crate) fn insert(&mut self, k: DefId) -> (r: bool)
        ensures
            def_id_set_contents(*final(self)) == def_id_set_contents(*old(self)).insert(k),
            r == !def_id_set_contents(*old(self)).contains(k),
    {
        self.inner.insert(k)
    }
}

/// A set of places shared by every copy of a state: each copy holds a
/// reference-counted handle to one `HashSet`.
#[verifier::external_body]
pub struct SharedPlaceSet {
    inner: std::rc::Rc<std::cell::RefCell<std::collections::HashSet<FullPlaceRef>>>,
}

/// What a `SharedPlaceSet` holds.
pub uninterp spec fn shared_place_set_contents(s: SharedPlaceSet) -> Set<FullPlaceView>;

impl SharedPlaceSet {
    /// `Rc::new(RefCell::new(HashSet::new()))`: a new, empty set.
    #[verifier::external_body]
    pub(crate) fn new() -> (r: SharedPlaceSet)
        ensures
            shared_place_set_contents(r) == Set::<FullPlaceView>::empty(),
    {
        SharedPlaceSet { inner: std::rc::Rc::new(std::cell::RefCell::new(std::collections::HashSet::new())) }
    }

    /// `HashSet::len` through the shared handle: the number of places held.
    #[verifier::external_body]
    pub(crate) fn len(&self) -> (r: usize)
        ensures
            r == shared_place_set_contents(*self).len(),
    {
        self.inner.borrow().len()
    }

    /// `Rc::clone`: another handle to the same set.
    #[verifier::external_body]
    pub(crate) fn share(&self) -> (r: SharedPlaceSet)
        ensures
            r == *self,
    {
        SharedPlaceSet { inner: std::rc::Rc::clone(&self.inner) }
    }
}

/// A `hashbrown` map from places to the locations where they are defined.
#[verifier::external_body]
pub struct PlaceLocations {
    inner: hashbrown::HashMap<Place, Vec<Location>>,
}

/// What a `PlaceLocations` holds.
pub uninterp spec fn place_locations_contents(m: PlaceLocations) -> Map<PlaceView, Seq<Location>>;

/// The locations recorded for a place (none when it has no entry).
pub open spec fn locations_of(m: Map<PlaceView, Seq<Location>>, k: PlaceView) -> Seq<Location> {
    if m.contains_key(k) { m[k] } else { Seq::empty() }
}

impl PlaceLocations {
    /// `hashbrown::HashMap::new`: an empty map.
    #[verifier::external_body]
    pub(crate) fn new() -> (r: PlaceLocations)
        ensures
            place_locations_contents(r).dom() == Set::<PlaceView>::empty(),
    {
        PlaceLocations { inner: hashbrown::HashMap::new() }
    }

    /// `hashbrown::HashMap::get`: the locations recorded for the place, if any.
    #[verifier::external_body]
    pub(crate) fn get(&self, k: &Place) -> (r: Option<&Vec<Location>>)
        ensures
            r is Some == place_locations_contents(*self).contains_key(k@),
            r matches Some(v) ==> v@ == place_locations_contents(*self)[k@],
    {
        self.inner.get(k)
    }

    /// `entry(k).or_default().push(loc)`: appends a location to the place's list.
    #[verifier::external_body]
    pub(crate) fn push(&mut self, k: Place, loc: Location)
        ensures
            place_locations_contents(*final(self)) == place_locations_contents(*old(self)).insert(
                k@,
                locations_of(place_locations_contents(*old(self)), k@).push(loc),
            ),
    {
        self.inner.entry(k).or_default().push(loc);
    }
}

} // verus!
