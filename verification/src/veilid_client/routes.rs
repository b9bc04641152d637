//! Private routes: anonymous paths of several hops through the overlay.

use vstd::prelude::*;
use crate::error::{Error, ErrorKind};
use crate::text::copy_bytes;
use crate::trusted::{base64_bytes, base64_decode, base64_encode, base64_text};
use crate::types::{CoarseTimestamp, PersonId};

verus! {

/// Identifies a route.
#[derive(Clone, Debug, PartialEq, Eq, Hash)]
pub struct RouteId(pub String);

/// A private route.
#[derive(Clone, Debug)]
pub struct PrivateRoute {
    /// Identifies the route.
    pub id: RouteId,
    /// The opaque data that stands for the route on the overlay.
    pub route_blob: Vec<u8>,
    /// When the route was made.
    pub created_at: CoarseTimestamp,
    /// Whether the route can still be used.
    pub valid: bool,
}

impl PrivateRoute {
    /// The opaque data of the route.
    pub open spec fn blob(&self) -> Seq<u8> {
        self.route_blob@
    }

    /// A valid route made at time `created_at`.
    pub fn new_at(id: RouteId, route_blob: Vec<u8>, created_at: CoarseTimestamp) -> (route: Self)
        ensures
            route.id == id,
            route.blob() == route_blob@,
            route.created_at == created_at,
            route.valid,
    {
        PrivateRoute { id, route_blob, created_at, valid: true }
    }

    /// A valid route made now.
    pub fn new(id: RouteId, route_blob: Vec<u8>) -> (route: Self)
        ensures
            route.id == id,
            route.blob() == route_blob@,
            route.valid,
    {
        Self::new_at(id, route_blob, CoarseTimestamp::now())
    }

    /// The opaque data of the route.
    pub fn route_blob(&self) -> (blob: &[u8])
        ensures
            blob@ == self.blob(),
    {
        self.route_blob.as_slice()
    }

    /// Marks the route as no longer usable.
    pub fn invalidate(&mut self)
        ensures
            !final(self).valid,
            final(self).id == old(self).id,
            final(self).blob() == old(self).blob(),
            final(self).created_at == old(self).created_at,
    {
        self.valid = false;
    }

    /// Whether the route can still be used.
    pub fn is_valid(&self) -> (valid: bool)
        ensures
            valid == self.valid,
    {
        self.valid
    }

    /// The route data as base64 text, for sharing.
    pub fn export(&self) -> (text: Result<String, Error>)
        ensures
            text matches Ok(t) && t@ == base64_text(self.blob()) && base64_bytes(t@) == Some(self.blob()),
    {
        Ok(base64_encode(self.route_blob.as_slice()))
    }

    /// The valid route, made now, whose data the base64 text spells. Text
    /// that is not base64 is a serialization error.
    pub fn import(id: RouteId, encoded: &str) -> (route: Result<Self, Error>)
        ensures
            match base64_bytes(encoded@) {
                Some(bytes) => route matches Ok(r) && r.id == id && r.blob() == bytes && r.valid,
                None => route matches Err(e) && e.spec_kind() == ErrorKind::Serialization,
            },
    {
        match base64_decode(encoded) {
            Some(route_blob) => Ok(Self::new(id, route_blob)),
            None => Err(Error::Serialization("Base64 decode failed".to_owned())),
        }
    }
}

/// The route of one persona.
pub struct RouteEntry {
    pub persona: PersonId,
    pub route: PrivateRoute,
}

/// The private routes of the personas: at most one for each.
pub struct RouteManager {
    routes: Vec<RouteEntry>,
}

/// Whether the persona is among the entries.
pub open spec fn listed(entries: Seq<RouteEntry>, persona: PersonId) -> bool {
    exists|i: int| 0 <= i < entries.len() && (#[trigger] entries[i]).persona == persona
}

/// Whether no persona occurs twice.
pub open spec fn distinct_personas(entries: Seq<RouteEntry>) -> bool {
    forall|i: int, j: int|
        0 <= i < entries.len() && 0 <= j < entries.len() && i != j ==> (#[trigger] entries[i]).persona != (
        #[trigger] entries[j]).persona
}

impl RouteManager {
    #[verifier::type_invariant]
    spec fn well_formed(self) -> bool {
        distinct_personas(self.routes@)
    }

    /// The entries, in the order in which personas first got a route.
    pub closed spec fn entries(&self) -> Seq<RouteEntry> {
        self.routes@
    }

    /// Whether the persona has a route.
    pub open spec fn has_route(&self, persona: PersonId) -> bool {
        listed(self.entries(), persona)
    }

    /// The route of the persona.
    pub open spec fn route_of(&self, persona: PersonId) -> PrivateRoute {
        let i = choose|i: int| 0 <= i < self.entries().len() && (#[trigger] self.entries()[i]).persona == persona;
        self.entries()[i].route
    }

    /// A manager without routes.
    pub fn new() -> (manager: Self)
        ensures
            manager.entries().len() == 0,
    {
        RouteManager { routes: Vec::new() }
    }

    fn position(routes: &Vec<RouteEntry>, persona: PersonId) -> (at: Option<usize>)
        ensures
            at matches Some(i) ==> i < routes@.len() && routes@[i as int].persona == persona,
            at.is_none() ==> forall|t: int| 0 <= t < routes@.len() ==> (#[trigger] routes@[t]).persona != persona,
    {
        let mut i: usize = 0;
        while i < routes.len()
            invariant
                i <= routes@.len(),
                forall|t: int| 0 <= t < i ==> (#[trigger] routes@[t]).persona != persona,
            decreases routes@.len() - i,
        {
            if routes[i].persona == persona {
                return Some(i);
            }
            i += 1;
        }
        None
    }

    /// Gives the persona the route, in place of any route it had.
    pub fn add_route(&mut self, persona: PersonId, route: PrivateRoute)
        ensures
            final(self).has_route(persona),
            final(self).route_of(persona) == route,
            forall|other: PersonId|
                other != persona ==> (#[trigger] final(self).has_route(other) == old(self).has_route(other)),
            final(self).entries().len() == if old(self).has_route(persona) {
                old(self).entries().len()
            } else {
                old(self).entries().len() + 1
            },
            old(self).has_route(persona) ==> exists|i: int|
                0 <= i < old(self).entries().len() && (#[trigger] old(self).entries()[i]).persona == persona
                    && final(self).entries() == old(self).entries().update(i, RouteEntry { persona, route }),
            !old(self).has_route(persona) ==> final(self).entries() == old(self).entries().push(
                RouteEntry { persona, route },
            ),
    {
        proof {
            use_type_invariant(&*self);
        }
        let mut routes: Vec<RouteEntry> = Vec::new();
        std::mem::swap(&mut routes, &mut self.routes);
        let ghost before = routes@;
        match Self::position(&routes, persona) {
            Some(i) => {
                routes.set(i, RouteEntry { persona, route });
                proof {
                    let after = routes@;
                    assert forall|x: int, y: int| 0 <= x < after.len() && 0 <= y < after.len() && x != y implies (
                    #[trigger] after[x]).persona != (#[trigger] after[y]).persona by {
                        assert(after[x].persona == before[x].persona);
                        assert(after[y].persona == before[y].persona);
                    }
                    assert(after[i as int].persona == persona);
                    assert forall|other: PersonId| other != persona implies #[trigger] listed(after, other) == listed(
                        before,
                        other,
                    ) by {
                        if exists|k: int| 0 <= k < after.len() && (#[trigger] after[k]).persona == other {
                            let k = choose|k: int| 0 <= k < after.len() && (#[trigger] after[k]).persona == other;
                            assert(before[k].persona == other);
                        }
                        if exists|k: int| 0 <= k < before.len() && (#[trigger] before[k]).persona == other {
                            let k = choose|k: int| 0 <= k < before.len() && (#[trigger] before[k]).persona == other;
                            assert(after[k].persona == other);
                        }
                    }
                    assert(before[i as int].persona == persona);
                }
            },
            None => {
                routes.push(RouteEntry { persona, route });
                proof {
                    let after = routes@;
                    let last = after.len() - 1;
                    assert forall|x: int, y: int| 0 <= x < after.len() && 0 <= y < after.len() && x != y implies (
                    #[trigger] after[x]).persona != (#[trigger] after[y]).persona by {
                        if x < last {
                            assert(after[x] == before[x]);
                        }
                        if y < last {
                            assert(after[y] == before[y]);
                        }
                    }
                    assert(after[last].persona == persona);
                    assert forall|other: PersonId| other != persona implies #[trigger] listed(after, other) == listed(
                        before,
                        other,
                    ) by {
                        if exists|k: int| 0 <= k < after.len() && (#[trigger] after[k]).persona == other {
                            let k = choose|k: int| 0 <= k < after.len() && (#[trigger] after[k]).persona == other;
                            assert(before[k] == after[k]);
                        }
                        if exists|k: int| 0 <= k < before.len() && (#[trigger] before[k]).persona == other {
                            let k = choose|k: int| 0 <= k < before.len() && (#[trigger] before[k]).persona == other;
                            assert(after[k] == before[k]);
                        }
                    }
                }
            },
        }
        proof {
            let after = routes@;
            let at = choose|k: int| 0 <= k < after.len() && (#[trigger] after[k]).persona == persona;
            assert(after[at].route == route);
        }
        self.routes = routes;
    }

    /// The route of the persona, if it has one.
    pub fn get_route(&self, persona: PersonId) -> (route: Option<&PrivateRoute>)
        ensures
            route.is_some() <==> self.has_route(persona),
            route matches Some(r) ==> *r == self.route_of(persona),
    {
        proof {
            use_type_invariant(self);
        }
        match Self::position(&self.routes, persona) {
            Some(i) => {
                proof {
                    let k = choose|k: int|
                        0 <= k < self.routes@.len() && (#[trigger] self.routes@[k]).persona == persona;
                    assert(k == i);
                }
                Some(&self.routes[i].route)
            },
            None => None,
        }
    }

    /// Takes the route of the persona away and hands it back, if there was one.
    pub fn remove_route(&mut self, persona: PersonId) -> (route: Option<PrivateRoute>)
        ensures
            !final(self).has_route(persona),
            route.is_some() <==> old(self).has_route(persona),
            route matches Some(r) ==> r == old(self).route_of(persona),
            forall|other: PersonId|
                other != persona ==> (#[trigger] final(self).has_route(other) == old(self).has_route(other)),
            final(self).entries().len() == if old(self).has_route(persona) {
                old(self).entries().len() - 1
            } else {
                old(self).entries().len() as int
            },
            old(self).has_route(persona) ==> exists|i: int|
                0 <= i < old(self).entries().len() && (#[trigger] old(self).entries()[i]).persona == persona
                    && final(self).entries() == old(self).entries().remove(i),
            !old(self).has_route(persona) ==> final(self).entries() == old(self).entries(),
    {
        proof {
            use_type_invariant(&*self);
        }
        let mut routes: Vec<RouteEntry> = Vec::new();
        std::mem::swap(&mut routes, &mut self.routes);
        let ghost before = routes@;
        let taken = match Self::position(&routes, persona) {
            Some(i) => {
                proof {
                    let k = choose|k: int| 0 <= k < before.len() && (#[trigger] before[k]).persona == persona;
                    assert(k == i);
                }
                let entry = routes.remove(i);
                proof {
                    let after = routes@;
                    assert forall|x: int| 0 <= x < after.len() implies #[trigger] after[x] == before[if x < i {
                        x
                    } else {
                        x + 1
                    }] by {}
                    assert forall|x: int, y: int| 0 <= x < after.len() && 0 <= y < after.len() && x != y implies (
                    #[trigger] after[x]).persona != (#[trigger] after[y]).persona by {
                        let ox = if x < i { x } else { x + 1 };
                        let oy = if y < i { y } else { y + 1 };
                        assert(after[x] == before[ox]);
                        assert(after[y] == before[oy]);
                    }
                    assert forall|k: int| 0 <= k < after.len() implies (#[trigger] after[k]).persona != persona by {
                        let ok = if k < i { k } else { k + 1 };
                        assert(after[k] == before[ok]);
                    }
                    assert forall|other: PersonId| other != persona implies #[trigger] listed(after, other) == listed(
                        before,
                        other,
                    ) by {
                        if exists|k: int| 0 <= k < after.len() && (#[trigger] after[k]).persona == other {
                            let k = choose|k: int| 0 <= k < after.len() && (#[trigger] after[k]).persona == other;
                            let ok = if k < i { k } else { k + 1 };
                            assert(after[k] == before[ok]);
                        }
                        if exists|k: int| 0 <= k < before.len() && (#[trigger] before[k]).persona == other {
                            let k = choose|k: int| 0 <= k < before.len() && (#[trigger] before[k]).persona == other;
                            let nk = if k < i { k } else { k - 1 };
                            assert(after[nk] == before[k]);
                        }
                    }
                }
                Some(entry.route)
            },
            None => None,
        };
        self.routes = routes;
        taken
    }

    /// Every persona with its route.
    pub fn list_routes(&self) -> (list: Vec<(PersonId, &PrivateRoute)>)
        ensures
            list@.len() == self.entries().len(),
            forall|i: int|
                0 <= i < list@.len() ==> (#[trigger] list@[i]).0 == self.entries()[i].persona && *list@[i].1
                    == self.entries()[i].route,
    {
        let mut list: Vec<(PersonId, &PrivateRoute)> = Vec::new();
        let mut i: usize = 0;
        while i < self.routes.len()
            invariant
                i <= self.routes@.len(),
                list@.len() == i,
                forall|t: int|
                    0 <= t < i ==> (#[trigger] list@[t]).0 == self.routes@[t].persona && *list@[t].1
                        == self.routes@[t].route,
            decreases self.routes@.len() - i,
        {
            list.push((self.routes[i].persona, &self.routes[i].route));
            i += 1;
        }
        list
    }

    /// The number of routes.
    pub fn count(&self) -> (n: usize)
        ensures
            n == self.entries().len(),
    {
        self.routes.len()
    }

    /// Marks every route as no longer usable.
    pub fn invalidate_all(&mut self)
        ensures
            final(self).entries().len() == old(self).entries().len(),
            forall|i: int|
                0 <= i < final(self).entries().len() ==> {
                    &&& (#[trigger] final(self).entries()[i]).persona == old(self).entries()[i].persona
                    &&& !final(self).entries()[i].route.valid
                    &&& final(self).entries()[i].route.id == old(self).entries()[i].route.id
                    &&& final(self).entries()[i].route.blob() == old(self).entries()[i].route.blob()
                    &&& final(self).entries()[i].route.created_at == old(self).entries()[i].route.created_at
                },
    {
        proof {
            use_type_invariant(&*self);
        }
        let mut done: Vec<RouteEntry> = Vec::new();
        let mut i: usize = 0;
        while i < self.routes.len()
            invariant
                i <= self.routes@.len(),
                done@.len() == i,
                forall|t: int|
                    0 <= t < i ==> {
                        &&& (#[trigger] done@[t]).persona == self.routes@[t].persona
                        &&& !done@[t].route.valid
                        &&& done@[t].route.id == self.routes@[t].route.id
                        &&& done@[t].route.blob() == self.routes@[t].route.blob()
                        &&& done@[t].route.created_at == self.routes@[t].route.created_at
                    },
            decreases self.routes@.len() - i,
        {
            let entry = &self.routes[i];
            done.push(
                RouteEntry {
                    persona: entry.persona,
                    route: PrivateRoute {
                        id: RouteId(entry.route.id.0.clone()),
                        route_blob: copy_bytes(entry.route.route_blob.as_slice()),
                        created_at: entry.route.created_at,
                        valid: false,
                    },
                },
            );
            i += 1;
        }
        proof {
            assert forall|x: int, y: int| 0 <= x < done@.len() && 0 <= y < done@.len() && x != y implies (
            #[trigger] done@[x]).persona != (#[trigger] done@[y]).persona by {
                assert(done@[x].persona == self.routes@[x].persona);
                assert(done@[y].persona == self.routes@[y].persona);
            }
        }
        self.routes = done;
    }
}

impl Default for RouteManager {
    fn default() -> (manager: Self)
        ensures
            manager.entries().len() == 0,
    {
        Self::new()
    }
}

} // verus!
