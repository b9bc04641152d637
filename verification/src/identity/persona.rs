//! Personas: the identities that one person keeps apart.

use vstd::prelude::*;
use crate::error::{Error, ErrorKind};
use crate::identity::Identity;
use crate::identity::keypair::{seeded, signing_label};
use crate::trusted::{ed25519_public_key, hkdf_sha512, sha256_digest};
use crate::types::{Fingerprint, PersonId};

verus! {

/// What is shown of a persona in a list.
#[derive(Clone, Debug)]
pub struct PersonaSummary {
    pub id: PersonId,
    pub name: String,
    pub fingerprint: Fingerprint,
    pub is_primary: bool,
    pub is_active: bool,
}

/// The personas of one person: the identities, which of them is in use,
/// and which is the primary one.
pub struct PersonaManager {
    personas: Vec<Identity>,
    active: Option<PersonId>,
    primary: Option<PersonId>,
}

/// Whether an identity with the given identifier is listed.
pub open spec fn holds_persona(personas: Seq<Identity>, id: PersonId) -> bool {
    exists|i: int| 0 <= i < personas.len() && (#[trigger] personas[i]).id == id
}

/// The listed identity with the given identifier.
pub open spec fn persona_of(personas: Seq<Identity>, id: PersonId) -> Identity {
    let i = choose|i: int| 0 <= i < personas.len() && (#[trigger] personas[i]).id == id;
    personas[i]
}

/// How many of the identities are marked primary.
pub open spec fn primaries(personas: Seq<Identity>) -> nat
    decreases personas.len(),
{
    if personas.len() == 0 {
        0
    } else {
        primaries(personas.drop_last()) + if personas.last().is_primary {
            1nat
        } else {
            0nat
        }
    }
}

/// Whether the identities are told apart by their identifiers and exactly
/// the one named `primary`, if any, is marked primary.
pub open spec fn consistent(personas: Seq<Identity>, primary: Option<PersonId>) -> bool {
    &&& forall|i: int, j: int|
        0 <= i < personas.len() && 0 <= j < personas.len() && i != j ==> (#[trigger] personas[i]).id != (
        #[trigger] personas[j]).id
    &&& forall|i: int| 0 <= i < personas.len() ==> ((#[trigger] personas[i]).is_primary <==> Some(personas[i].id) == primary)
}

/// The identities after `identity` was added with `primary` as the primary
/// persona: `identity` stands in the place of the one with its identifier,
/// or else last, and every other identity is marked primary exactly if it
/// is the one named `primary`.
pub open spec fn with_persona(personas: Seq<Identity>, identity: Identity, primary: Option<PersonId>) -> Seq<
    Identity,
> {
    let marked = Seq::new(
        personas.len(),
        |i: int|
            if personas[i].id == identity.id {
                identity
            } else {
                Identity { is_primary: Some(personas[i].id) == primary, ..personas[i] }
            },
    );
    if holds_persona(personas, identity.id) {
        marked
    } else {
        marked.push(identity)
    }
}

/// Adding an identity keeps the rules: identities stay told apart by their
/// identifiers and exactly the primary one is marked primary.
pub proof fn lemma_with_persona(
    personas: Seq<Identity>,
    identity: Identity,
    primary: Option<PersonId>,
    old_primary: Option<PersonId>,
)
    requires
        consistent(personas, old_primary),
        primary == if identity.is_primary {
            Some(identity.id)
        } else if old_primary == Some(identity.id) {
            None
        } else {
            old_primary
        },
    ensures
        consistent(with_persona(personas, identity, primary), primary),
        primaries(with_persona(personas, identity, primary)) <= 1,
        holds_persona(with_persona(personas, identity, primary), identity.id),
        persona_of(with_persona(personas, identity, primary), identity.id) == identity,
        with_persona(personas, identity, primary).len() == if holds_persona(personas, identity.id) {
            personas.len()
        } else {
            personas.len() + 1
        },
{
    let all = with_persona(personas, identity, primary);
    assert forall|i: int| 0 <= i < all.len() implies (#[trigger] all[i]).id == if i < personas.len() {
        personas[i].id
    } else {
        identity.id
    } by {}
    assert forall|i: int, j: int| 0 <= i < all.len() && 0 <= j < all.len() && i != j implies (#[trigger] all[i]).id != (
    #[trigger] all[j]).id by {
        if i < personas.len() && j < personas.len() {
            assert(personas[i].id != personas[j].id);
        } else if i < personas.len() {
            assert(personas[i].id != identity.id);
        } else {
            assert(personas[j].id != identity.id);
        }
    }
    assert forall|i: int| 0 <= i < all.len() implies ((#[trigger] all[i]).is_primary <==> Some(all[i].id) == primary) by {
        if i < personas.len() {
            assert(personas[i].is_primary <==> Some(personas[i].id) == old_primary);
        }
    }
    lemma_at_most_one_primary(all, primary);
    if holds_persona(personas, identity.id) {
        let k = choose|k: int| 0 <= k < personas.len() && (#[trigger] personas[k]).id == identity.id;
        assert(all[k] == identity);
    } else {
        assert(all[all.len() - 1] == identity);
    }
    let at = choose|k: int| 0 <= k < all.len() && (#[trigger] all[k]).id == identity.id;
    assert(all[at] == identity);
}

/// Where identities are told apart by their identifiers and only the one
/// named primary is marked so, at most one identity is marked primary.
pub proof fn lemma_at_most_one_primary(personas: Seq<Identity>, primary: Option<PersonId>)
    requires
        consistent(personas, primary),
    ensures
        primaries(personas) <= 1,
        primaries(personas) == 1 <==> (primary.is_some() && holds_persona(personas, primary.unwrap())),
    decreases personas.len(),
{
    if personas.len() > 0 {
        let front = personas.drop_last();
        let last = personas.len() - 1;
        assert forall|i: int, j: int| 0 <= i < front.len() && 0 <= j < front.len() && i != j implies (
        #[trigger] front[i]).id != (#[trigger] front[j]).id by {
            assert(front[i] == personas[i]);
            assert(front[j] == personas[j]);
        }
        assert forall|i: int| 0 <= i < front.len() implies ((#[trigger] front[i]).is_primary <==> Some(front[i].id)
            == primary) by {
            assert(front[i] == personas[i]);
        }
        lemma_at_most_one_primary(front, primary);
        if personas[last].is_primary {
            if holds_persona(front, primary.unwrap()) {
                let i = choose|i: int| 0 <= i < front.len() && (#[trigger] front[i]).id == primary.unwrap();
                assert(personas[i] == front[i]);
                assert(personas[i].id == personas[last].id);
                assert(false);
            }
            assert(personas[last].id == primary.unwrap());
        } else {
            if primary.is_some() && holds_persona(personas, primary.unwrap()) {
                let i = choose|i: int| 0 <= i < personas.len() && (#[trigger] personas[i]).id == primary.unwrap();
                assert(i != last);
                assert(front[i] == personas[i]);
            }
            if primary.is_some() && holds_persona(front, primary.unwrap()) {
                let i = choose|i: int| 0 <= i < front.len() && (#[trigger] front[i]).id == primary.unwrap();
                assert(personas[i] == front[i]);
            }
        }
    }
}

impl PersonaManager {
    #[verifier::type_invariant]
    spec fn well_formed(self) -> bool {
        consistent(self.personas@, self.primary)
    }

    /// The identities, in the order in which they were added.
    pub closed spec fn personas(&self) -> Seq<Identity> {
        self.personas@
    }

    /// The identifier of the persona in use.
    pub closed spec fn active(&self) -> Option<PersonId> {
        self.active
    }

    /// The identifier of the primary persona.
    pub closed spec fn primary(&self) -> Option<PersonId> {
        self.primary
    }

    /// A manager without personas.
    pub fn new() -> (manager: Self)
        ensures
            manager.personas().len() == 0,
            manager.active().is_none(),
            manager.primary().is_none(),
    {
        PersonaManager { personas: Vec::new(), active: None, primary: None }
    }

    /// Says that the rules of the manager hold: identities are told apart by
    /// their identifiers, and exactly the primary one is marked primary.
    pub fn check(&self)
        ensures
            consistent(self.personas(), self.primary()),
            primaries(self.personas()) <= 1,
    {
        proof {
            use_type_invariant(self);
            lemma_at_most_one_primary(self.personas@, self.primary);
        }
    }

    fn position(personas: &Vec<Identity>, id: PersonId) -> (at: Option<usize>)
        ensures
            at matches Some(i) ==> i < personas@.len() && personas@[i as int].id == id,
            at.is_none() ==> !holds_persona(personas@, id),
    {
        let mut i: usize = 0;
        while i < personas.len()
            invariant
                i <= personas@.len(),
                forall|t: int| 0 <= t < i ==> (#[trigger] personas@[t]).id != id,
            decreases personas@.len() - i,
        {
            if personas[i].id == id {
                return Some(i);
            }
            i += 1;
        }
        None
    }

    /// Creates a persona with fresh keys and adds it; see
    /// [`add_persona`](Self::add_persona).
    pub fn create_persona(&mut self, name: &str, is_primary: bool) -> (created: Result<PersonId, Error>)
        ensures
            created matches Ok(id) && holds_persona(final(self).personas(), id) && persona_of(
                final(self).personas(),
                id,
            ).name@ == name@ && persona_of(final(self).personas(), id).is_primary == is_primary
                && persona_of(final(self).personas(), id).mailbox_descriptor.is_none(),
            created matches Ok(id) && final(self).personas() == with_persona(
                old(self).personas(),
                persona_of(final(self).personas(), id),
                final(self).primary(),
            ),
            created matches Ok(id) && final(self).primary() == if is_primary {
                Some(id)
            } else if old(self).primary() == Some(id) {
                None
            } else {
                old(self).primary()
            },
            created matches Ok(id) && final(self).active() == if is_primary && old(self).active().is_none() {
                Some(id)
            } else {
                old(self).active()
            },
            consistent(final(self).personas(), final(self).primary()),
            primaries(final(self).personas()) <= 1,
    {
        let identity = match Identity::generate(name, is_primary) {
            Ok(identity) => identity,
            Err(e) => {
                proof {
                    use_type_invariant(&*self);
                    lemma_at_most_one_primary(self.personas@, self.primary);
                }
                return Err(e);
            },
        };
        self.add_persona(identity)
    }

    /// Adds an identity as a persona. It takes the place of a persona with
    /// the same identifier, or else comes last. If the identity is marked
    /// primary it becomes the primary persona, and the one that was primary
    /// is no longer marked so; it also comes into use if no persona is in
    /// use. If it is not marked primary and takes the place of the primary
    /// persona, there is no primary persona any more.
    pub fn add_persona(&mut self, identity: Identity) -> (added: Result<PersonId, Error>)
        ensures
            added == Ok::<PersonId, Error>(identity.id),
            final(self).primary() == if identity.is_primary {
                Some(identity.id)
            } else if old(self).primary() == Some(identity.id) {
                None
            } else {
                old(self).primary()
            },
            final(self).active() == if identity.is_primary && old(self).active().is_none() {
                Some(identity.id)
            } else {
                old(self).active()
            },
            final(self).personas() == with_persona(old(self).personas(), identity, final(self).primary()),
            holds_persona(final(self).personas(), identity.id),
            persona_of(final(self).personas(), identity.id) == identity,
            consistent(final(self).personas(), final(self).primary()),
            primaries(final(self).personas()) <= 1,
    {
        proof {
            use_type_invariant(&*self);
        }
        let id = identity.id;
        let is_primary = identity.is_primary;
        let primary = if is_primary {
            Some(id)
        } else if self.primary == Some(id) {
            None
        } else {
            self.primary
        };
        let place = Self::position(&self.personas, id);
        let mut taken_out: Vec<Identity> = Vec::new();
        std::mem::swap(&mut taken_out, &mut self.personas);
        let ghost before = taken_out@;
        let mut rest = turned(taken_out);
        let mut kept: Vec<Identity> = Vec::new();
        let mut pending: Option<Identity> = Some(identity);
        while rest.len() > 0
            invariant
                kept@.len() + rest@.len() == before.len(),
                forall|t: int| 0 <= t < rest@.len() ==> #[trigger] rest@[t] == before[before.len() - 1 - t],
                place matches Some(k) ==> k < before.len() && before[k as int].id == id,
                place.is_none() ==> !holds_persona(before, id),
                pending == if place matches Some(k) && k < kept@.len() {
                    None::<Identity>
                } else {
                    Some(identity)
                },
                forall|t: int|
                    0 <= t < kept@.len() ==> #[trigger] kept@[t] == if place matches Some(k) && k == t {
                        identity
                    } else {
                        Identity { is_primary: Some(before[t].id) == primary, ..before[t] }
                    },
            decreases rest@.len(),
        {
            let at: usize = kept.len();
            let mut next = rest.pop().unwrap();
            proof {
                assert(next == before[at as int]);
            }
            if place == Some(at) {
                match pending.take() {
                    Some(replacement) => {
                        kept.push(replacement);
                    },
                    None => {
                        kept.push(next);
                    },
                }
            } else {
                next.is_primary = match primary {
                    Some(p) => p == next.id,
                    None => false,
                };
                kept.push(next);
            }
        }
        match pending.take() {
            Some(last) => {
                kept.push(last);
            },
            None => {},
        }
        proof {
            let all = kept@;
            let target = with_persona(before, identity, primary);
            lemma_with_persona(before, identity, primary, old(self).primary());
            match place {
                Some(k) => {
                    assert(before[k as int].id == id);
                    assert(holds_persona(before, id));
                    assert forall|t: int| 0 <= t < all.len() implies all[t] == target[t] by {
                        if t != k {
                            assert(before[t].id != before[k as int].id);
                        }
                    }
                },
                None => {
                    assert forall|t: int| 0 <= t < before.len() implies all[t] == target[t] by {
                        assert(before[t].id != id);
                    }
                    assert(all[before.len() as int] == identity);
                },
            }
            assert(all =~= target);
        }
        if is_primary && self.active.is_none() {
            self.active = Some(id);
        }
        self.primary = None;
        self.personas = Vec::new();
        self.primary = primary;
        self.personas = kept;
        Ok(id)
    }

    /// The persona with the given identifier.
    pub fn get_persona(&self, id: PersonId) -> (persona: Option<&Identity>)
        ensures
            persona.is_some() <==> holds_persona(self.personas(), id),
            persona matches Some(p) ==> *p == persona_of(self.personas(), id),
    {
        proof {
            use_type_invariant(self);
        }
        match Self::position(&self.personas, id) {
            Some(i) => {
                proof {
                    let k = choose|k: int| 0 <= k < self.personas@.len() && (#[trigger] self.personas@[k]).id == id;
                    assert(k == i);
                }
                Some(&self.personas[i])
            },
            None => None,
        }
    }

    /// The persona in use.
    pub fn active_persona(&self) -> (persona: Option<&Identity>)
        ensures
            persona.is_some() <==> self.active().is_some() && holds_persona(self.personas(), self.active().unwrap()),
            persona matches Some(p) ==> *p == persona_of(self.personas(), self.active().unwrap()),
    {
        match self.active {
            Some(id) => self.get_persona(id),
            None => None,
        }
    }

    /// The primary persona.
    pub fn primary_persona(&self) -> (persona: Option<&Identity>)
        ensures
            persona.is_some() <==> self.primary().is_some() && holds_persona(self.personas(), self.primary().unwrap()),
            persona matches Some(p) ==> *p == persona_of(self.personas(), self.primary().unwrap()) && p.is_primary,
    {
        proof {
            use_type_invariant(self);
        }
        match self.primary {
            Some(id) => self.get_persona(id),
            None => None,
        }
    }

    /// Brings another persona into use. An unknown persona is not found and
    /// nothing changes.
    pub fn switch_persona(&mut self, id: PersonId) -> (done: Result<(), Error>)
        ensures
            final(self).personas() == old(self).personas(),
            final(self).primary() == old(self).primary(),
            done.is_ok() <==> holds_persona(old(self).personas(), id),
            done.is_ok() ==> final(self).active() == Some(id),
            done matches Err(e) ==> e.spec_kind() == ErrorKind::NotFound && final(self).active() == old(self).active(),
    {
        proof {
            use_type_invariant(&*self);
        }
        match Self::position(&self.personas, id) {
            Some(i) => {
                self.active = Some(id);
                Ok(())
            },
            None => Err(Error::NotFound("Persona not found".to_owned())),
        }
    }

    /// What is shown of each persona, in the order in which they were added.
    pub fn list_personas(&self) -> (list: Vec<PersonaSummary>)
        ensures
            list@.len() == self.personas().len(),
            forall|i: int|
                0 <= i < list@.len() ==> {
                    &&& (#[trigger] list@[i]).id == self.personas()[i].id
                    &&& list@[i].name == self.personas()[i].name
                    &&& list@[i].fingerprint@ == self.personas()[i].fingerprint@
                    &&& list@[i].is_primary == self.personas()[i].is_primary
                    &&& list@[i].is_active == (Some(self.personas()[i].id) == self.active())
                },
    {
        let mut list: Vec<PersonaSummary> = Vec::new();
        let mut i: usize = 0;
        while i < self.personas.len()
            invariant
                i <= self.personas@.len(),
                list@.len() == i,
                forall|t: int|
                    0 <= t < i ==> {
                        &&& (#[trigger] list@[t]).id == self.personas@[t].id
                        &&& list@[t].name == self.personas@[t].name
                        &&& list@[t].fingerprint@ == self.personas@[t].fingerprint@
                        &&& list@[t].is_primary == self.personas@[t].is_primary
                        &&& list@[t].is_active == (Some(self.personas@[t].id) == self.active)
                    },
            decreases self.personas@.len() - i,
        {
            let identity = &self.personas[i];
            let is_active = match self.active {
                Some(active) => active == identity.id,
                None => false,
            };
            list.push(
                PersonaSummary {
                    id: identity.id,
                    name: identity.name.clone(),
                    fingerprint: Fingerprint::new(*identity.fingerprint.as_bytes()),
                    is_primary: identity.is_primary,
                    is_active,
                },
            );
            i += 1;
        }
        list
    }

    /// Deletes a persona. The primary persona and the persona in use cannot
    /// be deleted: permission is denied. An unknown persona is not found. In
    /// both cases nothing changes.
    pub fn delete_persona(&mut self, id: PersonId) -> (done: Result<(), Error>)
        ensures
            final(self).primary() == old(self).primary(),
            final(self).active() == old(self).active(),
            done.is_ok() <==> old(self).primary() != Some(id) && old(self).active() != Some(id) && holds_persona(
                old(self).personas(),
                id,
            ),
            done.is_err() ==> final(self).personas() == old(self).personas(),
            done matches Err(e) ==> e.spec_kind() == if old(self).primary() == Some(id) || old(self).active() == Some(
                id,
            ) {
                ErrorKind::PermissionDenied
            } else {
                ErrorKind::NotFound
            },
            done.is_ok() ==> exists|i: int|
                0 <= i < old(self).personas().len() && (#[trigger] old(self).personas()[i]).id == id && final(self).personas() == old(self).personas().remove(i),
            done.is_ok() ==> !holds_persona(final(self).personas(), id),
            consistent(final(self).personas(), final(self).primary()),
    {
        proof {
            use_type_invariant(&*self);
        }
        if self.primary == Some(id) {
            return Err(Error::PermissionDenied("Cannot delete primary persona".to_owned()));
        }
        if self.active == Some(id) {
            return Err(Error::PermissionDenied("Cannot delete active persona (switch first)".to_owned()));
        }
        let at = match Self::position(&self.personas, id) {
            Some(at) => at,
            None => {
                return Err(Error::NotFound("Persona not found".to_owned()));
            },
        };
        let mut personas: Vec<Identity> = Vec::new();
        std::mem::swap(&mut personas, &mut self.personas);
        let ghost before = personas@;
        personas.remove(at);
        proof {
            let after = personas@;
            assert forall|x: int| 0 <= x < after.len() implies #[trigger] after[x] == before[if x < at {
                x
            } else {
                x + 1
            }] by {}
            assert forall|i: int, j: int| 0 <= i < after.len() && 0 <= j < after.len() && i != j implies (
            #[trigger] after[i]).id != (#[trigger] after[j]).id by {
                let oi = if i < at { i } else { i + 1 };
                let oj = if j < at { j } else { j + 1 };
                assert(after[i] == before[oi]);
                assert(after[j] == before[oj]);
            }
            assert forall|i: int| 0 <= i < after.len() implies ((#[trigger] after[i]).is_primary <==> Some(after[i].id)
                == self.primary) by {
                let oi = if i < at { i } else { i + 1 };
                assert(after[i] == before[oi]);
            }
            if holds_persona(after, id) {
                let k = choose|k: int| 0 <= k < after.len() && (#[trigger] after[k]).id == id;
                let ok = if k < at { k } else { k + 1 };
                assert(after[k] == before[ok]);
                assert(false);
            }
            assert(before[at as int].id == id);
        }
        self.personas = personas;
        proof {
            assert(old(self).personas()[at as int].id == id);
            assert(self.personas() == old(self).personas().remove(at as int));
        }
        Ok(())
    }

    /// Makes another persona the primary one: the one that was primary is no
    /// longer marked so, and both changes happen together or not at all. An
    /// unknown persona is not found and nothing changes.
    pub fn set_primary(&mut self, id: PersonId) -> (done: Result<(), Error>)
        ensures
            final(self).active() == old(self).active(),
            done.is_ok() <==> holds_persona(old(self).personas(), id),
            done matches Err(e) ==> e.spec_kind() == ErrorKind::NotFound && final(self).personas() == old(self).personas()
                && final(self).primary() == old(self).primary(),
            done.is_ok() ==> final(self).primary() == Some(id) && final(self).personas().len() == old(
                self,
            ).personas().len() && forall|i: int|
                0 <= i < final(self).personas().len() ==> #[trigger] final(self).personas()[i] == (Identity {
                    is_primary: old(self).personas()[i].id == id,
                    ..old(self).personas()[i]
                }),
            consistent(final(self).personas(), final(self).primary()),
            primaries(final(self).personas()) <= 1,
    {
        proof {
            use_type_invariant(&*self);
            lemma_at_most_one_primary(self.personas@, self.primary);
        }
        if Self::position(&self.personas, id).is_none() {
            return Err(Error::NotFound("Persona not found".to_owned()));
        }
        let mut taken_out: Vec<Identity> = Vec::new();
        std::mem::swap(&mut taken_out, &mut self.personas);
        let ghost before = taken_out@;
        let rest = taken_out;
        let mut marked: Vec<Identity> = Vec::new();
        let mut rest = turned(rest);
        while rest.len() > 0
            invariant
                marked@.len() + rest@.len() == before.len(),
                forall|t: int| 0 <= t < rest@.len() ==> #[trigger] rest@[t] == before[before.len() - 1 - t],
                forall|t: int|
                    0 <= t < marked@.len() ==> #[trigger] marked@[t] == (Identity {
                        is_primary: before[t].id == id,
                        ..before[t]
                    }),
            decreases rest@.len(),
        {
            let ghost o = marked@.len() as int;
            let mut next = rest.pop().unwrap();
            proof {
                assert(next == before[o]);
            }
            next.is_primary = next.id == id;
            marked.push(next);
        }
        proof {
            assert forall|i: int, j: int| 0 <= i < marked@.len() && 0 <= j < marked@.len() && i != j implies (
            #[trigger] marked@[i]).id != (#[trigger] marked@[j]).id by {
                assert(marked@[i].id == before[i].id);
                assert(marked@[j].id == before[j].id);
            }
            lemma_at_most_one_primary(marked@, Some(id));
        }
        self.primary = None;
        self.personas = Vec::new();
        self.primary = Some(id);
        self.personas = marked;
        Ok(())
    }

    /// The number of personas.
    pub fn count(&self) -> (n: usize)
        ensures
            n == self.personas().len(),
    {
        self.personas.len()
    }

    /// Whether there is a persona with the given identifier.
    pub fn has_persona(&self, id: PersonId) -> (has: bool)
        ensures
            has == holds_persona(self.personas(), id),
    {
        Self::position(&self.personas, id).is_some()
    }
}

/// The identities in reverse order.
fn turned(list: Vec<Identity>) -> (back: Vec<Identity>)
    ensures
        back@.len() == list@.len(),
        forall|t: int| 0 <= t < back@.len() ==> #[trigger] back@[t] == list@[list@.len() - 1 - t],
{
    let mut list = list;
    let ghost whole = list@;
    let mut back: Vec<Identity> = Vec::new();
    while list.len() > 0
        invariant
            back@.len() + list@.len() == whole.len(),
            list@ == whole.take(list@.len() as int),
            forall|t: int| 0 <= t < back@.len() ==> #[trigger] back@[t] == whole[whole.len() - 1 - t],
        decreases list@.len(),
    {
        let ghost n = list@.len();
        let item = list.pop().unwrap();
        back.push(item);
        proof {
            assert(list@ =~= whole.take(n - 1));
        }
    }
    back
}

impl Default for PersonaManager {
    fn default() -> (manager: Self)
        ensures
            manager.personas().len() == 0,
    {
        Self::new()
    }
}

/// Prepares a new identity step by step.
pub struct PersonaBuilder {
    name: String,
    is_primary: bool,
    from_seed: Option<[u8; 32]>,
}

impl PersonaBuilder {
    /// The name of the identity to be.
    pub closed spec fn spec_name(&self) -> Seq<char> {
        self.name@
    }

    /// Whether the identity to be is marked primary.
    pub closed spec fn spec_is_primary(&self) -> bool {
        self.is_primary
    }

    /// The seed from which the identity to be takes its keys, if any.
    pub closed spec fn spec_seed(&self) -> Option<[u8; 32]> {
        self.from_seed
    }

    /// A builder for an identity of the given name: not primary, with fresh
    /// random keys.
    pub fn new(name: &str) -> (builder: Self)
        ensures
            builder.spec_name() == name@,
            !builder.spec_is_primary(),
            builder.spec_seed().is_none(),
    {
        PersonaBuilder { name: name.to_owned(), is_primary: false, from_seed: None }
    }

    /// Marks the identity to be as primary.
    pub fn primary(self) -> (builder: Self)
        ensures
            builder.spec_name() == self.spec_name(),
            builder.spec_is_primary(),
            builder.spec_seed() == self.spec_seed(),
    {
        let mut next = self;
        next.is_primary = true;
        next
    }

    /// Lets the identity to be take its keys from the seed.
    pub fn from_seed(self, seed: [u8; 32]) -> (builder: Self)
        ensures
            builder.spec_name() == self.spec_name(),
            builder.spec_is_primary() == self.spec_is_primary(),
            builder.spec_seed() == Some(seed),
    {
        let mut next = self;
        next.from_seed = Some(seed);
        next
    }

    /// Builds the identity.
    pub fn build(self) -> (identity: Result<Identity, Error>)
        ensures
            identity matches Ok(i) && i.name@ == self.spec_name() && i.is_primary == self.spec_is_primary()
                && i.mailbox_descriptor.is_none(),
            identity matches Ok(i) && i.fingerprint@ == sha256_digest(i.keypair.spec_signing().public()),
            self.spec_seed() matches Some(seed) ==> (identity matches Ok(i) && seeded(i.keypair, seed@)
                && i.keypair.spec_signing().public() == ed25519_public_key(
                hkdf_sha512(seed@, signing_label(), 32),
            )),
    {
        match self.from_seed {
            Some(seed) => Identity::from_seed(self.name.as_str(), &seed, self.is_primary),
            None => Identity::generate(self.name.as_str(), self.is_primary),
        }
    }
}

} // verus!
