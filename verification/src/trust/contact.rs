//! Contacts: what is known about a peer in the trust network.

use vstd::prelude::*;
use crate::types::{CoarseTimestamp, Fingerprint, PersonId, Region, SecureBytes, TrustLevel};
use crate::types::spec_verification_word;
use crate::text::{holds_text, same_text, spec_holds_text};

verus! {

/// What a contact can offer.
#[derive(Clone, Copy, Debug, PartialEq, Eq, Structural)]
pub enum Capability {
    /// Can offer a safe house.
    SafeHouse,
    /// Can provide transportation.
    Transportation,
    /// Can provide medical help.
    Medical,
    /// Can provide legal help.
    Legal,
    /// Can provide financial help.
    Financial,
    /// Can provide supplies.
    Supplies,
    /// Can help with documents.
    Documents,
    /// Can translate or interpret.
    Translation,
    /// Can relay messages.
    Relay,
    /// Has local knowledge.
    Intelligence,
}

impl Capability {
    /// The name under which the capability is written in lists.
    pub open spec fn spec_name(&self) -> Seq<char> {
        match self {
            Capability::SafeHouse => "SafeHouse"@,
            Capability::Transportation => "Transportation"@,
            Capability::Medical => "Medical"@,
            Capability::Legal => "Legal"@,
            Capability::Financial => "Financial"@,
            Capability::Supplies => "Supplies"@,
            Capability::Documents => "Documents"@,
            Capability::Translation => "Translation"@,
            Capability::Relay => "Relay"@,
            Capability::Intelligence => "Intelligence"@,
        }
    }

    /// The capability written as `name`, if there is one.
    pub open spec fn spec_from_name(name: Seq<char>) -> Option<Capability> {
        if name == "SafeHouse"@ {
            Some(Capability::SafeHouse)
        } else if name == "Transportation"@ {
            Some(Capability::Transportation)
        } else if name == "Medical"@ {
            Some(Capability::Medical)
        } else if name == "Legal"@ {
            Some(Capability::Legal)
        } else if name == "Financial"@ {
            Some(Capability::Financial)
        } else if name == "Supplies"@ {
            Some(Capability::Supplies)
        } else if name == "Documents"@ {
            Some(Capability::Documents)
        } else if name == "Translation"@ {
            Some(Capability::Translation)
        } else if name == "Relay"@ {
            Some(Capability::Relay)
        } else if name == "Intelligence"@ {
            Some(Capability::Intelligence)
        } else {
            None
        }
    }

    /// The name under which the capability is written in lists.
    pub fn name(&self) -> (name: &'static str)
        ensures
            name@ == self.spec_name(),
    {
        match self {
            Capability::SafeHouse => "SafeHouse",
            Capability::Transportation => "Transportation",
            Capability::Medical => "Medical",
            Capability::Legal => "Legal",
            Capability::Financial => "Financial",
            Capability::Supplies => "Supplies",
            Capability::Documents => "Documents",
            Capability::Translation => "Translation",
            Capability::Relay => "Relay",
            Capability::Intelligence => "Intelligence",
        }
    }

    /// The capability written as `name`, if there is one.
    pub fn from_name(name: &String) -> (value: Option<Self>)
        ensures
            value == Self::spec_from_name(name@),
    {
        if same_text(name, "SafeHouse") {
            Some(Capability::SafeHouse)
        } else if same_text(name, "Transportation") {
            Some(Capability::Transportation)
        } else if same_text(name, "Medical") {
            Some(Capability::Medical)
        } else if same_text(name, "Legal") {
            Some(Capability::Legal)
        } else if same_text(name, "Financial") {
            Some(Capability::Financial)
        } else if same_text(name, "Supplies") {
            Some(Capability::Supplies)
        } else if same_text(name, "Documents") {
            Some(Capability::Documents)
        } else if same_text(name, "Translation") {
            Some(Capability::Translation)
        } else if same_text(name, "Relay") {
            Some(Capability::Relay)
        } else if same_text(name, "Intelligence") {
            Some(Capability::Intelligence)
        } else {
            None
        }
    }

    /// The names of the listed items, in order.
    pub fn names_of(list: &Vec<Capability>) -> (names: Vec<String>)
        ensures
            names@.len() == list@.len(),
            forall|i: int| 0 <= i < list@.len() ==> (#[trigger] names@[i])@ == list@[i].spec_name(),
    {
        let mut names: Vec<String> = Vec::new();
        let mut i: usize = 0;
        while i < list.len()
            invariant
                i <= list@.len(),
                names@.len() == i,
                forall|t: int| 0 <= t < i ==> (#[trigger] names@[t])@ == list@[t].spec_name(),
            decreases list@.len() - i,
        {
            names.push(list[i].name().to_owned());
            i += 1;
        }
        names
    }

    /// The items that the names spell, in order; `None` if a name spells none.
    pub fn list_from_names(names: &Vec<String>) -> (list: Option<Vec<Capability>>)
        ensures
            list.is_some() <==> forall|i: int|
                0 <= i < names@.len() ==> Self::spec_from_name((#[trigger] names@[i])@).is_some(),
            list matches Some(items) ==> items@.len() == names@.len() && forall|i: int|
                0 <= i < names@.len() ==> Some(#[trigger] items@[i]) == Self::spec_from_name(names@[i]@),
    {
        let mut items: Vec<Capability> = Vec::new();
        let mut i: usize = 0;
        while i < names.len()
            invariant
                i <= names@.len(),
                items@.len() == i,
                forall|t: int| 0 <= t < i ==> Some(#[trigger] items@[t]) == Self::spec_from_name(names@[t]@),
                forall|t: int| 0 <= t < i ==> Self::spec_from_name((#[trigger] names@[t])@).is_some(),
            decreases names@.len() - i,
        {
            match Self::from_name(&names[i]) {
                Some(item) => {
                    items.push(item);
                },
                None => {
                    return None;
                },
            }
            i += 1;
        }
        Some(items)
    }

    /// Whether the list holds the item.
    pub fn is_in(&self, list: &Vec<Capability>) -> (found: bool)
        ensures
            found == list@.contains(*self),
    {
        let mut i: usize = 0;
        while i < list.len()
            invariant
                i <= list@.len(),
                forall|t: int| 0 <= t < i ==> list@[t] != *self,
            decreases list@.len() - i,
        {
            if list[i] == *self {
                return true;
            }
            i += 1;
        }
        false
    }
}

/// What we know about a contact.
#[derive(Clone, Debug)]
pub struct ContactInfo {
    /// Display name; may be a pseudonym.
    pub name: String,
    /// Approximate region, if known.
    pub region: Option<Region>,
    /// Digest of a picture by which the contact is recognised.
    pub avatar_hash: Option<[u8; 32]>,
    /// Languages spoken.
    pub languages: Vec<String>,
    /// What the contact offers.
    pub capabilities: Vec<Capability>,
}

impl ContactInfo {
    /// Whether `lang` is listed among the languages.
    pub open spec fn spec_speaks(&self, lang: Seq<char>) -> bool {
        spec_holds_text(self.languages@, lang)
    }

    /// Information about a contact of whom only the name is known.
    pub fn new(name: &str) -> (info: Self)
        ensures
            info.name@ == name@,
            info.region.is_none(),
            info.avatar_hash.is_none(),
            info.languages@.len() == 0,
            info.capabilities@.len() == 0,
    {
        ContactInfo {
            name: name.to_owned(),
            region: None,
            avatar_hash: None,
            languages: Vec::new(),
            capabilities: Vec::new(),
        }
    }

    /// Lists a language, unless it is listed already.
    pub fn add_language(&mut self, lang: &str)
        ensures
            final(self).spec_speaks(lang@),
            old(self).spec_speaks(lang@) ==> *final(self) == *old(self),
            !old(self).spec_speaks(lang@) ==> final(self).languages@.len() == old(self).languages@.len() + 1
                && final(self).languages@.drop_last() == old(self).languages@
                && final(self).languages@.last()@ == lang@,
            final(self).name == old(self).name,
            final(self).region == old(self).region,
            final(self).avatar_hash == old(self).avatar_hash,
            final(self).capabilities == old(self).capabilities,
    {
        if !holds_text(&self.languages, lang) {
            self.languages.push(lang.to_owned());
            proof {
                let last = self.languages@.len() - 1;
                assert(self.languages@[last]@ == lang@);
                assert(self.languages@.drop_last() =~= old(self).languages@);
            }
        }
    }

    /// Whether the contact speaks `lang`.
    pub fn speaks(&self, lang: &str) -> (yes: bool)
        ensures
            yes == self.spec_speaks(lang@),
    {
        holds_text(&self.languages, lang)
    }
}

/// A contact in the trust network.
#[derive(Clone)]
pub struct Contact {
    /// Who the contact is.
    pub id: PersonId,
    /// What we know about them.
    pub info: ContactInfo,
    /// How far we trust them.
    pub trust_level: TrustLevel,
    /// Fingerprint of their public signing key.
    pub fingerprint: Fingerprint,
    /// Their route or mailbox handle, sealed.
    pub veilid_route: SecureBytes,
    /// When the contact was added.
    pub added_at: CoarseTimestamp,
    /// When we last communicated.
    pub last_contact: Option<CoarseTimestamp>,
    /// Who introduced us.
    pub introduced_by: Option<PersonId>,
    /// Private notes, sealed.
    pub notes: Option<SecureBytes>,
    /// Whether the contact is currently available.
    pub available: bool,
    /// Tags for sorting contacts.
    pub tags: Vec<String>,
}

impl Contact {
    /// Whether `tag` is among the tags.
    pub open spec fn spec_has_tag(&self, tag: Seq<char>) -> bool {
        spec_holds_text(self.tags@, tag)
    }

    /// A new contact, added at time `added_at`: available, without languages,
    /// capabilities, tags, notes or introducer.
    pub fn new_at(
        id: PersonId,
        name: &str,
        fingerprint: Fingerprint,
        veilid_route: SecureBytes,
        trust_level: TrustLevel,
        added_at: CoarseTimestamp,
    ) -> (contact: Self)
        ensures
            contact.id == id,
            contact.info.name@ == name@,
            contact.info.region.is_none(),
            contact.info.avatar_hash.is_none(),
            contact.info.languages@.len() == 0,
            contact.info.capabilities@.len() == 0,
            contact.trust_level == trust_level,
            contact.fingerprint == fingerprint,
            contact.veilid_route == veilid_route,
            contact.added_at == added_at,
            contact.last_contact.is_none(),
            contact.introduced_by.is_none(),
            contact.notes.is_none(),
            contact.available,
            contact.tags@.len() == 0,
    {
        Contact {
            id,
            info: ContactInfo::new(name),
            trust_level,
            fingerprint,
            veilid_route,
            added_at,
            last_contact: None,
            introduced_by: None,
            notes: None,
            available: true,
            tags: Vec::new(),
        }
    }

    /// A new contact, added now.
    pub fn new(
        id: PersonId,
        name: &str,
        fingerprint: Fingerprint,
        veilid_route: SecureBytes,
        trust_level: TrustLevel,
    ) -> (contact: Self)
        ensures
            contact.id == id,
            contact.info.name@ == name@,
            contact.info.region.is_none(),
            contact.info.avatar_hash.is_none(),
            contact.info.languages@.len() == 0,
            contact.info.capabilities@.len() == 0,
            contact.trust_level == trust_level,
            contact.fingerprint == fingerprint,
            contact.veilid_route == veilid_route,
            contact.last_contact.is_none(),
            contact.introduced_by.is_none(),
            contact.notes.is_none(),
            contact.available,
            contact.tags@.len() == 0,
    {
        Self::new_at(id, name, fingerprint, veilid_route, trust_level, CoarseTimestamp::now())
    }

    /// Records that we communicated at time `at`.
    pub fn update_last_contact_at(&mut self, at: CoarseTimestamp)
        ensures
            *final(self) == (Contact { last_contact: Some(at), ..*old(self) }),
    {
        self.last_contact = Some(at);
    }

    /// Records that we communicated just now.
    pub fn update_last_contact(&mut self)
        ensures
            final(self).last_contact.is_some(),
            *final(self) == (Contact { last_contact: final(self).last_contact, ..*old(self) }),
    {
        self.update_last_contact_at(CoarseTimestamp::now());
    }

    /// Lists a capability, unless it is listed already.
    pub fn add_capability(&mut self, capability: Capability)
        ensures
            final(self).info.capabilities@ == if old(self).info.capabilities@.contains(capability) {
                old(self).info.capabilities@
            } else {
                old(self).info.capabilities@.push(capability)
            },
            final(self).info.capabilities@.contains(capability),
            *final(self) == (Contact {
                info: ContactInfo { capabilities: final(self).info.capabilities, ..old(self).info },
                ..*old(self)
            }),
    {
        if !capability.is_in(&self.info.capabilities) {
            self.info.capabilities.push(capability);
            proof {
                assert(self.info.capabilities@.last() == capability);
            }
        }
    }

    /// Whether the contact offers the capability.
    pub fn has_capability(&self, capability: Capability) -> (yes: bool)
        ensures
            yes == self.info.capabilities@.contains(capability),
    {
        capability.is_in(&self.info.capabilities)
    }

    /// Adds a tag, unless the contact carries it already.
    pub fn add_tag(&mut self, tag: &str)
        ensures
            final(self).spec_has_tag(tag@),
            old(self).spec_has_tag(tag@) ==> *final(self) == *old(self),
            !old(self).spec_has_tag(tag@) ==> final(self).tags@.len() == old(self).tags@.len() + 1 && final(self).tags@.drop_last() == old(self).tags@ && final(self).tags@.last()@ == tag@,
            *final(self) == (Contact { tags: final(self).tags, ..*old(self) }),
    {
        if !holds_text(&self.tags, tag) {
            self.tags.push(tag.to_owned());
            proof {
                let last = self.tags@.len() - 1;
                assert(self.tags@[last]@ == tag@);
                assert(self.tags@.drop_last() =~= old(self).tags@);
            }
        }
    }

    /// Whether the contact carries the tag.
    pub fn has_tag(&self, tag: &str) -> (yes: bool)
        ensures
            yes == self.spec_has_tag(tag@),
    {
        holds_text(&self.tags, tag)
    }

    /// Sets the trust level.
    pub fn update_trust(&mut self, new_level: TrustLevel)
        ensures
            *final(self) == (Contact { trust_level: new_level, ..*old(self) }),
    {
        self.trust_level = new_level;
    }

    /// Whether the contact may see requests and offers.
    pub fn can_see_activity(&self) -> (allowed: bool)
        ensures
            allowed == (self.trust_level.spec_rank() >= TrustLevel::Introduced.spec_rank()),
    {
        self.trust_level.can_see_activity()
    }

    /// Whether the contact may relay messages.
    pub fn can_relay_messages(&self) -> (allowed: bool)
        ensures
            allowed == (self.trust_level.spec_rank() >= TrustLevel::VerifiedRemote.spec_rank()),
    {
        self.trust_level.can_relay()
    }

    /// The three words of the contact's fingerprint.
    pub fn verification_words(&self) -> (words: [&'static str; 3])
        ensures
            forall|k: int| 0 <= k < 3 ==> #[trigger] words@[k]@ == spec_verification_word(
                self.fingerprint.spec_word_index(k),
            ),
    {
        self.fingerprint.to_words()
    }
}

} // verus!
