//! A node of the overlay that keeps everything in memory: records, routes
//! and identities live in tables keyed by text, behind a switch that says
//! whether the node was started. It serves a front end while no network is
//! attached.

use vstd::prelude::*;
use crate::text::{hex_encode};
use crate::bridge::VeilidIdentityData;
use crate::text::{append_bytes, copy_bytes, same_text};
use crate::trusted::{hex_text, random_bytes};

verus! {

/// What can go wrong at the front end's side of the overlay.
#[derive(Debug)]
pub enum UndergroundError {
    Veilid(String),
    Crypto(String),
    Storage(String),
    AuthenticationFailed,
    InvalidKey,
    NotInitialized,
    Io(String),
    Serialization(String),
    Unknown(String),
}

impl UndergroundError {
    /// The error as one line of text.
    pub open spec fn spec_text(self) -> Seq<char> {
        match self {
            UndergroundError::Veilid(m) => "Veilid error: "@ + m@,
            UndergroundError::Crypto(m) => "Crypto error: "@ + m@,
            UndergroundError::Storage(m) => "Storage error: "@ + m@,
            UndergroundError::AuthenticationFailed => "Authentication failed"@,
            UndergroundError::InvalidKey => "Invalid key"@,
            UndergroundError::NotInitialized => "Not initialized"@,
            UndergroundError::Io(m) => "IO error: "@ + m@,
            UndergroundError::Serialization(m) => "Serialization error: "@ + m@,
            UndergroundError::Unknown(m) => "Unknown error: "@ + m@,
        }
    }

    /// The error as one line of text.
    pub fn to_string(&self) -> (text: String)
        ensures
            text@ == self.spec_text(),
    {
        match self {
            UndergroundError::Veilid(m) => "Veilid error: ".to_owned().concat(m.as_str()),
            UndergroundError::Crypto(m) => "Crypto error: ".to_owned().concat(m.as_str()),
            UndergroundError::Storage(m) => "Storage error: ".to_owned().concat(m.as_str()),
            UndergroundError::AuthenticationFailed => "Authentication failed".to_owned(),
            UndergroundError::InvalidKey => "Invalid key".to_owned(),
            UndergroundError::NotInitialized => "Not initialized".to_owned(),
            UndergroundError::Io(m) => "IO error: ".to_owned().concat(m.as_str()),
            UndergroundError::Serialization(m) => "Serialization error: ".to_owned().concat(m.as_str()),
            UndergroundError::Unknown(m) => "Unknown error: ".to_owned().concat(m.as_str()),
        }
    }
}

/// A key with what is kept under it.
pub struct Entry<V> {
    pub key: String,
    pub value: V,
}

/// Whether something is kept under the key.
pub open spec fn holds<V>(entries: Seq<Entry<V>>, key: Seq<char>) -> bool {
    exists|i: int| 0 <= i < entries.len() && (#[trigger] entries[i]).key@ == key
}

/// Where the key is kept.
pub open spec fn place<V>(entries: Seq<Entry<V>>, key: Seq<char>) -> int {
    choose|i: int| 0 <= i < entries.len() && (#[trigger] entries[i]).key@ == key
}

/// Whether no key is kept twice.
pub open spec fn distinct_keys<V>(entries: Seq<Entry<V>>) -> bool {
    forall|i: int, j: int|
        0 <= i < entries.len() && 0 <= j < entries.len() && i != j ==> (#[trigger] entries[i]).key@ != (
        #[trigger] entries[j]).key@
}

/// The entries as a map from keys to what is kept under them.
pub open spec fn as_map<V>(entries: Seq<Entry<V>>) -> Map<Seq<char>, V> {
    Map::new(|key: Seq<char>| holds(entries, key), |key: Seq<char>| entries[place(entries, key)].value)
}

/// A table keyed by text.
pub struct TextMap<V> {
    entries: Vec<Entry<V>>,
}

impl<V> View for TextMap<V> {
    type V = Map<Seq<char>, V>;

    closed spec fn view(&self) -> Map<Seq<char>, V> {
        as_map(self.entries@)
    }
}

/// Setting the entry at `at`, which holds `key`, changes the map at `key` only.
proof fn lemma_set<V>(before: Seq<Entry<V>>, at: int, key: String, value: V)
    requires
        distinct_keys(before),
        0 <= at < before.len(),
        before[at].key@ == key@,
    ensures
        distinct_keys(before.update(at, Entry { key, value })),
        as_map(before.update(at, Entry { key, value })) == as_map(before).insert(key@, value),
{
    let after = before.update(at, Entry { key, value });
    assert forall|i: int| 0 <= i < after.len() implies (#[trigger] after[i]).key@ == before[i].key@ by {}
    assert forall|k: Seq<char>| holds(after, k) == holds(before, k) by {
        if holds(after, k) {
            let i = place(after, k);
            assert(before[i].key@ == k);
        }
        if holds(before, k) {
            let i = place(before, k);
            assert(after[i].key@ == k);
        }
    }
    assert forall|k: Seq<char>| holds(after, k) implies #[trigger] as_map(after)[k] == as_map(before).insert(
        key@,
        value,
    )[k] by {
        let i = place(after, k);
        assert(before[i].key@ == k);
        if k == key@ {
            assert(i == at);
        } else {
            assert(place(before, k) == i);
        }
    }
    assert(before[at].key@ == key@);
    assert(as_map(after) =~= as_map(before).insert(key@, value));
}

/// Adding an entry under a key that is not kept yet adds it to the map.
proof fn lemma_push<V>(before: Seq<Entry<V>>, key: String, value: V)
    requires
        distinct_keys(before),
        !holds(before, key@),
    ensures
        distinct_keys(before.push(Entry { key, value })),
        as_map(before.push(Entry { key, value })) == as_map(before).insert(key@, value),
{
    let after = before.push(Entry { key, value });
    let last = before.len() as int;
    assert forall|i: int| 0 <= i < before.len() implies #[trigger] after[i] == before[i] by {}
    assert(after[last].key@ == key@);
    assert forall|i: int, j: int| 0 <= i < after.len() && 0 <= j < after.len() && i != j implies (
    #[trigger] after[i]).key@ != (#[trigger] after[j]).key@ by {
        if i < last {
            assert(before[i].key@ == after[i].key@);
        }
        if j < last {
            assert(before[j].key@ == after[j].key@);
        }
    }
    assert forall|k: Seq<char>| holds(after, k) == (holds(before, k) || k == key@) by {
        if holds(after, k) {
            let i = place(after, k);
            if i < last {
                assert(before[i].key@ == k);
            }
        }
        if holds(before, k) {
            let i = place(before, k);
            assert(after[i].key@ == k);
        }
    }
    assert forall|k: Seq<char>| holds(after, k) implies #[trigger] as_map(after)[k] == as_map(before).insert(
        key@,
        value,
    )[k] by {
        let i = place(after, k);
        if k == key@ {
            assert(i == last);
        } else {
            assert(before[i].key@ == k);
            assert(place(before, k) == i);
        }
    }
    assert(as_map(after) =~= as_map(before).insert(key@, value));
}

impl<V> TextMap<V> {
    #[verifier::type_invariant]
    spec fn well_formed(self) -> bool {
        distinct_keys(self.entries@)
    }

    /// An empty table.
    pub fn new() -> (table: Self)
        ensures
            table@ == Map::<Seq<char>, V>::empty(),
    {
        let table = TextMap { entries: Vec::new() };
        proof {
            assert(as_map(table.entries@) =~= Map::<Seq<char>, V>::empty());
        }
        table
    }

    fn position(entries: &Vec<Entry<V>>, key: &str) -> (at: Option<usize>)
        ensures
            at matches Some(i) ==> i < entries@.len() && entries@[i as int].key@ == key@,
            at.is_none() ==> !holds(entries@, key@),
    {
        let mut i: usize = 0;
        while i < entries.len()
            invariant
                i <= entries@.len(),
                forall|t: int| 0 <= t < i ==> (#[trigger] entries@[t]).key@ != key@,
            decreases entries@.len() - i,
        {
            if same_text(&entries[i].key, key) {
                return Some(i);
            }
            i += 1;
        }
        None
    }

    /// What is kept under the key, if anything.
    pub fn get(&self, key: &str) -> (found: Option<&V>)
        ensures
            found.is_some() <==> self@.dom().contains(key@),
            found matches Some(value) ==> *value == self@[key@],
    {
        proof {
            use_type_invariant(self);
        }
        match Self::position(&self.entries, key) {
            Some(i) => {
                proof {
                    assert(self.entries@[i as int].key@ == key@);
                    assert(place(self.entries@, key@) == i);
                }
                Some(&self.entries[i].value)
            },
            None => None,
        }
    }

    /// Keeps the value under the key, in place of what was kept there.
    pub fn insert(&mut self, key: &str, value: V)
        ensures
            final(self)@ == old(self)@.insert(key@, value),
    {
        proof {
            use_type_invariant(&*self);
        }
        let mut entries: Vec<Entry<V>> = Vec::new();
        std::mem::swap(&mut entries, &mut self.entries);
        let held = key.to_owned();
        match Self::position(&entries, key) {
            Some(i) => {
                proof {
                    lemma_set(entries@, i as int, held, value);
                }
                entries.set(i, Entry { key: held, value });
            },
            None => {
                proof {
                    lemma_push(entries@, held, value);
                }
                entries.push(Entry { key: held, value });
            },
        }
        self.entries = entries;
    }
}

/// The words with which the keys of the node begin.
pub const PUBLIC_TAG: &'static str = "VLD1:pub:";

pub const SECRET_TAG: &'static str = "VLD1:sec:";

pub const RECORD_TAG: &'static str = "VLD1:dht:";

pub const ROUTE_TAG: &'static str = "VLD1:route:";

/// Whether the text is the tag followed by 32 bytes in hexadecimal digits.
pub open spec fn tagged(text: Seq<char>, tag: Seq<char>) -> bool {
    exists|bytes: Seq<u8>| bytes.len() == 32 && text == tag + #[trigger] hex_text(bytes)
}

/// A fresh key under the tag: the tag, then 32 random bytes in hexadecimal
/// digits.
pub fn fresh_key(tag: &str) -> (key: String)
    ensures
        tagged(key@, tag@),
{
    let bytes = random_bytes(32);
    let digits = hex_encode(bytes.as_slice());
    let key = tag.to_owned().concat(digits.as_str());
    proof {
        assert(key@ == tag@ + hex_text(bytes@));
    }
    key
}

/// The node.
pub struct VeilidManager {
    initialized: bool,
    config_dir: Option<String>,
    identities: TextMap<VeilidIdentityData>,
    dht_store: TextMap<Vec<u8>>,
    private_routes: TextMap<Vec<u8>>,
}

impl VeilidManager {
    /// Whether the node was started.
    pub closed spec fn ready(&self) -> bool {
        self.initialized
    }

    /// The directory that the node was started with.
    pub closed spec fn dir(&self) -> Option<String> {
        self.config_dir
    }

    /// The identities that the node made, by their record keys.
    pub closed spec fn identities(&self) -> Map<Seq<char>, VeilidIdentityData> {
        self.identities@
    }

    /// The records that the node holds.
    pub closed spec fn records(&self) -> Map<Seq<char>, Vec<u8>> {
        self.dht_store@
    }

    /// The routes that the node made, each with what was sent over it.
    pub closed spec fn routes(&self) -> Map<Seq<char>, Vec<u8>> {
        self.private_routes@
    }

    /// Whether everything but the switch is as in `other`.
    pub open spec fn holds_what(&self, other: &VeilidManager) -> bool {
        &&& self.dir() == other.dir()
        &&& self.identities() == other.identities()
        &&& self.records() == other.records()
        &&& self.routes() == other.routes()
    }

    /// A node that was not started and holds nothing.
    pub fn new() -> (node: Self)
        ensures
            !node.ready(),
            node.dir().is_none(),
            node.identities() == Map::<Seq<char>, VeilidIdentityData>::empty(),
            node.records() == Map::<Seq<char>, Vec<u8>>::empty(),
            node.routes() == Map::<Seq<char>, Vec<u8>>::empty(),
    {
        VeilidManager {
            initialized: false,
            config_dir: None,
            identities: TextMap::new(),
            dht_store: TextMap::new(),
            private_routes: TextMap::new(),
        }
    }

    /// Starts the node with its directory. A node that was started stays as
    /// it is.
    pub fn initialize(&mut self, config_dir: String) -> (done: Result<(), UndergroundError>)
        ensures
            done.is_ok(),
            final(self).ready(),
            final(self).identities() == old(self).identities(),
            final(self).records() == old(self).records(),
            final(self).routes() == old(self).routes(),
            final(self).dir() == if old(self).ready() {
                old(self).dir()
            } else {
                Some(config_dir)
            },
    {
        if self.initialized {
            return Ok(());
        }
        self.config_dir = Some(config_dir);
        self.initialized = true;
        Ok(())
    }

    /// Stops the node. What it holds stays.
    pub fn shutdown(&mut self) -> (done: Result<(), UndergroundError>)
        ensures
            done.is_ok(),
            !final(self).ready(),
            final(self).holds_what(old(self)),
    {
        self.initialized = false;
        Ok(())
    }

    /// Whether the node was started.
    pub fn is_initialized(&self) -> (ready: bool)
        ensures
            ready == self.ready(),
    {
        self.initialized
    }

    /// Makes an identity of four fresh keys and keeps it under its record
    /// key. A node that was not started refuses.
    pub fn create_identity(&mut self) -> (made: Result<VeilidIdentityData, UndergroundError>)
        ensures
            final(self).ready() == old(self).ready(),
            final(self).dir() == old(self).dir(),
            final(self).records() == old(self).records(),
            final(self).routes() == old(self).routes(),
            made.is_ok() <==> old(self).ready(),
            made matches Err(e) ==> e == UndergroundError::NotInitialized && final(self).identities() == old(
                self,
            ).identities(),
            made matches Ok(identity) ==> {
                &&& tagged(identity.public_key@, PUBLIC_TAG@)
                &&& tagged(identity.secret_key@, SECRET_TAG@)
                &&& tagged(identity.dht_key@, RECORD_TAG@)
                &&& tagged(identity.route@, ROUTE_TAG@)
                &&& final(self).identities().dom() == old(self).identities().dom().insert(identity.dht_key@)
                &&& final(self).identities()[identity.dht_key@].public_key@ == identity.public_key@
                &&& final(self).identities()[identity.dht_key@].secret_key@ == identity.secret_key@
                &&& final(self).identities()[identity.dht_key@].dht_key@ == identity.dht_key@
                &&& final(self).identities()[identity.dht_key@].route@ == identity.route@
                &&& forall|k: Seq<char>|
                    k != identity.dht_key@ && old(self).identities().dom().contains(k) ==> #[trigger] final(self).identities()[k] == old(self).identities()[k]
            },
    {
        if !self.initialized {
            return Err(UndergroundError::NotInitialized);
        }
        let identity = VeilidIdentityData {
            public_key: fresh_key(PUBLIC_TAG),
            secret_key: fresh_key(SECRET_TAG),
            dht_key: fresh_key(RECORD_TAG),
            route: fresh_key(ROUTE_TAG),
        };
        let kept = VeilidIdentityData {
            public_key: identity.public_key.clone(),
            secret_key: identity.secret_key.clone(),
            dht_key: identity.dht_key.clone(),
            route: identity.route.clone(),
        };
        self.identities.insert(identity.dht_key.as_str(), kept);
        Ok(identity)
    }

    /// Makes a route under a fresh key, with nothing sent over it yet. A
    /// node that was not started refuses.
    pub fn create_private_route(&mut self) -> (made: Result<String, UndergroundError>)
        ensures
            final(self).ready() == old(self).ready(),
            final(self).dir() == old(self).dir(),
            final(self).identities() == old(self).identities(),
            final(self).records() == old(self).records(),
            made.is_ok() <==> old(self).ready(),
            made matches Err(e) ==> e == UndergroundError::NotInitialized && final(self).routes() == old(self).routes(),
            made matches Ok(route) ==> {
                &&& tagged(route@, ROUTE_TAG@)
                &&& final(self).routes().dom() == old(self).routes().dom().insert(route@)
                &&& final(self).routes()[route@]@.len() == 0
                &&& forall|k: Seq<char>|
                    k != route@ && old(self).routes().dom().contains(k) ==> #[trigger] final(self).routes()[k] == old(
                        self,
                    ).routes()[k]
            },
    {
        if !self.initialized {
            return Err(UndergroundError::NotInitialized);
        }
        let route = fresh_key(ROUTE_TAG);
        self.private_routes.insert(route.as_str(), Vec::new());
        Ok(route)
    }

    /// Keeps the value under the key, in place of what was kept there. A
    /// node that was not started refuses.
    pub fn dht_set(&mut self, key: &str, value: Vec<u8>) -> (done: Result<(), UndergroundError>)
        ensures
            final(self).ready() == old(self).ready(),
            final(self).dir() == old(self).dir(),
            final(self).identities() == old(self).identities(),
            final(self).routes() == old(self).routes(),
            done.is_ok() <==> old(self).ready(),
            done.is_ok() ==> final(self).records() == old(self).records().insert(key@, value),
            done matches Err(e) ==> e == UndergroundError::NotInitialized && final(self).records() == old(
                self,
            ).records(),
    {
        if !self.initialized {
            return Err(UndergroundError::NotInitialized);
        }
        self.dht_store.insert(key, value);
        Ok(())
    }

    /// What is kept under the key, if anything. A node that was not
    /// started refuses.
    pub fn dht_get(&self, key: &str) -> (found: Result<Option<Vec<u8>>, UndergroundError>)
        ensures
            found.is_ok() <==> self.ready(),
            found matches Err(e) ==> e == UndergroundError::NotInitialized,
            found matches Ok(value) ==> (value.is_some() <==> self.records().dom().contains(key@)),
            found matches Ok(Some(bytes)) ==> bytes@ == self.records()[key@]@,
    {
        if !self.initialized {
            return Err(UndergroundError::NotInitialized);
        }
        match self.dht_store.get(key) {
            Some(value) => Ok(Some(copy_bytes(value.as_slice()))),
            None => Ok(None),
        }
    }

    /// Sends the message over the route: it is added to what was sent over
    /// the route before. A route that the node did not make takes nothing.
    /// A node that was not started refuses.
    pub fn send_via_private_route(&mut self, route: &str, message: Vec<u8>) -> (done: Result<(), UndergroundError>)
        ensures
            final(self).ready() == old(self).ready(),
            final(self).dir() == old(self).dir(),
            final(self).identities() == old(self).identities(),
            final(self).records() == old(self).records(),
            done.is_ok() <==> old(self).ready(),
            done matches Err(e) ==> e == UndergroundError::NotInitialized,
            !(old(self).ready() && old(self).routes().dom().contains(route@)) ==> final(self).routes() == old(
                self,
            ).routes(),
            old(self).ready() && old(self).routes().dom().contains(route@) ==> {
                &&& final(self).routes().dom() == old(self).routes().dom()
                &&& final(self).routes()[route@]@ == old(self).routes()[route@]@ + message@
                &&& forall|k: Seq<char>|
                    k != route@ && old(self).routes().dom().contains(k) ==> #[trigger] final(self).routes()[k] == old(
                        self,
                    ).routes()[k]
            },
    {
        if !self.initialized {
            return Err(UndergroundError::NotInitialized);
        }
        let sent = match self.private_routes.get(route) {
            Some(before) => {
                let mut sent = copy_bytes(before.as_slice());
                append_bytes(&mut sent, message.as_slice());
                Some(sent)
            },
            None => None,
        };
        match sent {
            Some(sent) => {
                self.private_routes.insert(route, sent);
                proof {
                    assert(final(self).routes().dom() =~= old(self).routes().dom());
                }
            },
            None => {},
        }
        Ok(())
    }
}

impl Default for VeilidManager {
    fn default() -> (node: Self)
        ensures
            !node.ready(),
    {
        Self::new()
    }
}

} // verus!
