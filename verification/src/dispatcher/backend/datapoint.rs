//! Datapoint backend: keeps the latest machine JSON of each namespace.
//!
//! The backend stores the most recent machine-JSON value for each namespace
//! key, the dot-joined namespace of the trace object, in a [`DataPointStore`].

use vstd::prelude::*;
use vstd::hash_map::StringHashMap;
use vstd::slice::slice_to_vec;

use crate::protocol::types::TraceObject;
use crate::text::{join, join_spec};

verus! {

/// In-memory store of named data points: the raw JSON bytes last stored under
/// each name.
pub struct DataPointStore {
    inner: StringHashMap<Vec<u8>>,
}

impl View for DataPointStore {
    type V = Map<Seq<char>, Seq<u8>>;

    closed spec fn view(&self) -> Map<Seq<char>, Seq<u8>> {
        self.inner@.map_values(|v: Vec<u8>| v@)
    }
}

impl DataPointStore {
    /// Creates an empty store.
    pub fn new() -> (r: Self)
        ensures
            r@ == Map::<Seq<char>, Seq<u8>>::empty(),
    {
        let r = DataPointStore { inner: StringHashMap::new() };
        proof {
            assert(r@ =~= Map::<Seq<char>, Seq<u8>>::empty());
        }
        r
    }

    /// Stores `value` under `name`, replacing what was stored there.
    pub fn put(&mut self, name: &str, value: Vec<u8>)
        ensures
            final(self)@ == old(self)@.insert(name@, value@),
    {
        self.inner.insert(name.to_owned(), value);
        proof {
            assert(self@ =~= old(self)@.insert(name@, value@));
        }
    }

    /// The value stored under `name`, if any.
    pub fn get(&self, name: &str) -> (r: Option<Vec<u8>>)
        ensures
            match r {
                Some(v) => self@.contains_key(name@) && v@ == self@[name@],
                None => !self@.contains_key(name@),
            },
    {
        match self.inner.get(name) {
            Some(v) => Some(v.clone()),
            None => None,
        }
    }
}

impl Default for DataPointStore {
    fn default() -> (r: Self)
        ensures
            r@ == Map::<Seq<char>, Seq<u8>>::empty(),
    {
        DataPointStore::new()
    }
}

/// A read gives back the last write: after `put(name, value)` the store holds
/// `value` under `name` and every other name keeps its value.
pub proof fn lemma_get_after_put(before: Map<Seq<char>, Seq<u8>>, name: Seq<char>, value: Seq<u8>, other: Seq<char>)
    ensures
        before.insert(name, value).contains_key(name),
        before.insert(name, value)[name] == value,
        other != name ==> (before.insert(name, value).contains_key(other) == before.contains_key(other)
            && (before.contains_key(other) ==> before.insert(name, value)[other] == before[other])),
{
}

/// The key a trace object is stored under: its namespace joined with `.`.
pub open spec fn datapoint_key(obj: TraceObject) -> Seq<char> {
    join_spec(obj.to_namespace.deep_view(), "."@)
}

/// The entry a trace object is stored as: its dot-joined namespace and the
/// UTF-8 bytes of its machine JSON.
pub fn datapoint_entry(obj: &TraceObject) -> (r: (String, Vec<u8>))
    ensures
        r.0@ == datapoint_key(*obj),
        r.1@ == vstd::utf8::encode_utf8(obj.to_machine@),
{
    let key = join(&obj.to_namespace, ".");
    let value = slice_to_vec(obj.to_machine.as_str().as_bytes());
    (key, value)
}

/// Backend for the DataPoint protocol: each dispatched message is stored
/// under its dot-joined namespace, overwriting any earlier value; without a
/// store, messages are discarded.
pub struct DatapointBackend {
    store: Option<DataPointStore>,
}

impl DatapointBackend {
    /// The store this backend writes to, if any.
    pub closed spec fn store_view(&self) -> Option<Map<Seq<char>, Seq<u8>>> {
        match self.store {
            Some(s) => Some(s@),
            None => None,
        }
    }

    /// A backend without a store: every message is discarded.
    pub fn new() -> (r: Self)
        ensures
            r.store_view() is None,
    {
        DatapointBackend { store: None }
    }

    /// A backend that stores messages in `store`.
    pub fn with_store(store: DataPointStore) -> (r: Self)
        ensures
            r.store_view() == Some(store@),
    {
        DatapointBackend { store: Some(store) }
    }

    /// The store this backend writes to, if any.
    pub fn store(&self) -> (r: Option<&DataPointStore>)
        ensures
            match r {
                Some(s) => self.store_view() == Some(s@),
                None => self.store_view() is None,
            },
    {
        match &self.store {
            Some(s) => Some(s),
            None => None,
        }
    }

    /// Stores the machine JSON of `obj`, as UTF-8 bytes, under its dot-joined
    /// namespace; does nothing without a store.
    pub fn dispatch(&mut self, obj: &TraceObject)
        ensures
            match old(self).store_view() {
                Some(m) => final(self).store_view() == Some(
                    m.insert(datapoint_key(*obj), vstd::utf8::encode_utf8(obj.to_machine@)),
                ),
                None => final(self).store_view() is None,
            },
    {
        match &mut self.store {
            Some(store) => {
                let (key, value) = datapoint_entry(obj);
                store.put(key.as_str(), value);
            },
            None => {},
        }
    }
}

impl Default for DatapointBackend {
    fn default() -> (r: Self)
        ensures
            r.store_view() is None,
    {
        DatapointBackend::new()
    }
}

} // verus!
