//! Key-value store.
//!
//! The state that commands run against: a mapping from key names to byte
//! strings, read and written one key at a time.

use crate::byte_string::byte_string;
use bytes::Bytes;
use vstd::hash_map::StringHashMap;
use vstd::prelude::*;

verus! {

/// The store: at most one value under each key.
pub struct Db {
    entries: StringHashMap<Bytes>,
}

impl View for Db {
    type V = Map<Seq<char>, Seq<u8>>;

    /// The stored bytes under each key that is present.
    closed spec fn view(&self) -> Map<Seq<char>, Seq<u8>> {
        self.entries@.map_values(|data: Bytes| byte_string(data))
    }
}

impl Db {
    /// An empty store.
    pub fn new() -> (db: Db)
        ensures
            db@ == Map::<Seq<char>, Seq<u8>>::empty(),
    {
        let db = Db { entries: StringHashMap::new() };
        assert(db@ =~= Map::<Seq<char>, Seq<u8>>::empty());
        db
    }

    /// The value stored under `key`, if there is one.
    pub fn get(&self, key: &str) -> (value: Option<Bytes>)
        ensures
            match value {
                Some(data) => self@.contains_key(key@) && byte_string(data) == self@[key@],
                None => !self@.contains_key(key@),
            },
    {
        match self.entries.get(key) {
            Some(data) => Some(data.clone()),
            None => None,
        }
    }

    /// Stores `value` under `key`, in place of what was there before.
    pub fn set(&mut self, key: String, value: Bytes)
        ensures
            final(self)@ == old(self)@.insert(key@, byte_string(value)),
    {
        self.entries.insert(key, value);
        assert(self@ =~= old(self)@.insert(key@, byte_string(value)));
    }
}

} // verus!
