//! The location table: locations stored under their integer keys in a
//! hash map of the `hashbrown` crate. The map itself is outside code;
//! its contents are named by [`table_contents`] and every access goes
//! through the small trusted wrappers below, whose contracts state what
//! `hashbrown`'s source shows of `new`, `insert` and `get` for integer
//! keys.

use vstd::prelude::*;

use crate::world::Location;

verus! {

/// Holds a `hashbrown::HashMap` from integer location keys to locations.
/// Opaque to the verifier; described solely by [`table_contents`].
#[verifier::external_body]
pub struct LocTable {
    m: hashbrown::HashMap<u64, Location>,
}

/// The mathematical contents of a location table: which location each
/// integer key is mapped to.
pub uninterp spec fn table_contents(t: LocTable) -> Map<u64, Location>;

/// The contents of a table that holds nothing.
pub open spec fn no_contents() -> Map<u64, Location> {
    Map::empty()
}

impl LocTable {
    /// Relies on `hashbrown::HashMap::new`: the new map holds nothing.
    #[verifier::external_body]
    pub fn empty() -> (r: LocTable)
        ensures
            table_contents(r) == no_contents(),
    {
        LocTable { m: hashbrown::HashMap::new() }
    }

    /// Relies on `hashbrown::HashMap::insert`: afterwards `k` is mapped
    /// to `v` and every other key keeps its binding.
    #[verifier::external_body]
    pub fn insert(&mut self, k: u64, v: Location)
        ensures
            table_contents(*final(self)) == table_contents(*old(self)).insert(k, v),
    {
        self.m.insert(k, v);
    }

    /// Relies on `hashbrown::HashMap::get`: returns the value bound to
    /// `k`, or nothing when `k` is absent.
    #[verifier::external_body]
    pub fn get(&self, k: u64) -> (r: Option<&Location>)
        ensures
            match r {
                Some(l) => table_contents(*self).contains_key(k) && *l == table_contents(*self)[k],
                None => !table_contents(*self).contains_key(k),
            },
    {
        self.m.get(&k)
    }
}

} // verus!
