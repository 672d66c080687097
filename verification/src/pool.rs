//! The index of all live resources by URI.

use crate::resource::{Resource, ResourceView};
use vstd::hash_map::StringHashMap;
use vstd::prelude::*;

verus! {

/// The live resources, each under its own URI.
pub struct ResourcePool {
    map: StringHashMap<Resource>,
}

impl View for ResourcePool {
    type V = Map<Seq<char>, ResourceView>;

    closed spec fn view(&self) -> Map<Seq<char>, ResourceView> {
        self.map@.map_values(|r: Resource| r@)
    }
}

impl ResourcePool {
    /// Every resource is stored under the URI that it bears.
    #[verifier::type_invariant]
    pub closed spec fn identity(&self) -> bool {
        forall|k: Seq<char>| self.map@.contains_key(k) ==> (#[trigger] self.map@[k])@.uri() == k
    }

    /// An empty pool.
    pub fn new() -> (pool: ResourcePool)
        ensures
            pool@ == Map::<Seq<char>, ResourceView>::empty(),
    {
        let pool = ResourcePool { map: StringHashMap::new() };
        assert(pool@ =~= Map::<Seq<char>, ResourceView>::empty());
        pool
    }

    /// Stores `resource` under its own URI, in place of what was stored
    /// under that URI before.
    pub fn insert(&mut self, resource: Resource)
        ensures
            final(self)@ == old(self)@.insert(resource@.uri(), resource@),
    {
        proof {
            use_type_invariant(&*self);
        }
        let uri = resource.uri().to_owned();
        // the map is taken out while it changes, so that the pool is never
        // seen half changed
        let mut map: StringHashMap<Resource> = StringHashMap::new();
        std::mem::swap(&mut self.map, &mut map);
        map.insert(uri, resource);
        std::mem::swap(&mut self.map, &mut map);
        assert(self@ =~= old(self)@.insert(resource@.uri(), resource@));
    }

    /// A copy of the resource stored under `uri`, if there is one. The copy
    /// bears the URI that was asked for.
    pub fn get(&self, uri: &str) -> (found: Option<Resource>)
        ensures
            match found {
                Some(resource) => self@.contains_key(uri@) && resource@ == self@[uri@]
                    && resource@.uri() == uri@,
                None => !self@.contains_key(uri@),
            },
    {
        proof {
            use_type_invariant(self);
        }
        match self.map.get(uri) {
            Some(resource) => Some(resource.clone()),
            None => None,
        }
    }

    /// Whether a resource is stored under `uri`.
    pub fn contains(&self, uri: &str) -> (found: bool)
        ensures
            found == self@.contains_key(uri@),
    {
        self.map.contains_key(uri)
    }

    /// Drops what is stored under `uri`, if anything is.
    pub fn remove(&mut self, uri: &str)
        ensures
            final(self)@ == old(self)@.remove(uri@),
    {
        proof {
            use_type_invariant(&*self);
        }
        let mut map: StringHashMap<Resource> = StringHashMap::new();
        std::mem::swap(&mut self.map, &mut map);
        map.remove(uri);
        std::mem::swap(&mut self.map, &mut map);
        assert(self@ =~= old(self)@.remove(uri@));
    }

    /// The number of resources in the pool.
    pub fn len(&self) -> (n: usize)
        ensures
            n == self@.len(),
    {
        let n = self.map.len();
        proof {
            lemma_same_size(self.map@);
        }
        n
    }
}

/// A map has as many keys as the map of its values' views.
proof fn lemma_same_size(m: Map<Seq<char>, Resource>)
    ensures
        m.map_values(|r: Resource| r@).len() == m.len(),
{
    assert(m.map_values(|r: Resource| r@).dom() =~= m.dom());
}

} // verus!
