//! An in-memory store of profiles and bundles.

use vstd::prelude::*;

use crate::assoc::Assoc;
use crate::config::doc::{BundleDoc, ProfileSpec};
use crate::text::{in_order, owned, sort, texts};

verus! {

/// The keys of a list of entries.
pub open spec fn keys<V>(entries: Seq<(String, V)>) -> Seq<Seq<char>> {
    entries.map_values(|e: (String, V)| e.0@)
}

/// The keys of a map, in order.
pub fn sorted_keys<V>(map: &Assoc<String, V>) -> (r: Vec<String>)
    ensures
        texts(r@) == in_order(keys(map.listed())),
{
    let mut names: Vec<String> = Vec::new();
    let mut i: usize = 0;
    while i < map.len()
        invariant
            i <= map.listed().len(),
            names@.len() == i,
            forall|k: int| 0 <= k < i ==> (#[trigger] names@[k])@ == map.listed()[k].0@,
        decreases map.listed().len() - i,
    {
        names.push(map.at(i).0.clone());
        i = i + 1;
    }
    assert(texts(names@) =~= keys(map.listed()));
    sort(&names)
}

/// An in-memory store for both profiles and bundles.
pub struct MemoryStore {
    /// Profiles by name.
    pub profiles: Assoc<String, ProfileSpec>,
    /// Bundles by name.
    pub bundles: Assoc<String, BundleDoc>,
}

impl MemoryStore {
    /// An empty store.
    pub fn new() -> (r: MemoryStore)
        ensures
            r.profiles@ == Map::<Seq<char>, ProfileSpec>::empty(),
            r.bundles@ == Map::<Seq<char>, BundleDoc>::empty(),
    {
        MemoryStore { profiles: Assoc::new(), bundles: Assoc::new() }
    }

    /// Add a profile under its own name.
    pub fn with_profile(self, profile: ProfileSpec) -> (r: MemoryStore)
        ensures
            r.profiles@ == self.profiles@.insert(profile.name@, profile),
            r.bundles == self.bundles,
    {
        let mut next = self;
        next.profiles.insert(profile.name.clone(), profile);
        next
    }

    /// Add a bundle under its own name.
    pub fn with_bundle(self, bundle: BundleDoc) -> (r: MemoryStore)
        ensures
            r.profiles == self.profiles,
            r.bundles@ == self.bundles@.insert(bundle.name@, bundle),
    {
        let mut next = self;
        next.bundles.insert(bundle.name.clone(), bundle);
        next
    }

    /// The profile of a name.
    pub fn profile(&self, name: &str) -> (r: Option<ProfileSpec>)
        ensures
            match r {
                Some(p) => self.profiles@.contains_key(name@) && p@ == self.profiles@[name@]@,
                None => !self.profiles@.contains_key(name@),
            },
    {
        match self.profiles.get(&owned(name)) {
            Some(p) => Some(p.copy()),
            None => None,
        }
    }

    /// The bundle of a name.
    pub fn bundle(&self, name: &str) -> (r: Option<BundleDoc>)
        ensures
            match r {
                Some(b) => self.bundles@.contains_key(name@) && b@ == self.bundles@[name@]@,
                None => !self.bundles@.contains_key(name@),
            },
    {
        match self.bundles.get(&owned(name)) {
            Some(b) => Some(b.copy()),
            None => None,
        }
    }
}

} // verus!
