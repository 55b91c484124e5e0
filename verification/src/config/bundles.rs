//! Where bundles come from.

use vstd::prelude::*;

use crate::config::doc::BundleDoc;
use crate::config::error::ConfigError;
use crate::config::memory::{keys, sorted_keys, MemoryStore};
use crate::text::{in_order, texts};

verus! {

/// A bundle store: name to bundle document.
pub trait BundleStore {
    /// Load the bundle named `name`, or `Ok(None)` when it does not exist.
    fn load(&self, name: &str) -> (r: Result<Option<BundleDoc>, ConfigError>);

    /// Known bundle names, in display order.
    fn names(&self) -> (r: Vec<String>);
}

impl BundleStore for MemoryStore {
    fn load(&self, name: &str) -> (r: Result<Option<BundleDoc>, ConfigError>)
        ensures
            match r {
                Ok(Some(b)) => self.bundles@.contains_key(name@) && b@ == self.bundles@[name@]@,
                Ok(None) => !self.bundles@.contains_key(name@),
                Err(_) => false,
            },
    {
        Ok(self.bundle(name))
    }

    fn names(&self) -> (r: Vec<String>)
        ensures
            texts(r@) == in_order(keys(self.bundles.listed())),
    {
        sorted_keys(&self.bundles)
    }
}

impl<'a, S: BundleStore> BundleStore for &'a S {
    fn load(&self, name: &str) -> (r: Result<Option<BundleDoc>, ConfigError>)
        ensures
            call_ensures(S::load, (*self, name), r),
    {
        (**self).load(name)
    }

    fn names(&self) -> (r: Vec<String>)
        ensures
            call_ensures(S::names, (*self,), r),
    {
        (**self).names()
    }
}

} // verus!
