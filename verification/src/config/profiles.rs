//! Where profiles come from.

use vstd::prelude::*;

use crate::config::doc::ProfileSpec;
use crate::config::error::ConfigError;
use crate::config::memory::{keys, sorted_keys, MemoryStore};
use crate::text::{in_order, texts};

verus! {

/// A profile store: name to profile document.
pub trait ProfileStore {
    /// Load the profile named `name`, or `Ok(None)` when it does not exist.
    fn load(&self, name: &str) -> (r: Result<Option<ProfileSpec>, ConfigError>);

    /// Known profile names, in display order.
    fn names(&self) -> (r: Vec<String>);
}

impl ProfileStore for MemoryStore {
    fn load(&self, name: &str) -> (r: Result<Option<ProfileSpec>, ConfigError>)
        ensures
            match r {
                Ok(Some(p)) => self.profiles@.contains_key(name@) && p@ == self.profiles@[name@]@,
                Ok(None) => !self.profiles@.contains_key(name@),
                Err(_) => false,
            },
    {
        Ok(self.profile(name))
    }

    fn names(&self) -> (r: Vec<String>)
        ensures
            texts(r@) == in_order(keys(self.profiles.listed())),
    {
        sorted_keys(&self.profiles)
    }
}

impl<'a, S: ProfileStore> ProfileStore for &'a S {
    fn load(&self, name: &str) -> (r: Result<Option<ProfileSpec>, ConfigError>)
        ensures
            call_ensures(S::load, (*self, name), r),
    {
        (**self).load(name)
    }

    fn names(&self) -> (r: Vec<String>)
        ensures
            call_ensures(S::names, (*self,), r),
    {
        (**self).names()
    }
}

} // verus!
