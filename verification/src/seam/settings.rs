//! The settings seam: namespaced values, and descriptors that never hold one.

use vstd::prelude::*;

use crate::json::Json;
use crate::seam::error::SeamError;

verus! {

/// A settings namespace.
#[derive(Debug, PartialEq, Eq)]
pub struct Namespace(pub String);

impl View for Namespace {
    type V = Seq<char>;

    open spec fn view(&self) -> Seq<char> {
        self.0@
    }
}

/// What can be said of a setting without its value.
#[derive(Debug, PartialEq, Eq)]
pub struct Descriptor {
    /// Whether the setting has a value.
    pub present: bool,
    /// A summary that holds no value.
    pub summary: String,
}

/// A settings provider.
pub trait Settings {
    /// The value of a setting, or `None` where there is none.
    fn get(&self, namespace: &Namespace, key: &str) -> (r: Result<Option<Json>, SeamError>);

    /// The descriptor of a setting.
    fn describe(&self, namespace: &Namespace, key: &str) -> (r: Result<
        Option<Descriptor>,
        SeamError,
    >);
}

} // verus!
