//! The storage seam: a hub of named backends that read their own writes.

use vstd::prelude::*;

use crate::json::Json;
use crate::seam::error::SeamError;

verus! {

/// The name of a storage backend.
#[derive(Debug, PartialEq, Eq)]
pub struct BackendName(pub String);

impl View for BackendName {
    type V = Seq<char>;

    open spec fn view(&self) -> Seq<char> {
        self.0@
    }
}

/// A storage hub.
pub trait Storage {
    /// Store a value under a key.
    fn set(&self, backend: &BackendName, key: &str, value: Json) -> (r: Result<(), SeamError>);

    /// The value under a key, or `None` where there is none.
    fn get(&self, backend: &BackendName, key: &str) -> (r: Result<Option<Json>, SeamError>);

    /// Drop a key.
    fn delete(&self, backend: &BackendName, key: &str) -> (r: Result<(), SeamError>);
}

} // verus!
