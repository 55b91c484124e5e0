//! The credentials seam: configuration holds references, the provider owns the
//! values, and consumers resolve per operation.

use vstd::prelude::*;

use crate::seam::error::SeamError;
use crate::text::owned;

verus! {

/// A reference to a stored secret.
#[derive(Debug, PartialEq, Eq)]
pub struct CredentialRef(pub String);

impl View for CredentialRef {
    type V = Seq<char>;

    open spec fn view(&self) -> Seq<char> {
        self.0@
    }
}

impl CredentialRef {
    /// A reference of this name.
    pub fn new(name: &str) -> (r: CredentialRef)
        ensures
            r@ == name@,
    {
        CredentialRef(owned(name))
    }
}

/// What a secret is used as.
#[derive(Debug, Clone, Copy, PartialEq, Eq, Structural)]
pub enum CredentialKind {
    Bearer,
    OAuth2,
    ApiKey,
}

impl CredentialKind {
    /// The name of the kind, as a diagnostic writes it.
    pub open spec fn shown(self) -> Seq<char> {
        match self {
            CredentialKind::Bearer => "Bearer"@,
            CredentialKind::OAuth2 => "OAuth2"@,
            CredentialKind::ApiKey => "ApiKey"@,
        }
    }

    /// The name of the kind, as a diagnostic writes it.
    pub fn name(self) -> (r: &'static str)
        ensures
            r@ == self.shown(),
    {
        match self {
            CredentialKind::Bearer => "Bearer",
            CredentialKind::OAuth2 => "OAuth2",
            CredentialKind::ApiKey => "ApiKey",
        }
    }
}

/// A credentials provider.
pub trait Credentials {
    /// The secret a reference stands for, or `None` where there is none.
    fn resolve(&self, reference: &CredentialRef) -> (r: Result<Option<String>, SeamError>);

    /// The kind of a reference that resolves.
    fn kind(&self, reference: &CredentialRef) -> (r: Result<Option<CredentialKind>, SeamError>);
}

} // verus!
