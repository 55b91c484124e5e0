//! One stored credential.

use vstd::prelude::*;

use crate::seam::credentials::CredentialKind;
use crate::text::{owned, same};

verus! {

/// One stored credential record: the kind and the secret value.
#[derive(Debug, Clone, PartialEq, Eq)]
pub struct CredentialRecord {
    /// The stable kind spelling.
    pub kind: String,
    /// The secret value.
    pub value: String,
}

/// What a [`CredentialRecord`] says.
#[verifier::ext_equal]
pub struct RecordView {
    pub kind: Seq<char>,
    pub value: Seq<char>,
}

impl View for CredentialRecord {
    type V = RecordView;

    open spec fn view(&self) -> RecordView {
        RecordView { kind: self.kind@, value: self.value@ }
    }
}

/// The stable spelling of a kind in the store.
pub open spec fn spelling(kind: CredentialKind) -> Seq<char> {
    match kind {
        CredentialKind::Bearer => "bearer"@,
        CredentialKind::OAuth2 => "oauth2"@,
        CredentialKind::ApiKey => "api-key"@,
    }
}

/// The kind a spelling stands for, or `None` for a corrupt one.
pub open spec fn spelled(s: Seq<char>) -> Option<CredentialKind> {
    if s == "bearer"@ {
        Some(CredentialKind::Bearer)
    } else if s == "oauth2"@ {
        Some(CredentialKind::OAuth2)
    } else if s == "api-key"@ {
        Some(CredentialKind::ApiKey)
    } else {
        None
    }
}

/// The stable spelling of a kind in the store.
pub fn kind_spelling(kind: CredentialKind) -> (r: &'static str)
    ensures
        r@ == spelling(kind),
{
    match kind {
        CredentialKind::Bearer => "bearer",
        CredentialKind::OAuth2 => "oauth2",
        CredentialKind::ApiKey => "api-key",
    }
}

/// The kind a spelling stands for, or `None` for a corrupt one.
pub fn kind_from_spelling(s: &str) -> (r: Option<CredentialKind>)
    ensures
        r == spelled(s@),
{
    if same(s, "bearer") {
        Some(CredentialKind::Bearer)
    } else if same(s, "oauth2") {
        Some(CredentialKind::OAuth2)
    } else if same(s, "api-key") {
        Some(CredentialKind::ApiKey)
    } else {
        None
    }
}

/// Every kind is read back from its spelling.
pub proof fn law_kind_spellings_read_back(kind: CredentialKind)
    ensures
        spelled(spelling(kind)) == Some(kind),
{
    reveal_strlit("bearer");
    reveal_strlit("oauth2");
    reveal_strlit("api-key");
    assert("bearer"@[0] == 'b' && "oauth2"@[0] == 'o' && "api-key"@[0] == 'a');
}

impl RecordView {
    /// The record of a kind and a value.
    pub open spec fn of(kind: CredentialKind, value: Seq<char>) -> RecordView {
        RecordView { kind: spelling(kind), value }
    }
}

impl CredentialRecord {
    /// Build a record from a kind and a value.
    pub fn new(kind: CredentialKind, value: String) -> (r: CredentialRecord)
        ensures
            r@ == RecordView::of(kind, value@),
    {
        CredentialRecord { kind: owned(kind_spelling(kind)), value }
    }

    /// The kind this record spells, or `None` for a corrupt spelling.
    pub fn seam_kind(&self) -> (r: Option<CredentialKind>)
        ensures
            r == spelled(self@.kind),
    {
        kind_from_spelling(self.kind.as_str())
    }
}

} // verus!
