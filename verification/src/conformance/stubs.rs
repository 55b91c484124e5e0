//! Cheap probes for the seams that have no suite of their own.
//!
//! Each probe needs nothing but the seam itself. A finding means the provider
//! broke a cheap invariant: these are floors, not ceilings.

use vstd::prelude::*;

use crate::conformance::report::{violations_view, Violation, ViolationView};
use crate::json::{json_opt, json_text, Json, JsonView};
use crate::seam::credentials::{CredentialKind, CredentialRef, Credentials};
use crate::seam::error::{SeamError, SeamErrorView};
use crate::seam::settings::{Descriptor, Namespace, Settings};
use crate::seam::storage::{BackendName, Storage};
use crate::text::{cat, cat3, cat4, cat5, contains, occurs, owned, same};

verus! {

/// One finding, or none.
pub open spec fn found(case: Seq<char>, detail: Seq<char>) -> Seq<ViolationView> {
    seq![ViolationView { case, detail }]
}

fn one(case: &str, detail: &str) -> (r: Vec<Violation>)
    ensures
        violations_view(r@) == found(case@, detail@),
{
    let mut out: Vec<Violation> = Vec::new();
    out.push(Violation::new(case, detail));
    assert(violations_view(out@) =~= found(case@, detail@));
    out
}

fn none() -> (r: Vec<Violation>)
    ensures
        violations_view(r@) == Seq::<ViolationView>::empty(),
{
    let out: Vec<Violation> = Vec::new();
    assert(violations_view(out@) =~= Seq::<ViolationView>::empty());
    out
}

fn join(a: Vec<Violation>, b: Vec<Violation>) -> (r: Vec<Violation>)
    ensures
        violations_view(r@) == violations_view(a@) + violations_view(b@),
{
    let mut out = a;
    let mut more = b;
    out.append(&mut more);
    assert(violations_view(out@) =~= violations_view(a@) + violations_view(b@));
    out
}

// ---------------------------------------------------------------------------
// Settings
// ---------------------------------------------------------------------------

pub const PROBE_NAME: &'static str = "harnless-conformance";

pub const ABSENT_KEY: &'static str = "harnless-conformance.absent-key.7f3c";

/// What descriptor honesty finds, given what `get` and then `describe` of an
/// unknown key answered.
pub open spec fn settings_findings(
    value: Option<JsonView>,
    described: Result<Option<(bool, Seq<char>)>, SeamErrorView>,
) -> Seq<ViolationView> {
    match described {
        Err(e) => found(
            "settings_absent_key"@,
            "describe of an unknown key failed with "@ + e.shown(),
        ),
        Ok(None) => if value is None {
            Seq::empty()
        } else {
            found(
                "settings_absent_key"@,
                "describe returned None for a key get resolved; descriptor must mirror resolution"@,
            )
        },
        Ok(Some((present, summary))) => (if present != (value is Some) {
            found(
                "settings_absent_key"@,
                "describe reports present = "@ + (if present {
                    "true"@
                } else {
                    "false"@
                }) + " but get returned "@ + (if value is Some {
                    "Some"@
                } else {
                    "None"@
                }) + "; descriptor must agree with resolution"@,
            )
        } else {
            Seq::empty()
        }) + (match value {
            Some(v) => if occurs(summary, json_text(v)) {
                found(
                    "settings_redaction"@,
                    "descriptor summary leaks the raw value; descriptors are value-free by contract"@,
                )
            } else {
                Seq::empty()
            },
            None => Seq::empty(),
        }),
    }
}

/// What a descriptor answer says.
pub open spec fn described_view(r: Result<Option<Descriptor>, SeamError>) -> Result<
    Option<(bool, Seq<char>)>,
    SeamErrorView,
> {
    match r {
        Err(e) => Err(e@),
        Ok(None) => Ok(None),
        Ok(Some(d)) => Ok(Some((d.present, d.summary@))),
    }
}

/// Judge what `describe` answered about a key `get` resolved as `value`.
pub fn judge_settings(value: &Option<Json>, described: &Result<Option<Descriptor>, SeamError>) -> (r:
    Vec<Violation>)
    ensures
        violations_view(r@) == settings_findings(json_opt(*value), described_view(*described)),
{
    match described {
        Err(e) => {
            let shown = e.display();
            let detail = cat("describe of an unknown key failed with ", shown.as_str());
            one("settings_absent_key", detail.as_str())
        },
        Ok(None) => match value {
            None => none(),
            Some(_) => one(
                "settings_absent_key",
                "describe returned None for a key get resolved; descriptor must mirror resolution",
            ),
        },
        Ok(Some(d)) => {
            let present = match value {
                Some(_) => true,
                None => false,
            };
            let agreed = if d.present != present {
                let said = if d.present {
                    "true"
                } else {
                    "false"
                };
                let got = if present {
                    "Some"
                } else {
                    "None"
                };
                let detail = cat5(
                    "describe reports present = ",
                    said,
                    " but get returned ",
                    got,
                    "; descriptor must agree with resolution",
                );
                one("settings_absent_key", detail.as_str())
            } else {
                none()
            };
            let redacted = match value {
                Some(v) => {
                    let raw = v.render();
                    if contains(d.summary.as_str(), raw.as_str()) {
                        one(
                            "settings_redaction",
                            "descriptor summary leaks the raw value; descriptors are value-free by contract",
                        )
                    } else {
                        none()
                    }
                },
                None => none(),
            };
            join(agreed, redacted)
        },
    }
}

/// Whether `get` of the probe key answered `r`.
pub open spec fn settings_got<S: Settings>(s: S, r: Result<Option<Json>, SeamError>) -> bool {
    exists|ns: Namespace, key: &str|
        ns@ == PROBE_NAME@ && key@ == ABSENT_KEY@ && #[trigger] call_ensures(
            S::get,
            (&s, &ns, key),
            r,
        )
}

/// Whether `describe` of the probe key answered `r`.
pub open spec fn settings_described<S: Settings>(
    s: S,
    r: Result<Option<Descriptor>, SeamError>,
) -> bool {
    exists|ns: Namespace, key: &str|
        ns@ == PROBE_NAME@ && key@ == ABSENT_KEY@ && #[trigger] call_ensures(
            S::describe,
            (&s, &ns, key),
            r,
        )
}

/// Cheap checks for a settings provider: a descriptor agrees with resolution and
/// holds no value.
pub fn check_settings<S: Settings>(settings: &S) -> (r: Vec<Violation>)
    ensures
        exists|got: Result<Option<Json>, SeamError>| #[trigger]
            settings_got(*settings, got) && match got {
                Err(e) => violations_view(r@) == found(
                    "settings_absent_key"@,
                    "get of an unknown key failed with "@ + e@.shown()
                        + "; absent must be Ok(None)"@,
                ),
                Ok(value) => exists|described: Result<Option<Descriptor>, SeamError>| #[trigger]
                    settings_described(*settings, described) && violations_view(r@)
                        == settings_findings(json_opt(value), described_view(described)),
            },
{
    let ns = Namespace(owned(PROBE_NAME));
    let key = ABSENT_KEY;
    let got = settings.get(&ns, key);
    assert(call_ensures(S::get, (settings, &ns, key), got));
    assert(settings_got(*settings, got));
    match got {
        Err(e) => {
            let shown = e.display();
            let detail = cat3(
                "get of an unknown key failed with ",
                shown.as_str(),
                "; absent must be Ok(None)",
            );
            one("settings_absent_key", detail.as_str())
        },
        Ok(value) => {
            let described = settings.describe(&ns, key);
            assert(call_ensures(S::describe, (settings, &ns, key), described));
            assert(settings_described(*settings, described));
            judge_settings(&value, &described)
        },
    }
}

// ---------------------------------------------------------------------------
// Storage
// ---------------------------------------------------------------------------

pub const SCRATCH_KEY: &'static str = "harnless-conformance.scratch.7f3c";

pub const PROBE_VALUE: &'static str = "conformance-probe";

/// What a storage answer says.
pub open spec fn stored_view(r: Result<Option<Json>, SeamError>) -> Result<
    Option<JsonView>,
    SeamErrorView,
> {
    match r {
        Err(e) => Err(e@),
        Ok(v) => Ok(json_opt(v)),
    }
}

/// What read-your-writes finds, given what `get` answered after `set`.
pub open spec fn roundtrip_findings(read: Result<Option<JsonView>, SeamErrorView>) -> Seq<
    ViolationView,
> {
    match read {
        Err(e) => found("storage_roundtrip"@, "get after set failed: "@ + e.shown()),
        Ok(None) => found(
            "storage_roundtrip"@,
            "get after set returned None; a hub must read its own writes"@,
        ),
        Ok(Some(v)) => if v == JsonView::Text(PROBE_VALUE@) {
            Seq::empty()
        } else {
            found(
                "storage_roundtrip"@,
                "get after set returned "@ + json_text(v) + ", expected "@ + json_text(
                    JsonView::Text(PROBE_VALUE@),
                ),
            )
        },
    }
}

/// What delete honesty finds, given what `get` answered after `delete`.
pub open spec fn delete_findings(read: Result<Option<JsonView>, SeamErrorView>) -> Seq<
    ViolationView,
> {
    match read {
        Err(e) => found("storage_delete"@, "get after delete failed: "@ + e.shown()),
        Ok(None) => Seq::empty(),
        Ok(Some(v)) => found(
            "storage_delete"@,
            "get after delete still returns "@ + json_text(v),
        ),
    }
}

/// Judge what `get` answered after `set`.
pub fn judge_roundtrip(read: &Result<Option<Json>, SeamError>) -> (r: Vec<Violation>)
    ensures
        violations_view(r@) == roundtrip_findings(stored_view(*read)),
{
    match read {
        Err(e) => {
            let shown = e.display();
            let detail = cat("get after set failed: ", shown.as_str());
            one("storage_roundtrip", detail.as_str())
        },
        Ok(None) => one(
            "storage_roundtrip",
            "get after set returned None; a hub must read its own writes",
        ),
        Ok(Some(v)) => {
            if let Some(s) = v.as_str() {
                if same(s, PROBE_VALUE) {
                    return none();
                }
            }
            let got = v.render();
            let expected = Json::text(PROBE_VALUE).render();
            let detail = cat4(
                "get after set returned ",
                got.as_str(),
                ", expected ",
                expected.as_str(),
            );
            one("storage_roundtrip", detail.as_str())
        },
    }
}

/// Judge what `get` answered after `delete`.
pub fn judge_delete(read: &Result<Option<Json>, SeamError>) -> (r: Vec<Violation>)
    ensures
        violations_view(r@) == delete_findings(stored_view(*read)),
{
    match read {
        Err(e) => {
            let shown = e.display();
            let detail = cat("get after delete failed: ", shown.as_str());
            one("storage_delete", detail.as_str())
        },
        Ok(None) => none(),
        Ok(Some(v)) => {
            let got = v.render();
            let detail = cat("get after delete still returns ", got.as_str());
            one("storage_delete", detail.as_str())
        },
    }
}

/// Whether `set` of the probe answered `r`.
pub open spec fn storage_set<S: Storage>(s: S, r: Result<(), SeamError>) -> bool {
    exists|b: BackendName, key: &str, value: Json|
        b@ == PROBE_NAME@ && key@ == SCRATCH_KEY@ && value@ == JsonView::Text(PROBE_VALUE@)
            && #[trigger] call_ensures(S::set, (&s, &b, key, value), r)
}

/// Whether `get` of the probe key answered `r`.
pub open spec fn storage_got<S: Storage>(s: S, r: Result<Option<Json>, SeamError>) -> bool {
    exists|b: BackendName, key: &str|
        b@ == PROBE_NAME@ && key@ == SCRATCH_KEY@ && #[trigger] call_ensures(
            S::get,
            (&s, &b, key),
            r,
        )
}

/// Whether `delete` of the probe key answered `r`.
pub open spec fn storage_deleted<S: Storage>(s: S, r: Result<(), SeamError>) -> bool {
    exists|b: BackendName, key: &str|
        b@ == PROBE_NAME@ && key@ == SCRATCH_KEY@ && #[trigger] call_ensures(
            S::delete,
            (&s, &b, key),
            r,
        )
}

/// A call that the storage probe makes next.
pub enum StorageCall {
    /// Store the probe value.
    Store,
    /// Read the probe key.
    Get,
    /// Drop the probe key.
    Delete,
    /// The probe is over.
    Done(Vec<Violation>),
}

/// What a [`StorageCall`] says.
pub enum StorageCallView {
    Store,
    Get,
    Delete,
    Done(Seq<ViolationView>),
}

impl View for StorageCall {
    type V = StorageCallView;

    open spec fn view(&self) -> StorageCallView {
        match *self {
            StorageCall::Store => StorageCallView::Store,
            StorageCall::Get => StorageCallView::Get,
            StorageCall::Delete => StorageCallView::Delete,
            StorageCall::Done(found) => StorageCallView::Done(violations_view(found@)),
        }
    }
}

/// The hub's answer to a call.
pub enum StorageReply {
    Stored(Result<(), SeamError>),
    Got(Result<Option<Json>, SeamError>),
    Deleted(Result<(), SeamError>),
}

/// Where the storage probe stands: the call whose answer it waits for, and what it
/// has found.
pub enum StorageStage {
    /// Storing the probe value.
    Setting,
    /// Reading it back.
    Getting,
    /// Dropping it.
    Deleting(Vec<Violation>),
    /// Reading what was dropped.
    Missing(Vec<Violation>),
}

/// What a [`StorageStage`] says.
pub enum StorageStageView {
    Setting,
    Getting,
    Deleting(Seq<ViolationView>),
    Missing(Seq<ViolationView>),
    Over,
}

impl View for StorageStage {
    type V = StorageStageView;

    open spec fn view(&self) -> StorageStageView {
        match *self {
            StorageStage::Setting => StorageStageView::Setting,
            StorageStage::Getting => StorageStageView::Getting,
            StorageStage::Deleting(found) => StorageStageView::Deleting(violations_view(found@)),
            StorageStage::Missing(found) => StorageStageView::Missing(violations_view(found@)),
        }
    }
}

impl StorageStageView {
    /// The call that is made at this stage.
    pub open spec fn call(self) -> StorageCallView {
        match self {
            StorageStageView::Setting => StorageCallView::Store,
            StorageStageView::Getting => StorageCallView::Get,
            StorageStageView::Deleting(_) => StorageCallView::Delete,
            StorageStageView::Missing(_) => StorageCallView::Get,
            StorageStageView::Over => StorageCallView::Done(Seq::empty()),
        }
    }

    /// Whether a reply answers that call.
    pub open spec fn expects(self, reply: StorageReply) -> bool {
        match self {
            StorageStageView::Setting => reply is Stored,
            StorageStageView::Getting => reply is Got,
            StorageStageView::Deleting(_) => reply is Deleted,
            StorageStageView::Missing(_) => reply is Got,
            StorageStageView::Over => false,
        }
    }

    /// How many calls are left.
    pub open spec fn left(self) -> nat {
        match self {
            StorageStageView::Setting => 4,
            StorageStageView::Getting => 3,
            StorageStageView::Deleting(_) => 2,
            StorageStageView::Missing(_) => 1,
            StorageStageView::Over => 0,
        }
    }

    /// Where the probe stands after an answer, and the call it makes then: it
    /// stores, reads, drops and reads again, in this order.
    pub open spec fn moved(self, reply: StorageReply) -> (StorageStageView, StorageCallView) {
        match (self, reply) {
            (StorageStageView::Setting, StorageReply::Stored(Err(e))) => (
                StorageStageView::Over,
                StorageCallView::Done(
                    found("storage_roundtrip"@, "set failed: "@ + e@.shown()),
                ),
            ),
            (StorageStageView::Setting, StorageReply::Stored(Ok(_))) => (
                StorageStageView::Getting,
                StorageCallView::Get,
            ),
            (StorageStageView::Getting, StorageReply::Got(read)) => (
                StorageStageView::Deleting(roundtrip_findings(stored_view(read))),
                StorageCallView::Delete,
            ),
            (StorageStageView::Deleting(first), StorageReply::Deleted(Err(e))) => (
                StorageStageView::Over,
                StorageCallView::Done(
                    first + found("storage_delete"@, "delete failed: "@ + e@.shown()),
                ),
            ),
            (StorageStageView::Deleting(first), StorageReply::Deleted(Ok(_))) => (
                StorageStageView::Missing(first),
                StorageCallView::Get,
            ),
            (StorageStageView::Missing(first), StorageReply::Got(after)) => (
                StorageStageView::Over,
                StorageCallView::Done(first + delete_findings(stored_view(after))),
            ),
            _ => arbitrary(),
        }
    }
}

impl StorageStage {
    /// Take in the answer to the call that is made at this stage.
    pub fn resume(self, reply: StorageReply) -> (r: (Option<StorageStage>, StorageCall))
        requires
            self@.expects(reply),
        ensures
            r.1@ == self@.moved(reply).1,
            r.0 is None <==> r.1@ is Done,
            r.0 matches Some(stage) ==> stage@ == self@.moved(reply).0,
    {
        match (self, reply) {
            (StorageStage::Setting, StorageReply::Stored(set)) => match set {
                Err(e) => {
                    let shown = e.display();
                    let detail = cat("set failed: ", shown.as_str());
                    (None, StorageCall::Done(one("storage_roundtrip", detail.as_str())))
                },
                Ok(_) => (Some(StorageStage::Getting), StorageCall::Get),
            },
            (StorageStage::Getting, StorageReply::Got(read)) => {
                (Some(StorageStage::Deleting(judge_roundtrip(&read))), StorageCall::Delete)
            },
            (StorageStage::Deleting(first), StorageReply::Deleted(gone)) => match gone {
                Err(e) => {
                    let shown = e.display();
                    let detail = cat("delete failed: ", shown.as_str());
                    let both = join(first, one("storage_delete", detail.as_str()));
                    (None, StorageCall::Done(both))
                },
                Ok(_) => (Some(StorageStage::Missing(first)), StorageCall::Get),
            },
            (StorageStage::Missing(first), StorageReply::Got(after)) => {
                (None, StorageCall::Done(join(first, judge_delete(&after))))
            },
            _ => {
                assert(false);
                (None, StorageCall::Done(none()))
            },
        }
    }
}

/// Whether `reply` is an answer of the hub to `call`.
pub open spec fn storage_answers<S: Storage>(
    s: S,
    call: StorageCallView,
    reply: StorageReply,
) -> bool {
    match (call, reply) {
        (StorageCallView::Store, StorageReply::Stored(r)) => storage_set(s, r),
        (StorageCallView::Get, StorageReply::Got(r)) => storage_got(s, r),
        (StorageCallView::Delete, StorageReply::Deleted(r)) => storage_deleted(s, r),
        _ => false,
    }
}

/// Whether `replies` are the hub's answers to the calls of the probe from this
/// point on, and `out` is what it then comes to.
pub open spec fn storage_run<S: Storage>(
    s: S,
    at: (StorageStageView, StorageCallView),
    replies: Seq<StorageReply>,
    out: Seq<ViolationView>,
) -> bool
    decreases replies.len(),
{
    match at.1 {
        StorageCallView::Done(found) => replies.len() == 0 && found == out,
        call => replies.len() > 0 && storage_answers(s, call, replies[0]) && storage_run(
            s,
            at.0.moved(replies[0]),
            replies.skip(1),
            out,
        ),
    }
}

/// The probe asks for what its stage says, and has fewer calls left after each
/// answer.
pub proof fn law_a_storage_probe_ends(stage: StorageStageView, reply: StorageReply)
    requires
        stage.expects(reply),
    ensures
        stage.moved(reply).0.left() < stage.left() <= 4,
        stage.moved(reply).0 is Over <==> stage.moved(reply).1 is Done,
        !(stage.moved(reply).0 is Over) ==> stage.moved(reply).1 == stage.moved(reply).0.call(),
{
}

/// Make every call of the probe from this stage on, in turn.
fn probe_storage<S: Storage>(storage: &S, stage: StorageStage) -> (r: Vec<Violation>)
    ensures
        exists|replies: Seq<StorageReply>| #[trigger]
            storage_run(*storage, (stage@, stage@.call()), replies, violations_view(r@)),
    decreases stage@.left(),
{
    let ghost at = stage@;
    let backend = BackendName(owned(PROBE_NAME));
    let key = SCRATCH_KEY;
    let reply = match &stage {
        StorageStage::Setting => {
            let probe = Json::text(PROBE_VALUE);
            let ghost value = probe;
            let put = storage.set(&backend, key, probe);
            assert(call_ensures(S::set, (storage, &backend, key, value), put));
            assert(storage_set(*storage, put));
            StorageReply::Stored(put)
        },
        StorageStage::Deleting(_) => {
            let gone = storage.delete(&backend, key);
            assert(call_ensures(S::delete, (storage, &backend, key), gone));
            assert(storage_deleted(*storage, gone));
            StorageReply::Deleted(gone)
        },
        _ => {
            let read = storage.get(&backend, key);
            assert(call_ensures(S::get, (storage, &backend, key), read));
            assert(storage_got(*storage, read));
            StorageReply::Got(read)
        },
    };
    let ghost answer = reply;
    assert(storage_answers(*storage, at.call(), answer));
    proof {
        law_a_storage_probe_ends(at, answer);
    }
    let (left, next) = stage.resume(reply);
    match left {
        Some(stage) => {
            let out = probe_storage(storage, stage);
            proof {
                let rest = choose|replies: Seq<StorageReply>| #[trigger]
                    storage_run(*storage, at.moved(answer), replies, violations_view(out@));
                let whole = seq![answer] + rest;
                assert(whole.skip(1) =~= rest);
                assert(storage_run(*storage, (at, at.call()), whole, violations_view(out@)));
            }
            out
        },
        None => match next {
            StorageCall::Done(out) => {
                proof {
                    let whole = seq![answer];
                    assert(whole.skip(1) =~= Seq::<StorageReply>::empty());
                    assert(storage_run(
                        *storage,
                        at.moved(answer),
                        whole.skip(1),
                        violations_view(out@),
                    ));
                    assert(storage_run(*storage, (at, at.call()), whole, violations_view(out@)));
                }
                out
            },
            _ => {
                assert(false);
                none()
            },
        },
    }
}

/// Cheap checks for a storage hub: it reads its own writes, and what it deleted
/// is gone.
pub fn check_storage<S: Storage>(storage: &S) -> (r: Vec<Violation>)
    ensures
        exists|replies: Seq<StorageReply>| #[trigger]
            storage_run(
                *storage,
                (StorageStageView::Setting, StorageCallView::Store),
                replies,
                violations_view(r@),
            ),
{
    probe_storage(storage, StorageStage::Setting)
}

// ---------------------------------------------------------------------------
// Credentials
// ---------------------------------------------------------------------------

pub const ABSENT_REF: &'static str = "harnless-conformance-absent-7f3c";

/// What reference honesty finds, given what `resolve` and `kind` answered of the
/// unknown reference. A refusal by `resolve` is consistent with `kind` where
/// `kind` refuses with the same code, or knows of nothing.
pub open spec fn credentials_findings(
    resolved: Result<bool, SeamErrorView>,
    kind: Result<Option<CredentialKind>, SeamErrorView>,
) -> Seq<ViolationView> {
    match resolved {
        Err(e) => {
            let consistent = match kind {
                Err(k) => k.code == e.code,
                Ok(k) => k is None,
            };
            if consistent {
                Seq::empty()
            } else {
                found(
                    "credentials_absent_ref"@,
                    "resolve of an unknown reference failed with "@ + e.shown()
                        + "; absent references must be Ok(None) or a typed refusal consistent with kind"@,
                )
            }
        },
        Ok(some) => match kind {
            Err(e) => found(
                "credentials_absent_ref"@,
                "kind of an unknown reference failed with "@ + e.shown(),
            ),
            Ok(Some(k)) => if some {
                Seq::empty()
            } else {
                found(
                    "credentials_absent_ref"@,
                    "kind reported "@ + k.shown()
                        + " for a reference that resolves to None; kind must agree with resolvability"@,
                )
            },
            Ok(None) => Seq::empty(),
        },
    }
}

/// What a resolve answer says: whether there was a value, or the refusal.
pub open spec fn resolved_view(r: Result<Option<String>, SeamError>) -> Result<
    bool,
    SeamErrorView,
> {
    match r {
        Err(e) => Err(e@),
        Ok(value) => Ok(value is Some),
    }
}

/// What a kind answer says.
pub open spec fn kind_view(r: Result<Option<CredentialKind>, SeamError>) -> Result<
    Option<CredentialKind>,
    SeamErrorView,
> {
    match r {
        Err(e) => Err(e@),
        Ok(k) => Ok(k),
    }
}

/// Judge what `resolve` and `kind` answered about one reference.
pub fn judge_credentials(
    resolved: &Result<Option<String>, SeamError>,
    kind: &Result<Option<CredentialKind>, SeamError>,
) -> (r: Vec<Violation>)
    ensures
        violations_view(r@) == credentials_findings(resolved_view(*resolved), kind_view(*kind)),
{
    let value = match resolved {
        Err(e) => {
            let consistent = match kind {
                Err(k) => k.code == e.code,
                Ok(k) => k.is_none(),
            };
            if consistent {
                return none();
            }
            let shown = e.display();
            let detail = cat3(
                "resolve of an unknown reference failed with ",
                shown.as_str(),
                "; absent references must be Ok(None) or a typed refusal consistent with kind",
            );
            return one("credentials_absent_ref", detail.as_str());
        },
        Ok(value) => value,
    };
    match kind {
        Err(e) => {
            let shown = e.display();
            let detail = cat("kind of an unknown reference failed with ", shown.as_str());
            one("credentials_absent_ref", detail.as_str())
        },
        Ok(Some(k)) => {
            if value.is_some() {
                return none();
            }
            let detail = cat3(
                "kind reported ",
                k.name(),
                " for a reference that resolves to None; kind must agree with resolvability",
            );
            one("credentials_absent_ref", detail.as_str())
        },
        Ok(None) => none(),
    }
}

/// Whether `resolve` of the probe reference answered `r`.
pub open spec fn credentials_resolved<C: Credentials>(
    c: C,
    r: Result<Option<String>, SeamError>,
) -> bool {
    exists|reference: CredentialRef|
        reference@ == ABSENT_REF@ && #[trigger] call_ensures(C::resolve, (&c, &reference), r)
}

/// Whether `kind` of the probe reference answered `r`.
pub open spec fn credentials_kind<C: Credentials>(
    c: C,
    r: Result<Option<CredentialKind>, SeamError>,
) -> bool {
    exists|reference: CredentialRef|
        reference@ == ABSENT_REF@ && #[trigger] call_ensures(C::kind, (&c, &reference), r)
}

/// Cheap checks for a credentials provider: an unknown reference resolves to
/// nothing or is refused, and `kind` agrees with `resolve`.
pub fn check_credentials<C: Credentials>(creds: &C) -> (r: Vec<Violation>)
    ensures
        exists|
            resolved: Result<Option<String>, SeamError>,
            kind: Result<Option<CredentialKind>, SeamError>,
        | #[trigger]
            credentials_resolved(*creds, resolved) && #[trigger] credentials_kind(*creds, kind)
                && violations_view(r@) == credentials_findings(
                resolved_view(resolved),
                kind_view(kind),
            ),
{
    let reference = CredentialRef::new(ABSENT_REF);
    let resolved = creds.resolve(&reference);
    assert(call_ensures(C::resolve, (creds, &reference), resolved));
    assert(credentials_resolved(*creds, resolved));
    let kind = creds.kind(&reference);
    assert(call_ensures(C::kind, (creds, &reference), kind));
    assert(credentials_kind(*creds, kind));
    judge_credentials(&resolved, &kind)
}

} // verus!
