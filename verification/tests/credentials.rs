//! The credential store, the flow registry, and the seam stubs.

use std::cell::RefCell;
use std::collections::HashMap;

use harnless::conformance::stubs::{
    check_credentials, check_settings, check_storage, judge_credentials, judge_delete,
    judge_roundtrip, judge_settings, StorageCall, StorageReply, StorageStage, PROBE_VALUE,
};
use harnless::credentials::flows::{settle, AuthorizeState, Claim, FlowRegistry};
use harnless::credentials::record::{kind_from_spelling, kind_spelling, CredentialRecord};
use harnless::credentials::store::{LocalCredentials, StoreRead, StoreStep};
use harnless::json::Json;
use harnless::seam::credentials::{CredentialKind, CredentialRef, Credentials};
use harnless::seam::error::{ErrorCode, SeamError};
use harnless::seam::settings::{Descriptor, Namespace, Settings};
use harnless::seam::storage::{BackendName, Storage};

fn cred(name: &str) -> CredentialRef {
    CredentialRef(name.to_string())
}

/// A provider over a file held in memory.
struct Held {
    provider: LocalCredentials,
    file: RefCell<Option<String>>,
}

/// A reader of records: an object with each field once, whatever else it holds, or
/// the two values in a row.
struct Reader(CredentialRecord);

struct RecordVisitor;

impl<'de> serde::Deserialize<'de> for Reader {
    fn deserialize<D: serde::Deserializer<'de>>(from: D) -> Result<Reader, D::Error> {
        from.deserialize_struct("CredentialRecord", &["kind", "value"], RecordVisitor)
    }
}

impl<'de> serde::de::Visitor<'de> for RecordVisitor {
    type Value = Reader;

    fn expecting(&self, f: &mut std::fmt::Formatter) -> std::fmt::Result {
        f.write_str("struct CredentialRecord")
    }

    fn visit_seq<A: serde::de::SeqAccess<'de>>(self, mut seq: A) -> Result<Reader, A::Error> {
        let short = "struct CredentialRecord with 2 elements";
        let Some(kind) = seq.next_element()? else {
            return Err(serde::de::Error::invalid_length(0, &short));
        };
        let Some(value) = seq.next_element()? else {
            return Err(serde::de::Error::invalid_length(1, &short));
        };
        Ok(Reader(CredentialRecord { kind, value }))
    }

    fn visit_map<A: serde::de::MapAccess<'de>>(self, mut map: A) -> Result<Reader, A::Error> {
        let (mut kind, mut value) = (None, None);
        while let Some(key) = map.next_key::<String>()? {
            let (slot, name) = match key.as_str() {
                "kind" => (&mut kind, "kind"),
                "value" => (&mut value, "value"),
                _ => {
                    map.next_value::<serde::de::IgnoredAny>()?;
                    continue;
                }
            };
            if slot.is_some() {
                return Err(serde::de::Error::duplicate_field(name));
            }
            *slot = Some(map.next_value()?);
        }
        let kind = kind.ok_or_else(|| serde::de::Error::missing_field("kind"))?;
        let value = value.ok_or_else(|| serde::de::Error::missing_field("value"))?;
        Ok(Reader(CredentialRecord { kind, value }))
    }
}

fn parsed(text: &str) -> Result<Vec<(String, CredentialRecord)>, String> {
    serde_json::from_str::<HashMap<String, Reader>>(text)
        .map(|all| all.into_iter().map(|(name, held)| (name, held.0)).collect())
        .map_err(|e| e.to_string())
}

impl Held {
    fn new() -> Held {
        Held {
            provider: LocalCredentials::new("/w/credentials.json".to_string()),
            file: RefCell::new(None),
        }
    }

    fn read(&self) -> StoreRead {
        match &*self.file.borrow() {
            None => StoreRead::Absent,
            Some(text) => StoreRead::Text { text: text.clone(), parsed: parsed(text) },
        }
    }

    fn store(&self, reference: &CredentialRef, kind: CredentialKind, value: &str) -> Result<(), SeamError> {
        let text = self.provider.store(&self.read(), reference, kind, value)?;
        *self.file.borrow_mut() = Some(text);
        Ok(())
    }

    fn forget(&self, reference: &CredentialRef) -> Result<(), SeamError> {
        let text = self.provider.forget(&self.read(), reference)?;
        *self.file.borrow_mut() = Some(text);
        Ok(())
    }
}

impl Credentials for Held {
    fn resolve(&self, reference: &CredentialRef) -> Result<Option<String>, SeamError> {
        self.provider.resolve(&self.read(), reference)
    }

    fn kind(&self, reference: &CredentialRef) -> Result<Option<CredentialKind>, SeamError> {
        self.provider.kind(&self.read(), reference)
    }
}

// ---------------------------------------------------------------------------
// The store
// ---------------------------------------------------------------------------

#[test]
fn absent_reference_is_ok_none() {
    let creds = Held::new();
    assert_eq!(creds.resolve(&cred("ghost")).unwrap(), None);
    assert_eq!(creds.kind(&cred("ghost")).unwrap(), None);
}

#[test]
fn store_resolve_kind_roundtrip() {
    let creds = Held::new();
    creds.store(&cred("openai"), CredentialKind::ApiKey, "sk-1").unwrap();
    assert_eq!(creds.resolve(&cred("openai")).unwrap().as_deref(), Some("sk-1"));
    assert_eq!(creds.kind(&cred("openai")).unwrap(), Some(CredentialKind::ApiKey));
}

#[test]
fn rotation_reaches_next_resolve_without_restart() {
    let creds = Held::new();
    creds.store(&cred("oauth"), CredentialKind::OAuth2, "old-token").unwrap();
    assert_eq!(creds.resolve(&cred("oauth")).unwrap().as_deref(), Some("old-token"));
    *creds.file.borrow_mut() =
        Some(r#"{"oauth":{"kind":"oauth2","value":"new-token"}}"#.to_string());
    assert_eq!(
        creds.resolve(&cred("oauth")).unwrap().as_deref(),
        Some("new-token"),
        "a rotated secret must reach the very next resolve, no restart"
    );
}

#[test]
fn forget_removes_record() {
    let creds = Held::new();
    creds.store(&cred("a"), CredentialKind::Bearer, "t").unwrap();
    creds.forget(&cred("a")).unwrap();
    assert_eq!(creds.resolve(&cred("a")).unwrap(), None);
    creds.forget(&cred("a")).unwrap();
}

#[test]
fn corrupt_store_is_typed_io_error_not_empty() {
    let creds = Held::new();
    *creds.file.borrow_mut() = Some("{ not json".to_string());
    let err = creds.resolve(&cred("x")).unwrap_err();
    assert_eq!(err.code, ErrorCode::IoError);
    assert_eq!(creds.kind(&cred("x")).unwrap_err().code, ErrorCode::IoError);
    assert_eq!(creds.store(&cred("x"), CredentialKind::Bearer, "v").unwrap_err().code, ErrorCode::IoError);
    assert_eq!(creds.forget(&cred("x")).unwrap_err().code, ErrorCode::IoError);
}

#[test]
fn kind_spelling_roundtrips() {
    for kind in [CredentialKind::Bearer, CredentialKind::OAuth2, CredentialKind::ApiKey] {
        assert_eq!(kind_from_spelling(kind_spelling(kind)), Some(kind));
    }
    assert_eq!(kind_from_spelling("nonsense"), None);
}

#[test]
fn concurrent_writers_do_not_lose_records() {
    // Two instances on one file, each write a read-modify-write of its own.
    let a = Held::new();
    let b = LocalCredentials::new(a.provider.path().to_string());
    for i in 0..20 {
        a.store(&cred(&format!("a{i}")), CredentialKind::ApiKey, "v").unwrap();
        let text = b.store(&a.read(), &cred(&format!("b{i}")), CredentialKind::ApiKey, "v").unwrap();
        *a.file.borrow_mut() = Some(text);
    }
    for i in 0..20 {
        assert!(a.resolve(&cred(&format!("a{i}"))).unwrap().is_some());
        assert!(a.resolve(&cred(&format!("b{i}"))).unwrap().is_some());
    }
}

#[test]
fn credentials_conformance_is_clean() {
    let violations = check_credentials(&Held::new());
    assert!(violations.is_empty(), "conformance violations: {violations:?}");
}

#[test]
fn credentials_conformance_after_a_write_is_clean() {
    let provider = Held::new();
    provider.store(&cred("conformance-present"), CredentialKind::Bearer, "token").expect("store");
    let violations = check_credentials(&provider);
    assert!(violations.is_empty(), "conformance violations: {violations:?}");
}

#[test]
fn a_record_of_no_kind_resolves_to_nothing() {
    let creds = Held::new();
    *creds.file.borrow_mut() = Some(r#"{"x":{"kind":"smoke-signal","value":"v"}}"#.to_string());
    assert_eq!(creds.resolve(&cred("x")).unwrap(), None);
    assert_eq!(creds.kind(&cred("x")).unwrap(), None);
    assert_eq!(
        CredentialRecord::new(CredentialKind::OAuth2, "v".to_string()).seam_kind(),
        Some(CredentialKind::OAuth2)
    );
}

#[test]
fn a_blank_store_holds_nothing() {
    let creds = Held::new();
    *creds.file.borrow_mut() = Some("  \n".to_string());
    assert_eq!(creds.resolve(&cred("x")).unwrap(), None);
}

#[test]
fn the_published_text_is_pretty_and_sorted() {
    let creds = Held::new();
    creds.store(&cred("b"), CredentialKind::Bearer, "2").unwrap();
    creds.store(&cred("a"), CredentialKind::ApiKey, "1").unwrap();
    let text = creds.file.borrow().clone().unwrap();
    assert!(text.find("\"a\"").unwrap() < text.find("\"b\"").unwrap(), "{text}");
    assert!(text.contains("\n  \"a\": {\n"), "{text}");
}

#[test]
fn an_unreadable_store_is_a_typed_failure() {
    let creds = LocalCredentials::new("/w/c.json".to_string());
    let err = creds.resolve(&StoreRead::Failed("denied".to_string()), &cred("x")).unwrap_err();
    assert_eq!(err.code, ErrorCode::IoError);
    assert!(err.message.contains("denied") && err.message.contains("/w/c.json"), "{}", err.message);
    assert_eq!(creds.lock_path(), "/w/c.json.lock");
    assert_eq!(creds.temp_path(), "/w/c.json.tmp");
    for step in [StoreStep::OpenLock, StoreStep::TakeLock, StoreStep::WriteTemp, StoreStep::Publish] {
        let e = creds.step_error(step, "why");
        assert_eq!(e.code, ErrorCode::IoError);
        assert!(e.message.contains("why"), "{}", e.message);
    }
}

// ---------------------------------------------------------------------------
// Authorization
// ---------------------------------------------------------------------------

/// Run the flow of a ticket to its end: the secret is stored before the
/// outcome is published.
fn dance(
    registry: &mut FlowRegistry,
    creds: &Held,
    reference: &CredentialRef,
    kind: CredentialKind,
    ticket: u64,
    flow: Result<String, SeamError>,
) -> Result<(String, AuthorizeState), SeamError> {
    let stored = match &flow {
        Ok(secret) => Some(creds.store(reference, kind, secret)),
        Err(_) => None,
    };
    registry.finish(reference, ticket, settle(flow, stored))
}

fn with_flow(kind: CredentialKind) -> FlowRegistry {
    let mut registry = FlowRegistry::new();
    registry.register_flow(kind);
    registry
}

fn ticket(claim: Claim) -> u64 {
    match claim {
        Claim::Run(t) => t,
        _ => panic!("not a runner"),
    }
}

#[test]
fn authorize_runs_flow_and_stores_through_provider() {
    let creds = Held::new();
    let mut registry = with_flow(CredentialKind::OAuth2);
    let gh = cred("gh");
    let t = ticket(registry.begin(&gh, CredentialKind::OAuth2));
    let (secret, state) =
        dance(&mut registry, &creds, &gh, CredentialKind::OAuth2, t, Ok("flow-secret".to_string()))
            .unwrap();
    assert_eq!(secret, "flow-secret");
    assert_eq!(state, AuthorizeState::Authorized);
    assert_eq!(creds.resolve(&gh).unwrap().as_deref(), Some("flow-secret"));
    assert_eq!(creds.kind(&gh).unwrap(), Some(CredentialKind::OAuth2));
}

#[test]
fn unregistered_kind_is_typed_refusal() {
    let mut registry = FlowRegistry::new();
    match registry.begin(&cred("gh"), CredentialKind::OAuth2) {
        Claim::Refused(err) => assert_eq!(err.code, ErrorCode::ToolDenied),
        _ => panic!("claimed"),
    }
    assert!(!registry.authorize_in_flight(&cred("gh")));
}

#[test]
fn concurrent_authorize_one_attempt_per_key() {
    let creds = Held::new();
    let mut registry = with_flow(CredentialKind::OAuth2);
    let shared = cred("shared");
    let t = ticket(registry.begin(&shared, CredentialKind::OAuth2));
    let joined = match registry.begin(&shared, CredentialKind::OAuth2) {
        Claim::Join(j) => j,
        _ => panic!("second attempt must not start a second dance"),
    };
    assert_eq!(joined, t);
    assert!(registry.collect(joined).is_none(), "nothing to adopt before the dance ends");
    let (secret_a, state_a) =
        dance(&mut registry, &creds, &shared, CredentialKind::OAuth2, t, Ok("one-dance".to_string()))
            .unwrap();
    let (secret_b, state_b) = registry.collect(joined).unwrap().unwrap();
    assert_eq!(secret_a, secret_b, "joiner adopts the runner's secret");
    assert_eq!(secret_a, "one-dance");
    assert_eq!((state_a, state_b), (AuthorizeState::Authorized, AuthorizeState::Joined));
    assert_eq!(creds.resolve(&shared).unwrap().as_deref(), Some("one-dance"));
}

#[test]
fn failed_flow_frees_key_for_later_attempt() {
    let creds = Held::new();
    let mut registry = with_flow(CredentialKind::Bearer);
    let retry = cred("retry");
    let t = ticket(registry.begin(&retry, CredentialKind::Bearer));
    let failure = SeamError::new(ErrorCode::ProviderFailure, "user refused the dance");
    let err = dance(&mut registry, &creds, &retry, CredentialKind::Bearer, t, Err(failure)).unwrap_err();
    assert_eq!(err.code, ErrorCode::ProviderFailure);
    assert!(!registry.authorize_in_flight(&retry), "failed dance frees the key");
    let t = ticket(registry.begin(&retry, CredentialKind::Bearer));
    let (secret, state) =
        dance(&mut registry, &creds, &retry, CredentialKind::Bearer, t, Ok("second-try-secret".to_string()))
            .unwrap();
    assert_eq!(secret, "second-try-secret");
    assert_eq!(state, AuthorizeState::Authorized);
}

#[test]
fn joiner_adopts_failure() {
    let creds = Held::new();
    let mut registry = with_flow(CredentialKind::ApiKey);
    let doomed = cred("doomed");
    let t = ticket(registry.begin(&doomed, CredentialKind::ApiKey));
    assert!(matches!(registry.begin(&doomed, CredentialKind::ApiKey), Claim::Join(_)));
    let failure = SeamError::new(ErrorCode::PermissionDenied, "no");
    let a = dance(&mut registry, &creds, &doomed, CredentialKind::ApiKey, t, Err(failure));
    let b = registry.collect(t).unwrap();
    for outcome in [a, b] {
        assert_eq!(outcome.unwrap_err().code, ErrorCode::PermissionDenied);
    }
    assert_eq!(creds.resolve(&doomed).unwrap(), None, "failed dance stores nothing");
}

#[test]
fn cancelled_runner_frees_key_and_wakes_joiners() {
    let creds = Held::new();
    let mut registry = with_flow(CredentialKind::OAuth2);
    let key = cred("cancelled");
    let t = ticket(registry.begin(&key, CredentialKind::OAuth2));
    assert!(registry.authorize_in_flight(&key));
    assert!(matches!(registry.begin(&key, CredentialKind::OAuth2), Claim::Join(_)));
    registry.cancel(&key, t);
    let joined = registry.collect(t).expect("joiner must wake after the runner is cancelled");
    assert_eq!(joined.unwrap_err().code, ErrorCode::IoError);
    assert!(!registry.authorize_in_flight(&key), "cancelled runner frees the key");
    let t = ticket(registry.begin(&key, CredentialKind::OAuth2));
    let (secret, state) =
        dance(&mut registry, &creds, &key, CredentialKind::OAuth2, t, Ok("late".to_string())).unwrap();
    assert_eq!(secret, "late");
    assert_eq!(state, AuthorizeState::Authorized);
}

#[test]
fn flow_lifecycle_is_registrys_protocol_is_flows() {
    let creds = Held::new();
    let mut registry = with_flow(CredentialKind::OAuth2);
    let key = cred("lifecycle");
    let t = ticket(registry.begin(&key, CredentialKind::OAuth2));
    assert!(registry.authorize_in_flight(&key));
    let secret = "verbatim\0weird\tsecret".to_string();
    let (got, _) =
        dance(&mut registry, &creds, &key, CredentialKind::OAuth2, t, Ok(secret.clone())).unwrap();
    assert_eq!(got, secret, "flow protocol output is stored as-is");
    assert_eq!(creds.resolve(&key).unwrap(), Some(secret));
    assert!(!registry.authorize_in_flight(&key), "lifecycle cleanup on completion");
}

#[test]
fn a_joiner_may_leave_and_attempts_do_not_meet() {
    let mut registry = with_flow(CredentialKind::Bearer);
    let (a, b) = (cred("a"), cred("b"));
    let ta = ticket(registry.begin(&a, CredentialKind::Bearer));
    let tb = ticket(registry.begin(&b, CredentialKind::Bearer));
    assert_ne!(ta, tb);
    assert!(matches!(registry.begin(&a, CredentialKind::Bearer), Claim::Join(_)));
    registry.abandon(ta);
    let _ = registry.finish(&a, ta, Ok("x".to_string()));
    assert!(registry.collect(ta).is_none());
    assert!(registry.authorize_in_flight(&b));
}

#[test]
fn a_secret_that_could_not_be_stored_is_the_failure() {
    let lost = SeamError::new(ErrorCode::IoError, "disk");
    let out = settle(Ok("s".to_string()), Some(Err(lost)));
    assert_eq!(out.unwrap_err().message, "disk");
}

// ---------------------------------------------------------------------------
// Seam stubs
// ---------------------------------------------------------------------------

struct Table {
    values: RefCell<HashMap<String, Json>>,
    forgets: bool,
    deletes: bool,
}

impl Storage for Table {
    fn set(&self, _backend: &BackendName, key: &str, value: Json) -> Result<(), SeamError> {
        if !self.forgets {
            self.values.borrow_mut().insert(key.to_string(), value);
        }
        Ok(())
    }

    fn get(&self, _backend: &BackendName, key: &str) -> Result<Option<Json>, SeamError> {
        Ok(self.values.borrow().get(key).map(|v| v.copy()))
    }

    fn delete(&self, _backend: &BackendName, key: &str) -> Result<(), SeamError> {
        if self.deletes {
            self.values.borrow_mut().remove(key);
        }
        Ok(())
    }
}

fn table(forgets: bool, deletes: bool) -> Table {
    Table { values: RefCell::new(HashMap::new()), forgets, deletes }
}

#[test]
fn storage_must_give_back_and_forget() {
    assert!(check_storage(&table(false, true)).is_empty());
    assert!(!check_storage(&table(true, true)).is_empty());
    assert!(!check_storage(&table(false, false)).is_empty());
    assert!(judge_delete(&Ok(None)).is_empty());
    assert!(!judge_roundtrip(&Ok(None)).is_empty());
}

#[test]
fn the_storage_probe_stores_reads_drops_and_reads_again() {
    let found = |violations: Vec<harnless::conformance::report::Violation>| {
        violations.into_iter().map(|v| v.detail).collect::<Vec<_>>()
    };
    let failed = || Err(SeamError::new(ErrorCode::IoError, "disk"));
    let (stage, call) = StorageStage::Setting.resume(StorageReply::Stored(Ok(())));
    assert!(matches!(call, StorageCall::Get));
    let (stage, call) = stage.unwrap().resume(StorageReply::Got(Ok(Some(Json::text(PROBE_VALUE)))));
    assert!(matches!(call, StorageCall::Delete));
    let (stage, call) = stage.unwrap().resume(StorageReply::Deleted(Ok(())));
    assert!(matches!(call, StorageCall::Get));
    match stage.unwrap().resume(StorageReply::Got(Ok(None))) {
        (None, StorageCall::Done(violations)) => assert!(violations.is_empty()),
        _ => panic!("the probe is not over"),
    }
    match StorageStage::Setting.resume(StorageReply::Stored(failed())) {
        (None, StorageCall::Done(violations)) => {
            assert_eq!(found(violations), vec!["set failed: io-error: disk"])
        }
        _ => panic!("the probe is not over"),
    }
    match StorageStage::Deleting(vec![]).resume(StorageReply::Deleted(failed())) {
        (None, StorageCall::Done(violations)) => {
            assert_eq!(found(violations), vec!["delete failed: io-error: disk"])
        }
        _ => panic!("the probe is not over"),
    }
}

#[test]
fn a_corrupt_store_says_what_is_wrong_with_it() {
    let creds = Held::new();
    let why = |text: &str| {
        *creds.file.borrow_mut() = Some(text.to_string());
        creds.resolve(&cred("x")).unwrap_err().message
    };
    let head = "credential store /w/credentials.json is corrupt: ";
    assert_eq!(
        why("{\"a\": {\"kind\": \"k\", \"kind\": \"x\", \"value\": \"v\"}}"),
        format!("{head}duplicate field `kind` at line 1 column 26")
    );
    for (text, reason) in [
        ("{\"a\": {\"value\": \"v\"}}", "missing field `kind` at line 1"),
        ("{\"a\": {\"kind\": \"k\"}}", "missing field `value` at line 1"),
        ("{\"a\": {\"kind\": \"k\", \"value\": true}}", "invalid type: boolean `true`, expected a string at line 1"),
        ("{\"a\": null}", "invalid type: null, expected struct CredentialRecord at line 1"),
        ("[]", "invalid type: sequence, expected a map at line 1"),
        ("{\"a\": [\"k\"]}", "invalid length 1, expected struct CredentialRecord with 2 elements at line 1"),
    ] {
        assert!(why(text).starts_with(&format!("{head}{reason}")), "{}", why(text));
    }
}

#[test]
fn a_field_of_no_record_is_ignored() {
    let creds = Held::new();
    for extra in ["1e999", "\"\\ud800\"", "{\"kind\": 1, \"kind\": 2}"] {
        let text = format!("{{\"a\": {{\"kind\": \"bearer\", \"note\": {extra}, \"value\": \"v\"}}}}");
        *creds.file.borrow_mut() = Some(text);
        assert_eq!(creds.resolve(&cred("a")).unwrap(), Some("v".to_string()), "{extra}");
    }
    *creds.file.borrow_mut() = Some("{\"a\": [\"bearer\", \"v\"], \"a\": [\"api-key\", \"w\"]}".to_string());
    assert_eq!(creds.kind(&cred("a")).unwrap(), Some(CredentialKind::ApiKey));
}

#[test]
fn a_published_text_needs_no_other_reader() {
    let provider = LocalCredentials::new("/w/credentials.json".to_string());
    let other = LocalCredentials::new("/w/credentials.json".to_string());
    let read = |text: &str| StoreRead::Text { text: text.to_string(), parsed: Err("no".to_string()) };
    let text = provider.store(&StoreRead::Absent, &cred("a"), CredentialKind::OAuth2, "v\u{1f600}\n").unwrap();
    assert_eq!(other.resolve(&read(&text), &cred("a")).unwrap(), Some("v\u{1f600}\n".to_string()));
    assert_eq!(other.kind(&read(&text), &cred("a")).unwrap(), Some(CredentialKind::OAuth2));
    let text = provider.store(&read(&text), &cred("b"), CredentialKind::ApiKey, "w").unwrap();
    let text = provider.forget(&read(&text), &cred("a")).unwrap();
    assert_eq!(other.resolve(&read(&text), &cred("a")).unwrap(), None);
    assert_eq!(other.resolve(&read(&text), &cred("b")).unwrap(), Some("w".to_string()));
    assert!(other.resolve(&read(&format!("{text} ")), &cred("b")).is_err());
    assert!(parsed(&text).is_ok());
}

#[test]
fn what_the_text_says_counts_where_the_reader_takes_it() {
    let provider = LocalCredentials::new("/w/credentials.json".to_string());
    let record = |value: &str| CredentialRecord { kind: "bearer".to_string(), value: value.to_string() };
    let text = "{\"a\": [\"bearer\", \"v\"]}".to_string();
    let read = |text: &str, parsed| StoreRead::Text { text: text.to_string(), parsed };
    let other = || Ok(vec![("a".to_string(), record("x")), ("a".to_string(), record("y"))]);
    assert_eq!(provider.resolve(&read(&text, other()), &cred("a")).unwrap(), Some("v".to_string()));
    assert_eq!(provider.resolve(&read("{", other()), &cred("a")).unwrap(), Some("y".to_string()));
    assert_eq!(provider.resolve(&read(" \n", Err("eof".to_string())), &cred("a")).unwrap(), None);
    assert!(provider.resolve(&read(&text, Err("no".to_string())), &cred("a")).is_err());
}

struct Invents(bool);

impl Settings for Invents {
    fn get(&self, _namespace: &Namespace, _key: &str) -> Result<Option<Json>, SeamError> {
        Ok(if self.0 { Some(Json::Bool(true)) } else { None })
    }

    fn describe(&self, _namespace: &Namespace, _key: &str) -> Result<Option<Descriptor>, SeamError> {
        Ok(None)
    }
}

#[test]
fn settings_must_not_invent_values() {
    assert!(check_settings(&Invents(false)).is_empty());
    assert!(!check_settings(&Invents(true)).is_empty());
    let present = Descriptor { present: true, summary: "s".to_string() };
    assert!(!judge_settings(&None, &Ok(Some(present))).is_empty());
}

#[test]
fn an_unknown_reference_has_no_kind() {
    let refused = |code| SeamError::new(code, "disk");
    let absent = Ok(None);
    assert!(judge_credentials(&absent, &Ok(None)).is_empty());
    assert!(judge_credentials(&Ok(Some("v".to_string())), &Ok(Some(CredentialKind::Bearer))).is_empty());
    let found = judge_credentials(&absent, &Err(refused(ErrorCode::IoError)));
    assert_eq!(found[0].detail, "kind of an unknown reference failed with io-error: disk");
    assert!(!judge_credentials(&absent, &Ok(Some(CredentialKind::Bearer))).is_empty());
}

#[test]
fn a_refusal_that_kind_shares_is_no_violation() {
    let refused = |code| SeamError::new(code, "locked");
    let denied = || Err(refused(ErrorCode::PermissionDenied));
    assert!(judge_credentials(&denied(), &Err(refused(ErrorCode::PermissionDenied))).is_empty());
    assert!(judge_credentials(&denied(), &Ok(None)).is_empty());
    assert_eq!(judge_credentials(&denied(), &Err(refused(ErrorCode::IoError))).len(), 1);
    let found = judge_credentials(&denied(), &Ok(Some(CredentialKind::ApiKey)));
    assert_eq!(found[0].case, "credentials_absent_ref");
    assert_eq!(
        found[0].detail,
        "resolve of an unknown reference failed with permission-denied: locked; absent references must be Ok(None) or a typed refusal consistent with kind"
    );
    let corrupt = Held::new();
    *corrupt.file.borrow_mut() = Some("{ not json".to_string());
    assert!(check_credentials(&corrupt).is_empty());
}
