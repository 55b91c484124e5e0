//! The filesystem suite, run against a small in-memory provider, and against
//! that provider with one obligation broken.

use std::cell::RefCell;
use std::collections::{HashMap, HashSet};

use harnless::conformance::fs_cases::{next_call, FsCase};
use harnless::conformance::fs_run::{FsCall, FsReply, GuardCase, GuardRun};
use harnless::conformance::fs_suite::{
    check_case, check_file_system, debris_in, judge_capped, judge_denied, judge_hello,
    judge_unobserved, looks_like_debris, permission_denied_vs_sandbox_denied, Host, CONFORMANCE_CASES,
};
use harnless::seam::error::{ErrorCode, SeamError};
use harnless::seam::fs::{
    Edit, Entry, FileSystem, MutationResult, ReadWindow, Target, TargetKey, VersionToken, WriteGuard,
};

fn failed<T>(code: ErrorCode, message: &str) -> Result<T, SeamError> {
    Err(SeamError::new(code, message))
}

struct Inner {
    files: HashMap<String, (Vec<u8>, u64)>,
    path_to_key: HashMap<String, u64>,
    key_to_path: HashMap<u64, String>,
    issued: HashSet<u64>,
    unreadable: HashSet<String>,
    dirs: HashSet<String>,
    next_key: u64,
    next_version: u64,
}

impl Inner {
    fn key_for(&mut self, canon: &str) -> u64 {
        if let Some(k) = self.path_to_key.get(canon) {
            return *k;
        }
        let k = self.next_key;
        self.next_key += 1;
        self.path_to_key.insert(canon.to_string(), k);
        self.key_to_path.insert(k, canon.to_string());
        k
    }

    fn path_of(&self, target: &Target) -> Result<String, SeamError> {
        match self.key_to_path.get(&target.key.0) {
            Some(p) => Ok(p.clone()),
            None => failed(ErrorCode::NotObserved, "target key was never issued by this provider"),
        }
    }

    fn store(&mut self, path: String, contents: Vec<u8>) -> MutationResult {
        let mut up = parent(&path);
        while !up.is_empty() && !self.dirs.contains(&up) {
            self.dirs.insert(up.clone());
            up = parent(&up);
        }
        let v = self.next_version;
        self.next_version += 1;
        self.files.insert(path, (contents, v));
        self.issued.insert(v);
        MutationResult { version: VersionToken(v) }
    }
}

/// An in-memory provider that honors every obligation.
struct MemFs {
    inner: RefCell<Inner>,
}

fn canonical(path: &str) -> String {
    let mut out: Vec<&str> = Vec::new();
    for part in path.split('/') {
        match part {
            "" | "." => {}
            ".." => {
                out.pop();
            }
            p => out.push(p),
        }
    }
    out.join("/")
}

fn parent(canon: &str) -> String {
    canon.rsplit_once('/').map(|(p, _)| p.to_string()).unwrap_or_default()
}

fn base(canon: &str) -> String {
    canon.rsplit_once('/').map(|(_, b)| b.to_string()).unwrap_or_else(|| canon.to_string())
}

fn find_occurrences(hay: &[u8], needle: &[u8]) -> Vec<usize> {
    if needle.is_empty() {
        return vec![0; hay.len() + 1];
    }
    (0..=hay.len().saturating_sub(needle.len()))
        .filter(|i| hay.get(*i..*i + needle.len()) == Some(needle))
        .collect()
}

impl MemFs {
    fn new() -> Self {
        MemFs {
            inner: RefCell::new(Inner {
                files: HashMap::new(),
                path_to_key: HashMap::from([("conf".to_string(), 0)]),
                key_to_path: HashMap::from([(0, "conf".to_string())]),
                issued: HashSet::new(),
                unreadable: HashSet::new(),
                dirs: HashSet::from(["conf".to_string()]),
                next_key: 1,
                next_version: 1,
            }),
        }
    }

    fn guard_version(inner: &Inner, path: &str, token: VersionToken) -> Result<(), SeamError> {
        if !inner.issued.contains(&token.0) {
            return failed(ErrorCode::NotObserved, "version token was never issued by this provider");
        }
        match inner.files.get(path) {
            None => failed(ErrorCode::NotFound, "missing"),
            Some((_, v)) if *v != token.0 => {
                failed(ErrorCode::StaleVersion, "moved past the guarded version")
            }
            Some(_) => Ok(()),
        }
    }
}

impl FileSystem for MemFs {
    fn resolve(&self, path: &str) -> Result<Target, SeamError> {
        let canon = canonical(path);
        if canon.is_empty() {
            return failed(ErrorCode::NotFound, "`/` has no target");
        }
        let mut inner = self.inner.borrow_mut();
        let known = inner.files.contains_key(&canon)
            || inner.dirs.contains(&canon)
            || inner.dirs.contains(&parent(&canon));
        if !known {
            return failed(ErrorCode::NotFound, "does not exist");
        }
        let key = inner.key_for(&canon);
        Ok(Target { key: TargetKey(key), display: canon })
    }

    fn read(&self, target: &Target, max_bytes: usize) -> Result<ReadWindow, SeamError> {
        let inner = self.inner.borrow();
        let path = inner.path_of(target)?;
        let contents = match inner.files.get(&path) {
            Some((contents, _)) => contents,
            None if inner.dirs.contains(&path) => {
                return failed(ErrorCode::NotARegularFile, "not a regular file")
            }
            None => return failed(ErrorCode::NotFound, "does not exist"),
        };
        if inner.unreadable.contains(&path) {
            return failed(ErrorCode::PermissionDenied, "unreadable");
        }
        if std::str::from_utf8(contents).is_err() {
            return failed(ErrorCode::NotText, "not text");
        }
        let newlines = contents.iter().filter(|b| **b == b'\n').count() as u64;
        let total_lines = if contents.is_empty() || contents.ends_with(b"\n") {
            newlines
        } else {
            newlines + 1
        };
        let truncated = contents.len() > max_bytes;
        let kept = if truncated { contents[..max_bytes].to_vec() } else { contents.clone() };
        Ok(ReadWindow { contents: kept, total_lines, truncated })
    }

    fn write(
        &self,
        target: &Target,
        contents: &[u8],
        guard: Option<WriteGuard>,
    ) -> Result<MutationResult, SeamError> {
        let mut inner = self.inner.borrow_mut();
        let path = inner.path_of(target)?;
        match guard {
            None => {}
            Some(WriteGuard::CreateIfAbsent) => {
                if inner.files.contains_key(&path) {
                    return failed(ErrorCode::NotFound, "already exists");
                }
            }
            Some(WriteGuard::ReplaceAtVersion(token)) => MemFs::guard_version(&inner, &path, token)?,
        }
        Ok(inner.store(path, contents.to_vec()))
    }

    fn edit(
        &self,
        target: &Target,
        edit: &Edit,
        guard: Option<WriteGuard>,
    ) -> Result<MutationResult, SeamError> {
        let mut inner = self.inner.borrow_mut();
        let path = inner.path_of(target)?;
        if let Some(WriteGuard::ReplaceAtVersion(token)) = guard {
            MemFs::guard_version(&inner, &path, token)?;
        }
        let contents = match inner.files.get(&path) {
            Some((contents, _)) => contents.clone(),
            None => return failed(ErrorCode::NotFound, "missing"),
        };
        if guard == Some(WriteGuard::CreateIfAbsent) {
            return failed(ErrorCode::NotFound, "already exists");
        }
        let matches = find_occurrences(&contents, &edit.find);
        match matches.len() {
            0 => failed(ErrorCode::EditNotFound, "find matched zero times"),
            1 => {
                let at = matches[0];
                let mut next = contents;
                next.splice(at..at + edit.find.len(), edit.replace.iter().copied());
                Ok(inner.store(path, next))
            }
            _ => failed(ErrorCode::AmbiguousEdit, "find matched more than once"),
        }
    }

    fn list(&self, target: &Target) -> Result<Vec<Entry>, SeamError> {
        let inner = self.inner.borrow();
        let dir = inner.path_of(target)?;
        if inner.files.contains_key(&dir) {
            return failed(ErrorCode::NotADirectory, "a regular file");
        }
        let mut entries: Vec<Entry> = inner
            .files
            .keys()
            .filter(|p| parent(p) == dir)
            .map(|p| Entry { name: base(p), is_dir: false })
            .collect();
        if entries.is_empty() {
            return failed(ErrorCode::NotFound, "empty or unknown");
        }
        entries.sort_by(|a, b| a.name.cmp(&b.name));
        Ok(entries)
    }
}

/// A host with no file modes.
struct Modeless;

impl Host for Modeless {
    fn chmod(&self, _path: &str, _mode: u32) -> Option<bool> {
        None
    }
}

/// A host whose modes the in-memory provider obeys.
struct Modes<'a>(&'a MemFs);

impl Host for Modes<'_> {
    fn chmod(&self, path: &str, mode: u32) -> Option<bool> {
        let mut inner = self.0.inner.borrow_mut();
        if !inner.files.contains_key(path) {
            return Some(false);
        }
        if mode & 0o400 == 0 {
            inner.unreadable.insert(path.to_string());
        } else {
            inner.unreadable.remove(path);
        }
        Some(true)
    }
}

#[derive(Clone, Copy, PartialEq, Eq)]
enum Defect {
    Guardless,
    OverRefuses,
    LiesAboutTruncation,
    TrustsForgeries,
    MixesTaxonomy,
}

/// The in-memory provider with one obligation broken.
struct Bent(MemFs, Defect);

impl FileSystem for Bent {
    fn resolve(&self, path: &str) -> Result<Target, SeamError> {
        self.0.resolve(path)
    }

    fn read(&self, target: &Target, max_bytes: usize) -> Result<ReadWindow, SeamError> {
        let got = self.0.read(target, max_bytes);
        match self.1 {
            Defect::LiesAboutTruncation => got.map(|w| ReadWindow {
                truncated: false,
                total_lines: w.total_lines.min(1),
                ..w
            }),
            Defect::TrustsForgeries => got.or_else(|_| {
                let real = self.0.resolve(&target.display)?;
                self.0.read(&real, max_bytes)
            }),
            Defect::MixesTaxonomy => got.map_err(|e| {
                if e.code == ErrorCode::PermissionDenied {
                    SeamError::new(ErrorCode::SandboxDenied, "mixed")
                } else {
                    e
                }
            }),
            _ => got,
        }
    }

    fn write(
        &self,
        target: &Target,
        contents: &[u8],
        guard: Option<WriteGuard>,
    ) -> Result<MutationResult, SeamError> {
        match (self.1, guard) {
            (Defect::Guardless, _) => self.0.write(target, contents, None),
            (Defect::OverRefuses, Some(WriteGuard::ReplaceAtVersion(VersionToken(3)))) => {
                failed(ErrorCode::NotObserved, "refused")
            }
            _ => self.0.write(target, contents, guard),
        }
    }

    fn edit(
        &self,
        target: &Target,
        edit: &Edit,
        guard: Option<WriteGuard>,
    ) -> Result<MutationResult, SeamError> {
        match self.1 {
            Defect::Guardless => self.0.edit(target, edit, None),
            _ => self.0.edit(target, edit, guard),
        }
    }

    fn list(&self, target: &Target) -> Result<Vec<Entry>, SeamError> {
        let got = self.0.list(target);
        match self.1 {
            Defect::MixesTaxonomy => got.map_err(|_| SeamError::new(ErrorCode::NotFound, "mixed")),
            _ => got,
        }
    }
}

fn bitten(defect: Defect) -> Vec<String> {
    let violations = check_file_system(&Bent(MemFs::new(), defect), &Modeless);
    violations.into_iter().map(|v| v.case).collect()
}

fn has(cases: &[String], case: &str) -> bool {
    cases.iter().any(|c| c == case)
}

#[test]
fn full_suite_clean() {
    let violations = check_file_system(&MemFs::new(), &Modeless);
    assert!(violations.is_empty(), "reference provider violated the suite: {violations:?}");
}

#[test]
fn fs_conformance_every_case_passes_individually() {
    for case in CONFORMANCE_CASES {
        let violations = check_case(&MemFs::new(), &Modeless, case);
        assert!(violations.is_empty(), "case `{case}` failed: {violations:?}");
    }
}

#[test]
fn fs_conformance_unknown_case_is_reported() {
    let v = check_case(&MemFs::new(), &Modeless, "not_a_real_case");
    assert_eq!(v.len(), 1);
    assert_eq!(v[0].case, "not_a_real_case");
}

#[test]
fn suite_bites_guardless_provider() {
    let cases = bitten(Defect::Guardless);
    assert!(
        has(&cases, "stale_version_guard"),
        "guardless provider passed the stale-version case: {cases:?}"
    );
    assert!(has(&cases, "create_if_absent"));
    assert!(has(&cases, "guarded_edit_stale"));
}

#[test]
fn suite_bites_overrefusing_provider() {
    let cases = bitten(Defect::OverRefuses);
    assert!(
        has(&cases, "stale_version_guard"),
        "provider refusing fresh tokens passed the version-guard case"
    );
}

#[test]
fn suite_bites_truncation_liar() {
    let cases = bitten(Defect::LiesAboutTruncation);
    assert!(has(&cases, "windowed_read_past_cap"), "{cases:?}");
    assert!(has(&cases, "windowed_read_no_cap"), "{cases:?}");
}

#[test]
fn suite_bites_forgery_truster() {
    let cases = bitten(Defect::TrustsForgeries);
    assert!(
        has(&cases, "forged_target_refused"),
        "forgery-trusting provider passed the identity case"
    );
}

#[test]
fn suite_bites_taxonomy_mixer() {
    let cases = bitten(Defect::MixesTaxonomy);
    assert!(
        has(&cases, "list_file_is_not_a_directory"),
        "taxonomy mixer passed the not-a-directory case: {cases:?}"
    );
}

#[test]
fn permission_case_needs_a_real_os_fixture() {
    let v = check_case(&MemFs::new(), &Modeless, "permission_denied_vs_sandbox_denied");
    assert!(v.is_empty(), "permission case false-failed: {v:?}");
}

#[test]
fn the_permission_case_bites_where_modes_hold() {
    let fs = MemFs::new();
    assert!(permission_denied_vs_sandbox_denied(&fs, &Modes(&fs)).failures.is_empty());
    assert!(fs.inner.borrow().unreadable.is_empty(), "the mode was not given back");
    let bent = Bent(MemFs::new(), Defect::MixesTaxonomy);
    let found = permission_denied_vs_sandbox_denied(&bent, &Modes(&bent.0));
    assert!(!found.failures.is_empty());
}

#[test]
fn the_case_list_is_whole() {
    assert_eq!(
        CONFORMANCE_CASES,
        [
            "write_then_read",
            "stale_version_guard",
            "unobserved_guarded_write",
            "create_if_absent",
            "guarded_edit_stale",
            "atomic_write_no_debris",
            "atomic_edit_no_debris",
            "overwrite_in_place",
            "same_file_same_key",
            "forged_target_refused",
            "windowed_read_past_cap",
            "windowed_read_no_cap",
            "read_missing_is_not_found",
            "list_file_is_not_a_directory",
            "read_binary_is_not_text",
            "read_directory_is_not_a_regular_file",
            "permission_denied_vs_sandbox_denied",
        ]
    );
}

#[test]
fn debris_is_told_by_its_name() {
    assert!(looks_like_debris("notes.txt.TMP"));
    assert!(looks_like_debris("x.tmp"));
    assert!(!looks_like_debris("notes.txt"));
    let entries = vec![
        Entry { name: "a.tmp".to_string(), is_dir: false },
        Entry { name: "a".to_string(), is_dir: false },
    ];
    assert_eq!(debris_in(&entries), vec!["a.tmp"]);
}

#[test]
fn judged_reads_name_what_was_wrong() {
    let good = ReadWindow { contents: b"hello\n".to_vec(), total_lines: 1, truncated: false };
    let nothing = ReadWindow { contents: vec![], total_lines: 0, truncated: false };
    assert_ne!(judge_hello(&Ok(good)).failures.len(), judge_hello(&Ok(nothing)).failures.len());
    assert!(!judge_capped(&failed(ErrorCode::TooLarge, "x")).failures.is_empty());
    assert!(judge_denied(&failed(ErrorCode::PermissionDenied, "x")).failures.is_empty());
    assert!(!judge_denied(&failed(ErrorCode::SandboxDenied, "x")).failures.is_empty());
    assert!(judge_unobserved(&failed(ErrorCode::NotObserved, "x")).failures.is_empty());
    assert!(!judge_unobserved(&Ok(MutationResult { version: VersionToken(1) })).failures.is_empty());
}

#[test]
fn a_guard_case_moves_the_file_before_it_presents_the_token() {
    let target = || Target { key: TargetKey(1), display: "conf/stale.txt".to_string() };
    let done = |v: u64| FsReply::Mutated(Ok(MutationResult { version: VersionToken(v) }));
    let read = |text: &str| {
        let contents = text.as_bytes().to_vec();
        FsReply::Read(Ok(ReadWindow { contents, total_lines: 1, truncated: false }))
    };
    let shown = |call: &FsCall| match call {
        FsCall::Resolve(path) => format!("resolve {path}"),
        FsCall::Read(..) => "read".to_string(),
        FsCall::Write { contents, guard, .. } => {
            format!("write {} {guard:?}", String::from_utf8_lossy(contents))
        }
        FsCall::Edit { find, replace, guard, .. } => format!("edit {find} {replace} {guard:?}"),
        FsCall::List(_) => "list".to_string(),
        FsCall::ReadAs { key, display } => format!("read {} as {display}", key.0),
        FsCall::Chmod { path, mode } => format!("chmod {path} {mode}"),
        FsCall::Done(cx) => format!("done {:?} {:?}", cx.failures, cx.skips),
    };
    let run = |case: GuardCase, replies: Vec<FsReply>| {
        let (run, call) = GuardRun::begin(case);
        let (mut left, mut calls) = (Some(run), vec![shown(&call)]);
        for reply in replies {
            let (next, call) = left.take().unwrap().resume(reply);
            left = next;
            calls.push(shown(&call));
        }
        assert!(left.is_none());
        calls
    };
    let refused = |code| FsReply::Mutated(failed(code, "no"));
    assert_eq!(
        run(
            GuardCase::StaleVersion,
            vec![
                FsReply::Resolved(Ok(target())),
                done(1),
                done(2),
                done(3),
                refused(ErrorCode::StaleVersion),
                read("v1b"),
                done(4),
                done(5),
            ]
        ),
        vec![
            "resolve conf/stale.txt",
            "write v1 seed None",
            "edit seed one None",
            "write v1b None",
            "write v2 Some(ReplaceAtVersion(VersionToken(2)))",
            "read",
            "write v1b None",
            "write v2 Some(ReplaceAtVersion(VersionToken(4)))",
            "done [] []",
        ]
    );
    assert_eq!(
        run(
            GuardCase::GuardedEdit,
            vec![
                FsReply::Resolved(Ok(target())),
                done(1),
                done(2),
                done(3),
                done(4),
                done(5),
                read("alpha gamma"),
                refused(ErrorCode::EditNotFound),
                refused(ErrorCode::AmbiguousEdit),
            ]
        ),
        vec![
            "resolve conf/edit_stale.txt",
            "write alpha beta None",
            "write alpha beta None",
            "write alpha beta None",
            "edit beta gamma Some(ReplaceAtVersion(VersionToken(2)))",
            "edit beta gamma None",
            "read",
            "edit nonexistent x None",
            "edit a b None",
            "done [\"stale guarded edit succeeded; version check skipped\"] []",
        ]
    );
    assert_eq!(
        run(GuardCase::StaleVersion, vec![FsReply::Resolved(Ok(target())), refused(ErrorCode::IoError)])[2],
        "done [] [\"fixture write `conf/stale.txt` rejected by provider: io-error: no\"]"
    );
}

fn shown(call: &FsCall) -> String {
    match call {
        FsCall::Resolve(path) => format!("resolve {path}"),
        FsCall::Read(target, cap) if *cap == usize::MAX => format!("read {}", target.key.0),
        FsCall::Read(target, cap) => format!("read {} up to {cap}", target.key.0),
        FsCall::ReadAs { key, display } => format!("read {} as {display}", key.0),
        FsCall::Write { target, contents, guard } => {
            format!("write {} {} bytes {guard:?}", target.key.0, contents.len())
        }
        FsCall::Edit { target, find, replace, .. } => format!("edit {} {find} {replace}", target.key.0),
        FsCall::List(target) => format!("list {}", target.key.0),
        FsCall::Chmod { path, mode } => format!("chmod {path} {mode:o}"),
        FsCall::Done(cx) => format!("done {:?} {:?}", cx.failures, cx.skips),
    }
}

/// The calls of a case, one after each of the replies.
fn calls(case: FsCase, replies: Vec<FsReply>) -> Vec<String> {
    let mut given = Vec::new();
    let mut out = vec![shown(&next_call(case, &given))];
    for reply in replies {
        given.push(reply);
        out.push(shown(&next_call(case, &given)));
    }
    out
}

fn named(key: u64, display: &str) -> FsReply {
    FsReply::Resolved(Ok(Target { key: TargetKey(key), display: display.to_string() }))
}

fn mutated() -> FsReply {
    FsReply::Mutated(Ok(MutationResult { version: VersionToken(1) }))
}

fn window(text: &str, total_lines: u64, truncated: bool) -> FsReply {
    FsReply::Read(Ok(ReadWindow { contents: text.as_bytes().to_vec(), total_lines, truncated }))
}

fn refused<T>(code: ErrorCode) -> Result<T, SeamError> {
    failed(code, "no")
}

#[test]
fn a_case_probes_only_what_it_wrote() {
    assert_eq!(
        calls(FsCase::WriteThenRead, vec![named(3, "d"), mutated(), window("hello", 1, false)]),
        vec!["resolve conf/write_then_read.txt", "write 3 5 bytes None", "read 3", "done [] []"]
    );
    assert_eq!(
        calls(FsCase::WindowedReadPastCap, vec![named(3, "d"), mutated(), window("line000xx", 100, true)]),
        vec!["resolve conf/window.txt", "write 3 1000 bytes None", "read 3 up to 500", "done [] []"]
    );
    assert_eq!(
        calls(FsCase::WindowedReadNoCap, vec![named(3, "d"), mutated()])[1..],
        ["write 3 30 bytes None", "read 3"]
    );
    assert_eq!(
        calls(
            FsCase::UnobservedGuardedWrite,
            vec![named(3, "d"), mutated(), FsReply::Mutated(refused(ErrorCode::NotObserved))]
        ),
        vec![
            "resolve conf/unobserved.txt",
            "write 3 4 bytes None",
            "write 3 7 bytes Some(ReplaceAtVersion(VersionToken(18446744073709551615)))",
            "done [] []",
        ]
    );
    assert_eq!(
        calls(
            FsCase::ListFileIsNotADirectory,
            vec![named(3, "d"), mutated(), FsReply::Listed(refused(ErrorCode::NotADirectory))]
        )[2..],
        ["list 3", "done [] []"]
    );
    assert_eq!(
        calls(
            FsCase::ReadBinaryIsNotText,
            vec![named(3, "d"), mutated(), FsReply::Read(refused(ErrorCode::NotText))]
        )[1..],
        ["write 3 5 bytes None", "read 3", "done [] []"]
    );
    assert_eq!(
        calls(FsCase::ReadMissingIsNotFound, vec![named(3, "d"), FsReply::Read(refused(ErrorCode::NotFound))]),
        vec!["resolve conf/definitely-missing-9f3a.txt", "read 3", "done [] []"]
    );
    assert_eq!(
        calls(
            FsCase::ReadDirectoryIsNotARegularFile,
            vec![named(3, "d"), FsReply::Read(refused(ErrorCode::NotARegularFile))]
        ),
        vec!["resolve conf", "read 3", "done [] []"]
    );
}

#[test]
fn a_case_makes_its_later_calls_in_order() {
    let taken = || FsReply::Mutated(refused(ErrorCode::NotFound));
    assert_eq!(
        calls(FsCase::CreateIfAbsent, vec![named(3, "d"), mutated(), taken(), window("first", 1, false)]),
        vec![
            "resolve conf/create_if_absent.txt",
            "write 3 5 bytes Some(CreateIfAbsent)",
            "write 3 6 bytes Some(CreateIfAbsent)",
            "read 3",
            "done [] []",
        ]
    );
    let listing = |name: &str| FsReply::Listed(Ok(vec![Entry { name: name.to_string(), is_dir: false }]));
    assert_eq!(
        calls(
            FsCase::AtomicWriteNoDebris,
            vec![named(3, "d"), mutated(), named(3, "d"), mutated(), named(9, "conf"), listing("a.tmp")]
        )[2..],
        [
            "resolve conf/atomic_write.txt",
            "write 3 3 bytes None",
            "resolve conf",
            "list 9",
            "done [\"atomic write left temp/backup debris in the directory: [\\\"a.tmp\\\"]\"] []",
        ]
    );
    let no = || FsReply::Resolved(refused(ErrorCode::IoError));
    assert_eq!(
        calls(FsCase::AtomicWriteNoDebris, vec![named(3, "d"), mutated(), no(), named(9, "conf"), listing("a")])[3..],
        [
            "resolve conf",
            "list 9",
            "done [] [\"fixture write `conf/atomic_write.txt` rejected by provider: io-error: no\"]",
        ]
    );
    assert_eq!(
        calls(FsCase::AtomicEditNoDebris, vec![named(3, "d"), mutated(), mutated(), no()])[2..],
        ["edit 3 world there", "resolve conf", "done [] []"]
    );
    assert_eq!(
        calls(
            FsCase::OverwriteInPlace,
            vec![named(3, "d"), mutated(), named(3, "d"), mutated(), window("v2", 1, false), window("v1", 1, false)]
        )[2..],
        [
            "resolve conf/overwrite.txt",
            "write 3 2 bytes None",
            "read 3",
            "read 3",
            "done [\"read via new handle returned \\\"v1\\\"\"] []",
        ]
    );
    assert_eq!(
        calls(
            FsCase::SameFileSameKey,
            vec![named(3, "d"), mutated(), named(3, "d"), no(), named(3, "d"), named(4, "d")]
        )[2..],
        [
            "resolve conf/identity.txt",
            "resolve ./conf/identity.txt",
            "resolve conf/./identity.txt",
            "resolve conf//identity.txt",
            "done [\"resolve of `./conf/identity.txt` (same file, different spelling) failed: io-error: no\", \"`conf//identity.txt` resolved to 4 but `conf/identity.txt` resolved to 3; the same file under a different spelling must share one key\"] []",
        ]
    );
    assert_eq!(
        calls(
            FsCase::ForgedTargetRefused,
            vec![
                named(3, "d"),
                mutated(),
                FsReply::Read(refused(ErrorCode::NotObserved)),
                named(4, "e"),
                mutated(),
                window("real", 1, false),
            ]
        )[2..],
        [
            "read 18446744073709551615 as d",
            "resolve conf/other.txt",
            "write 4 5 bytes None",
            "read 3 as e",
            "done [] []",
        ]
    );
    assert_eq!(
        calls(
            FsCase::PermissionDeniedVsSandboxDenied,
            vec![
                named(3, "d"),
                mutated(),
                named(3, "d"),
                FsReply::Moded(Some(true)),
                FsReply::Read(refused(ErrorCode::SandboxDenied)),
                FsReply::Moded(Some(true)),
            ]
        )[2..5],
        ["resolve d", "chmod d 0", "read 3"]
    );
    let last = calls(
        FsCase::PermissionDeniedVsSandboxDenied,
        vec![
            named(3, "d"),
            mutated(),
            named(3, "d"),
            FsReply::Moded(Some(true)),
            FsReply::Read(refused(ErrorCode::PermissionDenied)),
            FsReply::Moded(None),
        ],
    );
    assert_eq!(last[5..], ["chmod d 644", "done [] []"]);
}

#[test]
fn an_answer_of_the_wrong_kind_ends_a_case() {
    assert_eq!(calls(FsCase::WriteThenRead, vec![mutated()])[1], "done [] []");
    assert_eq!(calls(FsCase::WriteThenRead, vec![named(3, "d"), named(3, "d")])[2], "done [] []");
}
