//! The local filesystem provider over a disk held in memory. The disk answers
//! the walks the way a kernel does: one hop at a time, refusing links.

use std::cell::RefCell;
use std::collections::{BTreeMap, BTreeSet};

use harnless::conformance::fs_suite::{check_case, Host, CONFORMANCE_CASES};
use harnless::local_fs::bytes::{count_matches, find, fnv1a, line_count, splice, Window};
use harnless::local_fs::events::{FsObserved, Intent};
use harnless::local_fs::fault::{io_error, openat_error, FaultClass, IoFault};
use harnless::local_fs::path::{child, normalize, show_names};
use harnless::local_fs::mutate::{Change, Mutation, MutationAction, MutationEvent};
use harnless::local_fs::provider::{FileKind, LocalFileSystem};
use harnless::local_fs::walk::{Missing, Place, ResolveAction, WalkAction};
use harnless::seam::error::{ErrorCode, SeamError};
use harnless::seam::fs::{
    Edit, Entry, FileSystem, MutationResult, ReadWindow, Target, TargetKey, VersionToken, WriteGuard,
};

const ROOT: &str = "/w";

#[derive(Clone)]
enum Node {
    Dir,
    File(Vec<u8>),
    Link,
}

fn fault<T>(class: FaultClass) -> Result<T, IoFault> {
    Err(IoFault { class, message: "kernel says no".to_string() })
}

/// A disk: every node by its full path.
struct Disk {
    nodes: BTreeMap<String, Node>,
    locked: BTreeSet<String>,
}

impl Disk {
    fn open(&self, path: &str, dir: bool) -> Result<(), IoFault> {
        match self.nodes.get(path) {
            None => fault(FaultClass::NotFound),
            Some(Node::Link) => fault(FaultClass::Loop),
            Some(Node::File(_)) if dir => fault(FaultClass::NotADirectory),
            Some(_) => Ok(()),
        }
    }

    fn kind(&self, path: &str) -> Option<FileKind> {
        match self.nodes.get(path) {
            None => None,
            Some(Node::Dir) => Some(FileKind::Directory),
            Some(Node::File(_)) => Some(FileKind::Regular),
            Some(Node::Link) => Some(FileKind::Other),
        }
    }
}

/// A policy: the writes and edits it was asked about, the reads it saw, and
/// whether it denies writes.
struct Policy {
    writes: Vec<String>,
    edits: Vec<String>,
    observed: Vec<FsObserved>,
    denies: bool,
}

struct Mounted {
    disk: RefCell<Disk>,
    fs: RefCell<LocalFileSystem>,
    policy: RefCell<Policy>,
}

fn text(path: &[u8]) -> String {
    String::from_utf8(path.to_vec()).unwrap()
}

fn mounted(fs: LocalFileSystem, denies: bool) -> Mounted {
    Mounted {
        disk: RefCell::new(Disk {
            nodes: BTreeMap::from([(ROOT.to_string(), Node::Dir)]),
            locked: BTreeSet::new(),
        }),
        fs: RefCell::new(fs),
        policy: RefCell::new(Policy { writes: vec![], edits: vec![], observed: vec![], denies }),
    }
}

fn bare() -> Mounted {
    mounted(LocalFileSystem::new(ROOT.as_bytes().to_vec(), 7), false)
}

fn with_policy(denies: bool) -> Mounted {
    mounted(
        LocalFileSystem::with_policy(ROOT.as_bytes().to_vec(), 7, "test-actor".to_string()),
        denies,
    )
}

impl Mounted {
    fn put(&self, path: &str, node: Node) {
        self.disk.borrow_mut().nodes.insert(format!("{ROOT}/{path}"), node);
    }

    fn walk(&self, target: &Target, missing: Missing, to_parent: bool) -> Result<Place, SeamError> {
        let (walk, mut action) = self.fs.borrow().open(target, missing, to_parent);
        let mut walk = match walk {
            Some(w) => w,
            None => match action {
                WalkAction::Refused(e) => return Err(e),
                _ => panic!("a walk that is over without a refusal"),
            },
        };
        let mut at = ROOT.to_string();
        loop {
            let hop = match action {
                WalkAction::Reached(place) => return Ok(place),
                WalkAction::Refused(e) => return Err(e),
                WalkAction::OpenRoot => Ok(()),
                WalkAction::OpenDir(name) | WalkAction::ReopenDir(name) => {
                    let next = format!("{at}/{name}");
                    let opened = self.disk.borrow().open(&next, true);
                    if opened.is_ok() {
                        at = next;
                    }
                    opened
                }
                WalkAction::MakeDir(path) => {
                    self.disk.borrow_mut().nodes.insert(text(&path), Node::Dir);
                    Ok(())
                }
                WalkAction::OpenFile(name) => {
                    self.disk.borrow().open(&format!("{at}/{name}"), false)
                }
            };
            action = walk.hop(hop);
        }
    }

    fn asked(&self, edits: bool, target: &Target) -> Intent {
        let mut policy = self.policy.borrow_mut();
        let log = if edits { &mut policy.edits } else { &mut policy.writes };
        log.push(target.display.clone());
        if policy.denies {
            Intent::Deny("read-only policy".to_string())
        } else {
            Intent::Allow
        }
    }

    fn mutate(
        &self,
        target: &Target,
        change: Change,
        guard: Option<WriteGuard>,
    ) -> Result<MutationResult, SeamError> {
        let (mutation, mut action) = Mutation::begin(target, change, guard, 3);
        let mut under_way = Some(mutation);
        let (mut dir, mut path) = (String::new(), String::new());
        loop {
            let event = match action {
                MutationAction::Done(result) => return result,
                MutationAction::Walk { missing, to_parent } => {
                    let walked = self.walk(target, missing, to_parent).map(|place| {
                        (dir, path) = (text(&place.dir), text(&place.canonical));
                        let kind = self.disk.borrow().kind(&path);
                        (place, kind)
                    });
                    MutationEvent::Walked(walked)
                }
                MutationAction::AskWrite(event) => {
                    MutationEvent::Answered(self.asked(false, &event.target))
                }
                MutationAction::AskEdit(event) => {
                    MutationEvent::Answered(self.asked(true, &event.target))
                }
                MutationAction::ReadAll => MutationEvent::Bytes(Ok(self.bytes_at(&path))),
                MutationAction::Replace { tmp_name, name, contents } => {
                    assert!(tmp_name.contains("harnless-tmp"), "{tmp_name}");
                    let mut disk = self.disk.borrow_mut();
                    MutationEvent::Landed(if disk.locked.contains(&dir) {
                        fault(FaultClass::PermissionDenied)
                    } else {
                        let tmp = format!("{dir}/{tmp_name}");
                        disk.nodes.insert(tmp.clone(), Node::File(contents));
                        let moved = disk.nodes.remove(&tmp).unwrap();
                        disk.nodes.insert(format!("{dir}/{name}"), moved);
                        Ok(())
                    })
                }
            };
            let mutation = under_way.take().expect("a mutation that asks is under way");
            let (left, next) = mutation.resume(&mut self.fs.borrow_mut(), event);
            under_way = left;
            action = next;
        }
    }

    fn bytes_at(&self, path: &str) -> Vec<u8> {
        match self.disk.borrow().nodes.get(path) {
            Some(Node::File(bytes)) => bytes.clone(),
            _ => panic!("no file at {path}"),
        }
    }
}

impl FileSystem for Mounted {
    fn resolve(&self, path: &str) -> Result<Target, SeamError> {
        let (walk, mut action) = self.fs.borrow().resolve(path);
        let mut walk = match walk {
            Some(w) => w,
            None => match action {
                ResolveAction::Done(r) => return r,
                _ => panic!("a walk that is over without an answer"),
            },
        };
        let mut at = ROOT.to_string();
        loop {
            let hop = match action {
                ResolveAction::Done(r) => return r,
                ResolveAction::OpenDir(name) => {
                    let next = format!("{at}/{name}");
                    let opened = self.disk.borrow().open(&next, true);
                    at = next;
                    opened
                }
                ResolveAction::OpenFinal(name) => {
                    self.disk.borrow().open(&format!("{at}/{name}"), false)
                }
            };
            action = walk.hop(hop);
        }
    }

    fn read(&self, target: &Target, max_bytes: usize) -> Result<ReadWindow, SeamError> {
        let place = self.walk(target, Missing::Refused, false)?;
        let path = text(&place.canonical);
        let kind = self.disk.borrow().kind(&path);
        LocalFileSystem::read_opened(target, kind.map(Ok))?;
        let mut window = Window::new(max_bytes);
        for chunk in self.bytes_at(&path).chunks(3) {
            window.feed(chunk);
        }
        let (got, observed) = self.fs.borrow().read(target, window)?;
        if let Some(o) = observed {
            self.policy.borrow_mut().observed.push(o);
        }
        Ok(got)
    }

    fn write(
        &self,
        target: &Target,
        contents: &[u8],
        guard: Option<WriteGuard>,
    ) -> Result<MutationResult, SeamError> {
        self.mutate(target, Change::Write(contents.to_vec()), guard)
    }

    fn edit(
        &self,
        target: &Target,
        edit: &Edit,
        guard: Option<WriteGuard>,
    ) -> Result<MutationResult, SeamError> {
        self.mutate(target, Change::Edit(edit.clone()), guard)
    }

    fn list(&self, target: &Target) -> Result<Vec<Entry>, SeamError> {
        let place = self.walk(target, Missing::Refused, false)?;
        let path = text(&place.canonical);
        let disk = self.disk.borrow();
        LocalFileSystem::list_opened(target, disk.kind(&path).map(Ok))?;
        let mut entries: Vec<Entry> = disk
            .nodes
            .iter()
            .filter_map(|(p, n)| match p.rsplit_once('/') {
                Some((dir, name)) if dir == path => {
                    Some(Entry { name: name.to_string(), is_dir: matches!(n, Node::Dir) })
                }
                _ => None,
            })
            .collect();
        entries.reverse();
        Ok(LocalFileSystem::list(entries))
    }
}

fn write(fs: &Mounted, path: &str, bytes: &[u8]) -> VersionToken {
    let target = fs.resolve(path).expect("resolve");
    fs.write(&target, bytes, None).expect("unguarded write succeeds").version
}

fn read(fs: &Mounted, path: &str, cap: usize) -> ReadWindow {
    let target = fs.resolve(path).expect("resolve");
    fs.read(&target, cap).expect("read succeeds")
}

fn edit_of(find: &[u8], replace: &[u8]) -> Edit {
    Edit { find: find.to_vec(), replace: replace.to_vec() }
}

// ---- bytes ---------------------------------------------------------------

#[test]
fn count_matches_pinned() {
    assert_eq!(count_matches(b"aaa", b"a"), 3);
    assert_eq!(count_matches(b"aaa", b"aa"), 1);
    assert_eq!(count_matches(b"ab", b""), 0);
    assert_eq!(count_matches(b"", b"x"), 0);
}

#[test]
fn fnv1a_pinned() {
    assert_eq!(fnv1a(b""), 0xcbf2_9ce4_8422_2325);
    assert_eq!(fnv1a(b"a"), 0xaf63_dc4c_8601_ec8c);
}

#[test]
fn nonce_is_deterministic_shape() {
    let fs = LocalFileSystem::new(ROOT.as_bytes().to_vec(), 99);
    assert_ne!(fs.stamp(1), fs.stamp(2));
}

#[test]
fn a_splice_replaces_one_occurrence() {
    assert_eq!(find(b"one two", b"two"), Some(4));
    assert_eq!(find(b"one two", b"three"), None);
    assert_eq!(splice(b"one two", 4, b"two", b"2"), b"one 2");
    assert_eq!(line_count(b"a\nb"), 2);
    assert_eq!(line_count(b""), 0);
    assert_eq!(line_count(b"a\n"), 1);
}

// ---- opaque targets --------------------------------------------------------

#[test]
fn same_file_through_any_spelling_yields_one_key() {
    let fs = bare();
    fs.put("sub", Node::Dir);
    fs.put("a.txt", Node::File(b"hi".to_vec()));
    let plain = fs.resolve("a.txt").unwrap();
    let dotted = fs.resolve("./a.txt").unwrap();
    let detour = fs.resolve("sub/../a.txt").unwrap();
    assert_eq!(plain.key, dotted.key);
    assert_eq!(plain.key, detour.key);
    assert_eq!(plain.display, "a.txt");
    assert_eq!(dotted.display, "a.txt");
}

#[test]
fn keys_are_never_paths_and_are_stable_across_provider_instances() {
    let (one, two) = (bare(), with_policy(false));
    one.put("x.txt", Node::File(b"x".to_vec()));
    two.put("x.txt", Node::File(b"x".to_vec()));
    let a = one.resolve("x.txt").unwrap();
    let b = two.resolve("x.txt").unwrap();
    assert_eq!(a.key, b.key, "identity must survive a remount");
    assert_eq!(a.key, TargetKey(fnv1a(b"/w/x.txt")));
    let rendered = a.key.0.to_string();
    assert!(!rendered.contains("x.txt"));
}

#[test]
fn paths_escaping_the_root_are_refused() {
    let fs = bare();
    let escaped = fs.resolve("../secret.txt");
    assert_eq!(escaped.unwrap_err().code, ErrorCode::SandboxDenied);
    let abs = fs.resolve("/outside/secret.txt");
    assert_eq!(abs.unwrap_err().code, ErrorCode::SandboxDenied);
}

#[test]
fn symlinks_out_of_the_root_are_refused() {
    let fs = bare();
    fs.put("link.txt", Node::Link);
    assert_eq!(fs.resolve("link.txt").unwrap_err().code, ErrorCode::SandboxDenied);
    assert_eq!(fs.resolve("link.txt/deeper").unwrap_err().code, ErrorCode::SandboxDenied);
}

#[test]
fn a_forged_key_is_refused() {
    let fs = bare();
    write(&fs, "a.txt", b"x");
    let forged = Target { key: TargetKey(1), display: "a.txt".to_string() };
    assert_eq!(fs.read(&forged, 10).unwrap_err().code, ErrorCode::NotObserved);
}

// ---- windowed reads ----------------------------------------------------------

#[test]
fn windowed_read_keeps_exact_line_total_past_the_cap() {
    let fs = bare();
    write(&fs, "lines.txt", b"one\ntwo\nthree\nfour\n");
    let window = read(&fs, "lines.txt", 8);
    assert!(window.truncated);
    assert_eq!(&window.contents, b"one\ntwo\n");
    assert_eq!(window.total_lines, 4);
    write(&fs, "tail.txt", b"a\nb");
    assert_eq!(read(&fs, "tail.txt", 100).total_lines, 2);
    write(&fs, "empty.txt", b"");
    assert_eq!(read(&fs, "empty.txt", 100).total_lines, 0);
}

#[test]
fn a_window_never_ends_inside_a_scalar() {
    let fs = bare();
    write(&fs, "u.txt", "ab\u{e9}cd".as_bytes());
    let window = read(&fs, "u.txt", 3);
    assert!(window.truncated);
    assert_eq!(&window.contents, b"ab");
}

#[test]
fn binary_reads_fail_not_text_not_replacement_mush() {
    let fs = bare();
    let target = fs.resolve("bin.dat").unwrap();
    fs.write(&target, &[0xff, 0xfe, 0x00, 0x01], None).unwrap();
    assert_eq!(fs.read(&target, 100).unwrap_err().code, ErrorCode::NotText);
}

#[test]
fn reading_a_directory_is_not_a_regular_file() {
    let fs = bare();
    fs.put("sub", Node::Dir);
    let target = fs.resolve("sub").unwrap();
    assert_eq!(fs.read(&target, 10).unwrap_err().code, ErrorCode::NotARegularFile);
}

#[test]
fn missing_file_is_not_found() {
    let fs = bare();
    let target = fs.resolve("ghost.txt").unwrap();
    assert_eq!(fs.read(&target, 10).unwrap_err().code, ErrorCode::NotFound);
}

// ---- version guards and atomic writes --------------------------------------------

#[test]
fn guarded_write_refuses_stale_versions_and_bumps_on_success() {
    let fs = bare();
    let v1 = write(&fs, "f.txt", b"first");
    let target = fs.resolve("f.txt").unwrap();
    let v2 =
        fs.write(&target, b"second", Some(WriteGuard::ReplaceAtVersion(v1))).unwrap().version;
    assert_ne!(v1, v2);
    let err = fs.write(&target, b"third", Some(WriteGuard::ReplaceAtVersion(v1))).unwrap_err();
    assert_eq!(err.code, ErrorCode::StaleVersion);
    assert_eq!(&read(&fs, "f.txt", 100).contents, b"second");
}

#[test]
fn create_if_absent_refuses_existing_targets() {
    let fs = bare();
    let target = fs.resolve("new.txt").unwrap();
    fs.write(&target, b"created", Some(WriteGuard::CreateIfAbsent)).unwrap();
    let err = fs.write(&target, b"again", Some(WriteGuard::CreateIfAbsent)).unwrap_err();
    assert_eq!(err.code, ErrorCode::StaleVersion);
}

#[test]
fn guarded_write_on_an_unobserved_path_is_not_observed() {
    let fs = bare();
    fs.put("pre.txt", Node::File(b"preexisting".to_vec()));
    let target = fs.resolve("pre.txt").unwrap();
    let err = fs
        .write(&target, b"mine", Some(WriteGuard::ReplaceAtVersion(VersionToken(42))))
        .unwrap_err();
    assert_eq!(err.code, ErrorCode::NotObserved);
}

#[test]
fn unguarded_write_is_unconditional() {
    let fs = bare();
    write(&fs, "f.txt", b"one");
    write(&fs, "f.txt", b"two");
    assert_eq!(&read(&fs, "f.txt", 100).contents, b"two");
}

#[test]
fn atomic_replace_leaves_no_temp_files() {
    let fs = bare();
    write(&fs, "f.txt", b"payload");
    let target = fs.resolve("f.txt").unwrap();
    fs.write(&target, b"replaced", None).unwrap();
    let disk = fs.disk.borrow();
    let leftovers: Vec<_> = disk.nodes.keys().filter(|n| n.contains("harnless-tmp")).collect();
    assert!(leftovers.is_empty(), "temp files left behind: {leftovers:?}");
}

#[test]
fn a_directory_is_never_written() {
    let fs = bare();
    fs.put("sub", Node::Dir);
    let target = fs.resolve("sub").unwrap();
    assert_eq!(fs.write(&target, b"x", None).unwrap_err().code, ErrorCode::NotADirectory);
}

// ---- edits --------------------------------------------------------------------

#[test]
fn edit_applies_one_literal_replacement_atomically() {
    let fs = bare();
    let v = write(&fs, "code.rs", b"fn main() { old() }\n");
    let target = fs.resolve("code.rs").unwrap();
    let result = fs
        .edit(&target, &edit_of(b"old()", b"new(1, 2)"), Some(WriteGuard::ReplaceAtVersion(v)))
        .unwrap();
    assert_ne!(result.version, v);
    assert_eq!(&read(&fs, "code.rs", 100).contents, b"fn main() { new(1, 2) }\n");
}

#[test]
fn edit_requires_exactly_one_match() {
    let fs = bare();
    write(&fs, "dup.txt", b"x x x");
    let target = fs.resolve("dup.txt").unwrap();
    let err = fs.edit(&target, &edit_of(b"x", b"y"), None).unwrap_err();
    assert_eq!(err.code, ErrorCode::AmbiguousEdit);
    assert!(err.message.contains("3 times"), "{}", err.message);
    let err = fs.edit(&target, &edit_of(b"zzz", b"y"), None).unwrap_err();
    assert_eq!(err.code, ErrorCode::EditNotFound);
    assert_eq!(&read(&fs, "dup.txt", 100).contents, b"x x x");
}

#[test]
fn guarded_edit_checks_version_before_matching() {
    let fs = bare();
    let stale = write(&fs, "f.txt", b"target here");
    let target = fs.resolve("f.txt").unwrap();
    write(&fs, "f.txt", b"target here (changed)");
    let err = fs
        .edit(&target, &edit_of(b"target", b"X"), Some(WriteGuard::ReplaceAtVersion(stale)))
        .unwrap_err();
    assert_eq!(err.code, ErrorCode::StaleVersion);
}

#[test]
fn binary_files_are_not_edited() {
    let fs = bare();
    let target = fs.resolve("bin.dat").unwrap();
    fs.write(&target, &[0xff, b'x'], None).unwrap();
    assert_eq!(fs.edit(&target, &edit_of(b"x", b"y"), None).unwrap_err().code, ErrorCode::NotText);
}

// ---- listings --------------------------------------------------------------------

#[test]
fn list_is_sorted_and_kind_tagged() {
    let fs = bare();
    fs.put("beta", Node::Dir);
    fs.put("alpha.txt", Node::File(b"a".to_vec()));
    fs.put("zeta.txt", Node::File(b"z".to_vec()));
    let entries = fs.list(&fs.resolve(".").unwrap()).unwrap();
    let names: Vec<&str> = entries.iter().map(|e| e.name.as_str()).collect();
    assert_eq!(names, vec!["alpha.txt", "beta", "zeta.txt"]);
    assert!(entries[1].is_dir);
    assert!(!entries[0].is_dir);
    let err = fs.list(&fs.resolve("alpha.txt").unwrap()).unwrap_err();
    assert_eq!(err.code, ErrorCode::NotADirectory);
}

// ---- policy ------------------------------------------------------------------------

#[test]
fn bare_provider_mutates_with_no_policy_mounted() {
    let fs = bare();
    let v = write(&fs, "bare.txt", b"works");
    let target = fs.resolve("bare.txt").unwrap();
    fs.edit(&target, &edit_of(b"works", b"still works"), Some(WriteGuard::ReplaceAtVersion(v)))
        .unwrap();
    assert_eq!(&read(&fs, "bare.txt", 100).contents, b"still works");
    assert!(fs.policy.borrow().writes.is_empty());
}

#[test]
fn policy_sees_intents_and_observations_and_can_veto() {
    let fs = with_policy(false);
    let v = write(&fs, "p.txt", b"hello");
    let target = fs.resolve("p.txt").unwrap();
    fs.edit(&target, &edit_of(b"hello", b"world"), Some(WriteGuard::ReplaceAtVersion(v))).unwrap();
    read(&fs, "p.txt", 100);
    let policy = fs.policy.borrow();
    assert_eq!(policy.writes, vec!["p.txt".to_string()]);
    assert_eq!(policy.edits, vec!["p.txt".to_string()]);
    assert_eq!(policy.observed.len(), 1);
    assert_eq!(policy.observed[0].actor, "test-actor");
    assert_eq!(policy.observed[0].target.display, "p.txt");
    assert_eq!(policy.observed[0].total_lines, 1);
    assert!(!policy.observed[0].truncated);
}

#[test]
fn policy_veto_fails_the_mutation_sandbox_denied() {
    let fs = with_policy(true);
    let target = fs.resolve("blocked.txt").unwrap();
    let err = fs.write(&target, b"nope", None).unwrap_err();
    assert_eq!(err.code, ErrorCode::SandboxDenied);
    assert_eq!(err.message, "write refused by policy: read-only policy");
    assert!(!fs.disk.borrow().nodes.contains_key("/w/blocked.txt"));
    assert_eq!(fs.policy.borrow().writes, vec!["blocked.txt".to_string()]);
}

#[test]
fn a_denied_write_leaves_the_tree_as_it_was() {
    let fs = with_policy(true);
    let target = fs.resolve("d/f.txt").unwrap();
    let err = fs.write(&target, b"nope", None).unwrap_err();
    assert_eq!(err.code, ErrorCode::SandboxDenied);
    assert_eq!(fs.policy.borrow().writes, vec!["d/f.txt".to_string()]);
    let nodes: Vec<String> = fs.disk.borrow().nodes.keys().cloned().collect();
    assert_eq!(nodes, vec![ROOT.to_string()]);
    assert_eq!(fs.fs.borrow().version_of(&target), None);
}

#[test]
fn a_refused_guard_makes_no_directory() {
    let fs = bare();
    let target = fs.resolve("d/f.txt").unwrap();
    let guard = Some(WriteGuard::ReplaceAtVersion(VersionToken(42)));
    assert_eq!(fs.write(&target, b"nope", guard).unwrap_err().code, ErrorCode::NotObserved);
    assert!(!fs.disk.borrow().nodes.contains_key("/w/d"));
    fs.write(&target, b"yes", Some(WriteGuard::CreateIfAbsent)).unwrap();
    assert_eq!(fs.bytes_at("/w/d/f.txt"), b"yes");
}

#[test]
fn a_mutation_looks_asks_enters_and_replaces_in_that_order() {
    let mut fs = LocalFileSystem::with_policy(ROOT.as_bytes().to_vec(), 7, "a".to_string());
    let target = Target { key: TargetKey(fnv1a(b"/w/d/f.txt")), display: "d/f.txt".to_string() };
    let place = |exists| Place {
        dir: b"/w/d".to_vec(),
        name: "f.txt".to_string(),
        canonical: b"/w/d/f.txt".to_vec(),
        exists,
    };
    let (m, action) = Mutation::begin(&target, Change::Write(b"new".to_vec()), None, 3);
    assert!(matches!(action, MutationAction::Walk { missing: Missing::Absent, to_parent: false }));
    let (m, action) = m.resume(&mut fs, MutationEvent::Walked(Ok((place(false), None))));
    assert!(matches!(action, MutationAction::AskWrite(e) if e.actor == "a"));
    let (m, action) = m.unwrap().resume(&mut fs, MutationEvent::Answered(Intent::Allow));
    assert!(matches!(action, MutationAction::Walk { missing: Missing::Made, to_parent: true }));
    let (m, action) = m.unwrap().resume(&mut fs, MutationEvent::Walked(Ok((place(false), None))));
    match action {
        MutationAction::Replace { name, contents, .. } => {
            assert_eq!((name.as_str(), contents.as_slice()), ("f.txt", &b"new"[..]));
        }
        _ => panic!("no replacement was asked for"),
    }
    let (m, action) = m.unwrap().resume(&mut fs, MutationEvent::Landed(Ok(())));
    assert!(m.is_none());
    match action {
        MutationAction::Done(Ok(result)) => assert_eq!(fs.version_of(&target), Some(result.version)),
        _ => panic!("the mutation is not over"),
    }
}

#[test]
fn a_failed_step_ends_the_mutation_with_its_error() {
    let fs = bare();
    fs.put("file", Node::File(b"x".to_vec()));
    let target = fs.resolve("file/below.txt").unwrap();
    let err = fs.edit(&target, &edit_of(b"a", b"b"), None).unwrap_err();
    assert_eq!(err.code, ErrorCode::IoError);
    let ghost = fs.resolve("ghost.txt").unwrap();
    let err = fs.edit(&ghost, &edit_of(b"a", b"b"), None).unwrap_err();
    assert_eq!((err.code, err.message.as_str()), (ErrorCode::NotFound, "no such file: ghost.txt"));
    fs.put("sub", Node::Dir);
    let sub = fs.resolve("sub").unwrap();
    let err = fs.write(&sub, b"x", None).unwrap_err();
    assert_eq!(err.message, "write target is a directory: sub");
}

#[test]
fn sandbox_denial_stays_distinct_from_kernel_denial() {
    let fs = bare();
    fs.put("locked", Node::Dir);
    fs.put("locked/f.txt", Node::File(b"x".to_vec()));
    fs.disk.borrow_mut().locked.insert("/w/locked".to_string());
    let target = fs.resolve("locked/f.txt").unwrap();
    let err = fs.write(&target, b"y", None).unwrap_err();
    assert_eq!(err.code, ErrorCode::PermissionDenied);
    assert_eq!(fs.fs.borrow().version_of(&target), None, "a failed write advanced the version");
}

// ---- what always holds ---------------------------------------------------------------

#[test]
fn version_tokens_never_repeat() {
    let fs = bare();
    let mut nums: Vec<u64> = (0..5).map(|i| write(&fs, &format!("f{i}.txt"), b"x").0).collect();
    nums.sort();
    nums.dedup();
    assert_eq!(nums.len(), 5);
}

#[test]
fn version_of_reflects_provider_mutations_only() {
    let fs = bare();
    fs.put("pre.txt", Node::File(b"pre".to_vec()));
    let pre = fs.resolve("pre.txt").unwrap();
    assert_eq!(fs.fs.borrow().version_of(&pre), None, "untouched by this backend");
    let v = write(&fs, "pre.txt", b"mine");
    assert_eq!(fs.fs.borrow().version_of(&pre), Some(v));
}

#[test]
fn write_creates_missing_parent_directories() {
    let fs = bare();
    let target = fs.resolve("deep/nested/file.txt").unwrap();
    fs.write(&target, b"nested", None).unwrap();
    assert_eq!(&read(&fs, "deep/nested/file.txt", 100).contents, b"nested");
}

struct Modeless;

impl Host for Modeless {
    fn chmod(&self, _path: &str, _mode: u32) -> Option<bool> {
        None
    }
}

#[test]
fn the_provider_passes_the_suite_but_for_the_taken_slot() {
    // The suite asks for `not-found` where a guarded create meets a file; the
    // provider answers `stale-version`.
    for case in CONFORMANCE_CASES {
        let fs = bare();
        fs.put("conf", Node::Dir);
        let violations = check_case(&fs, &Modeless, case);
        if case != "create_if_absent" {
            assert!(violations.is_empty(), "case `{case}` failed: {violations:?}");
        }
    }
}

#[test]
fn faults_map_onto_the_taxonomy() {
    let f = |class| IoFault { class, message: "m".to_string() };
    assert_eq!(io_error(f(FaultClass::NotFound)).code, ErrorCode::NotFound);
    assert_eq!(io_error(f(FaultClass::PermissionDenied)).code, ErrorCode::PermissionDenied);
    assert_eq!(io_error(f(FaultClass::NotADirectory)).code, ErrorCode::IoError);
    assert_eq!(io_error(f(FaultClass::Other)).code, ErrorCode::IoError);
    assert_eq!(openat_error(f(FaultClass::Loop)).code, ErrorCode::SandboxDenied);
    assert_eq!(openat_error(f(FaultClass::NotFound)).code, ErrorCode::NotFound);
}

#[test]
fn spellings_normalize() {
    assert_eq!(normalize("a/./b/../c").unwrap(), vec!["a", "c"]);
    assert!(normalize("a/../..").is_none());
    assert!(normalize("/a").is_none());
    assert_eq!(normalize(".").unwrap().len(), 0);
    assert_eq!(show_names(&vec!["a".to_string(), "b".to_string()]), "a/b");
    assert_eq!(show_names(&vec![]), ".");
    assert_eq!(child(b"/w", b"x"), b"/w/x");
}
