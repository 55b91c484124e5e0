//! The provider's own record (versions and tokens) and the decisions of each
//! operation: what is refused, what is asked next, and what is returned.
//!
//! Freshness is provider-observed mutation order. A fresh provider knows no
//! versions; every mutation that lands stamps one. A guard is checked before
//! any matching or writing happens, and a failed mutation never advances a
//! version.

use vstd::bytes::{spec_u64_to_le_bytes, u64_to_le_bytes};
use vstd::prelude::*;
use vstd::utf8::valid_utf8;

use crate::assoc::Assoc;
use crate::local_fs::bytes::{
    count_matches, find, first_match, fnv1a, fnv1a_hash, is_cut, kept, lemma_text_prefix,
    line_total, match_count, push_range, splice, spliced, text_prefix, utf8_scan, Window,
};
use crate::local_fs::events::{
    FsEditIntent, FsObserved, FsObservedView, FsWriteIntent, Intent, IntentEventView,
};
use crate::local_fs::fault::{io_error, io_failure, IoFault};
use crate::local_fs::path::{canonical, canonical_path, is_absolute, split_path, tidied, tidy};
use crate::local_fs::walk::{Missing, OpenWalk, Resolution, ResolveAction, WalkAction};
use crate::local_fs::walk::{open_start, resolve_start};
use crate::seam::error::{failure, outcome, ErrorCode, SeamError, SeamErrorView};
use crate::seam::fs::{
    entries_view, Edit, Entry, EntryView, MutationResult, ReadWindow, ReadWindowView, Target,
    TargetView, VersionToken, WriteGuard,
};
use crate::text::{
    cat, cat3, decimal, decimal_text, hex, less, lossy_text, numeral, same, text_less, text_opt,
    texts, utf8_lossy,
};

verus! {

/// The kind of object a target names.
#[derive(Debug, Clone, Copy, PartialEq, Eq, Structural)]
pub enum FileKind {
    Regular,
    Directory,
    Other,
}

/// A local filesystem confined to one workspace root: its identity and its
/// version record.
pub struct LocalFileSystem {
    /// The canonical root.
    root: Vec<u8>,
    /// Canonical path to current version number. Only a mutation through this
    /// provider stamps an entry.
    versions: Assoc<Vec<u8>, u64>,
    /// The version numbers of the mutations that landed.
    issued: Vec<u64>,
    /// Monotonic source of version numbers.
    next_version: u64,
    /// Per-instance nonce mixed into every token and temporary name.
    nonce: u64,
    /// The identity listeners see, when a policy is mounted.
    actor: Option<String>,
}

/// What a [`LocalFileSystem`] holds.
pub struct LocalFsView {
    pub root: Seq<u8>,
    pub versions: Map<Seq<u8>, u64>,
    pub issued: Seq<u64>,
    pub next_version: u64,
    pub nonce: u64,
    pub actor: Option<Seq<char>>,
}

impl View for LocalFileSystem {
    type V = LocalFsView;

    closed spec fn view(&self) -> LocalFsView {
        LocalFsView {
            root: self.root@,
            versions: self.versions@,
            issued: self.issued@,
            next_version: self.next_version,
            nonce: self.nonce,
            actor: text_opt(self.actor),
        }
    }
}

/// A token: the version number mixed with the instance's nonce, so a token of
/// one instance is foreign to another.
pub open spec fn stamp_of(nonce: u64, counter: u64) -> u64 {
    fnv1a_hash(spec_u64_to_le_bytes(nonce)) ^ fnv1a_hash(spec_u64_to_le_bytes(counter))
}

impl LocalFsView {
    /// Every recorded version was handed out.
    pub open spec fn valid(self) -> bool {
        forall|p: Seq<u8>|
            self.versions.contains_key(p) ==> self.issued.contains(#[trigger] self.versions[p])
    }

    /// Whether this instance handed out the token.
    pub open spec fn knows(self, token: VersionToken) -> bool {
        exists|i: int|
            0 <= i < self.issued.len() && stamp_of(self.nonce, #[trigger] self.issued[i]) == token.0
    }

    /// The path a display is looked up under: pieces that name nothing are
    /// dropped, and an absolute display stands for itself.
    pub open spec fn lookup_path(self, display: Seq<char>) -> Seq<u8> {
        let base = if is_absolute(display) {
            seq![47u8]
        } else {
            self.root
        };
        canonical_path(base, tidied(split_path(display)))
    }

    /// The current token of a target, if this provider ever mutated it.
    pub open spec fn token_of(self, target: TargetView) -> Option<VersionToken> {
        let path = self.lookup_path(target.display);
        if target.display != "."@ && self.versions.contains_key(path) {
            Some(VersionToken(stamp_of(self.nonce, self.versions[path])))
        } else {
            None
        }
    }

    /// The verdict on a guard, against this provider's own version record.
    pub open spec fn guard_verdict(
        self,
        path: Seq<u8>,
        guard: Option<WriteGuard>,
        exists: bool,
    ) -> Result<(), SeamErrorView> {
        match guard {
            None => Ok(()),
            Some(WriteGuard::CreateIfAbsent) => if exists {
                Err(
                    failure(
                        ErrorCode::StaleVersion,
                        "target already exists: "@ + lossy_text(path),
                    ),
                )
            } else {
                Ok(())
            },
            Some(WriteGuard::ReplaceAtVersion(seen)) => if !self.versions.contains_key(path) {
                Err(
                    failure(
                        ErrorCode::NotObserved,
                        "no version recorded for "@ + lossy_text(path)
                            + "; the guard token cannot be from this backend"@,
                    ),
                )
            } else if stamp_of(self.nonce, self.versions[path]) == seen.0 {
                Ok(())
            } else if self.knows(seen) {
                Err(
                    failure(
                        ErrorCode::StaleVersion,
                        "target moved past the presented version: "@ + lossy_text(path),
                    ),
                )
            } else {
                Err(
                    failure(
                        ErrorCode::NotObserved,
                        "the presented version was never issued for "@ + lossy_text(path)
                            + "; the guard token cannot be from this backend"@,
                    ),
                )
            },
        }
    }

    /// The provider after a mutation was begun: one version number is spent.
    pub open spec fn begun(self) -> LocalFsView {
        LocalFsView { next_version: self.next_version.wrapping_add(1), ..self }
    }

    /// The provider after the mutation with number `counter` landed at `path`.
    pub open spec fn landed(self, path: Seq<u8>, counter: u64) -> LocalFsView {
        LocalFsView {
            versions: self.versions.insert(path, counter),
            issued: self.issued.push(counter),
            ..self
        }
    }
}

/// What a mutation asks for before it touches the file.
pub enum MutateStep {
    /// Put the question to the mounted policy's write listener.
    AskWrite(FsWriteIntent),
    /// Put the question to the mounted policy's edit listener.
    AskEdit(FsEditIntent),
    /// Go on with the mutation.
    Proceed,
    /// The mutation is refused.
    Refused(SeamError),
}

/// What a [`MutateStep`] says.
pub enum MutateStepView {
    AskWrite(IntentEventView),
    AskEdit(IntentEventView),
    Proceed,
    Refused(SeamErrorView),
}

impl View for MutateStep {
    type V = MutateStepView;

    open spec fn view(&self) -> MutateStepView {
        match *self {
            MutateStep::AskWrite(event) => MutateStepView::AskWrite(event@),
            MutateStep::AskEdit(event) => MutateStepView::AskEdit(event@),
            MutateStep::Proceed => MutateStepView::Proceed,
            MutateStep::Refused(e) => MutateStepView::Refused(e@),
        }
    }
}

/// A verdict, as the step it leads to.
pub open spec fn step_of(verdict: Result<(), SeamErrorView>) -> MutateStepView {
    match verdict {
        Ok(_) => MutateStepView::Proceed,
        Err(e) => MutateStepView::Refused(e),
    }
}

/// A mutation about to be committed.
pub struct CommitPlan {
    /// The version number this mutation spends.
    pub counter: u64,
    /// The token it hands out when it lands.
    pub token: VersionToken,
    /// The sibling the new contents are written to before the rename.
    pub tmp_name: String,
}

/// The name of the temporary sibling of `name`.
pub open spec fn tmp_name_of(name: Seq<char>, token: u64, thread: u64, counter: u64) -> Seq<char> {
    "."@ + name + ".harnless-tmp-"@ + numeral((token ^ thread) as nat, 16) + "-"@ + numeral(
        counter as nat,
        16,
    )
}

/// What a read returns for a file whose bytes are `file`, at most `cap` of
/// them kept: the kept bytes when they are text; without the piece of a
/// character that the cap cut in two; a refusal when the bytes are not text.
pub open spec fn read_result(display: Seq<char>, file: Seq<u8>, cap: nat) -> Result<
    ReadWindowView,
    SeamErrorView,
> {
    let window = kept(file, cap);
    let truncated = file.len() > cap;
    let total_lines = line_total(file);
    let prefix = text_prefix(window);
    if valid_utf8(window) {
        Ok(ReadWindowView { contents: window, total_lines, truncated })
    } else if truncated && is_cut(window.skip(prefix as int)) {
        Ok(ReadWindowView { contents: window.take(prefix as int), total_lines, truncated })
    } else {
        Err(failure(ErrorCode::NotText, "not valid UTF-8 text: "@ + display))
    }
}

/// What an edit makes of a file's bytes: one literal replacement of the one
/// match, or a refusal.
pub open spec fn edit_result(
    display: Seq<char>,
    bytes: Seq<u8>,
    find: Seq<u8>,
    replace: Seq<u8>,
) -> Result<Seq<u8>, SeamErrorView> {
    let matches = match_count(bytes, find);
    if !valid_utf8(bytes) {
        Err(failure(ErrorCode::NotText, "not valid UTF-8 text: "@ + display))
    } else if matches == 0 {
        Err(failure(ErrorCode::EditNotFound, "edit pattern not found"@))
    } else if matches == 1 {
        Ok(spliced(bytes, choose|at: int| first_match(bytes, find, at), find, replace))
    } else {
        Err(
            failure(
                ErrorCode::AmbiguousEdit,
                "edit pattern matched "@ + decimal_text(matches)
                    + " times; exactly one match is required"@,
            ),
        )
    }
}

/// The entry `e` put into a sorted listing, after the entries of equal name.
pub open spec fn listed_with(sorted: Seq<EntryView>, e: EntryView) -> Seq<EntryView>
    decreases sorted.len(),
{
    if sorted.len() == 0 || !text_less(e.name, sorted.last().name) {
        sorted.push(e)
    } else {
        listed_with(sorted.drop_last(), e).push(sorted.last())
    }
}

/// A listing in order of name.
pub open spec fn by_name(entries: Seq<EntryView>) -> Seq<EntryView>
    decreases entries.len(),
{
    if entries.len() == 0 {
        Seq::empty()
    } else {
        listed_with(by_name(entries.drop_last()), entries.last())
    }
}

impl LocalFileSystem {
    /// Every recorded version was handed out.
    pub open spec fn wf(&self) -> bool {
        self@.valid()
    }

    /// A bare provider on a canonical root, with this instance's nonce.
    pub fn new(root: Vec<u8>, nonce: u64) -> (r: LocalFileSystem)
        ensures
            r.wf(),
            r@ == (LocalFsView {
                root: root@,
                versions: Map::empty(),
                issued: Seq::empty(),
                next_version: 1,
                nonce,
                actor: None,
            }),
    {
        let r = LocalFileSystem {
            root,
            versions: Assoc::new(),
            issued: Vec::new(),
            next_version: 1,
            nonce,
            actor: None,
        };
        r
    }

    /// The same provider with the policy surface mounted: mutations put their
    /// intent to the policy, reads leave an observation. `actor` is the opaque
    /// identity listeners see.
    pub fn with_policy(root: Vec<u8>, nonce: u64, actor: String) -> (r: LocalFileSystem)
        ensures
            r.wf(),
            r@ == (LocalFsView {
                root: root@,
                versions: Map::empty(),
                issued: Seq::empty(),
                next_version: 1,
                nonce,
                actor: Some(actor@),
            }),
    {
        let mut r = LocalFileSystem::new(root, nonce);
        r.actor = Some(actor);
        r
    }

    /// Translate a version number into this instance's token.
    pub fn stamp(&self, counter: u64) -> (r: u64)
        ensures
            r == stamp_of(self@.nonce, counter),
    {
        let a = u64_to_le_bytes(self.nonce);
        let b = u64_to_le_bytes(counter);
        fnv1a(a.as_slice()) ^ fnv1a(b.as_slice())
    }

    /// The current version token for `target`, if this provider ever mutated
    /// it.
    pub fn version_of(&self, target: &Target) -> (r: Option<VersionToken>)
        ensures
            r == self@.token_of(target@),
    {
        let display = target.display.as_str();
        if same(display, ".") {
            return None;
        }
        let names = tidy(display);
        let mut base: Vec<u8> = Vec::new();
        let cs = crate::text::chars_of(display);
        if cs.len() > 0 && cs[0] == '/' {
            base.push(47);
            assert(base@ =~= seq![47u8]);
        } else {
            push_range(&mut base, self.root.as_slice(), 0, self.root.len());
            assert(base@ =~= self.root@);
        }
        let path = canonical(base.as_slice(), &names, names.len());
        assert(texts(names@).take(names@.len() as int) =~= texts(names@));
        match self.versions.get(&path) {
            Some(counter) => Some(VersionToken(self.stamp(*counter))),
            None => None,
        }
    }

    /// Begin resolving a spelling.
    pub fn resolve(&self, path: &str) -> (r: (Option<Resolution>, ResolveAction))
        ensures
            r.1@ == resolve_start(self@.root, path@),
            r.0 matches Some(walk) ==> walk@.wf() && walk@.root == self@.root && walk@.at == 0
                && crate::local_fs::path::normal_names(path@) == Some(walk@.names),
            r.0 is None ==> r.1@ is Done,
    {
        Resolution::begin(self.root.as_slice(), path)
    }

    /// Begin opening a target: the file itself, or with `to_parent` only the
    /// directory that holds it.
    pub fn open(&self, target: &Target, missing: Missing, to_parent: bool) -> (r: (
        Option<OpenWalk>,
        WalkAction,
    ))
        ensures
            r.1@ == open_start(self@.root, target@, missing, to_parent),
            r.0 matches Some(walk) ==> walk@.wf() && walk@.root == self@.root && walk@.target
                == target@,
            r.0 is None ==> r.1@ is Refused,
    {
        OpenWalk::begin(self.root.as_slice(), target, missing, to_parent)
    }

    /// Whether this instance handed out the token.
    fn issued(&self, token: VersionToken) -> (r: bool)
        ensures
            r == self@.knows(token),
    {
        for i in 0..self.issued.len()
            invariant
                forall|k: int|
                    0 <= k < i ==> stamp_of(self@.nonce, #[trigger] self@.issued[k]) != token.0,
        {
            if self.stamp(self.issued[i]) == token.0 {
                assert(stamp_of(self@.nonce, self@.issued[i as int]) == token.0);
                return true;
            }
        }
        false
    }

    /// The guarded-freshness prelude shared by write and edit.
    pub fn check_guard(&self, path: &Vec<u8>, guard: Option<WriteGuard>, exists: bool) -> (r: Result<
        (),
        SeamError,
    >)
        ensures
            outcome(r) == self@.guard_verdict(path@, guard, exists),
    {
        match guard {
            None => Ok(()),
            Some(WriteGuard::CreateIfAbsent) => {
                if exists {
                    Err(
                        SeamError::with(
                            ErrorCode::StaleVersion,
                            cat("target already exists: ", utf8_lossy(path.as_slice()).as_str()),
                        ),
                    )
                } else {
                    Ok(())
                }
            },
            Some(WriteGuard::ReplaceAtVersion(seen)) => match self.versions.get(path) {
                None => Err(
                    SeamError::with(
                        ErrorCode::NotObserved,
                        cat3(
                            "no version recorded for ",
                            utf8_lossy(path.as_slice()).as_str(),
                            "; the guard token cannot be from this backend",
                        ),
                    ),
                ),
                Some(current) => {
                    if self.stamp(*current) == seen.0 {
                        Ok(())
                    } else if self.issued(seen) {
                        Err(
                            SeamError::with(
                                ErrorCode::StaleVersion,
                                cat(
                                    "target moved past the presented version: ",
                                    utf8_lossy(path.as_slice()).as_str(),
                                ),
                            ),
                        )
                    } else {
                        Err(
                            SeamError::with(
                                ErrorCode::NotObserved,
                                cat3(
                                    "the presented version was never issued for ",
                                    utf8_lossy(path.as_slice()).as_str(),
                                    "; the guard token cannot be from this backend",
                                ),
                            ),
                        )
                    }
                },
            },
        }
    }

    fn guard_step(&self, path: &Vec<u8>, guard: Option<WriteGuard>, exists: bool) -> (r: MutateStep)
        ensures
            r@ == step_of(self@.guard_verdict(path@, guard, exists)),
    {
        match self.check_guard(path, guard, exists) {
            Ok(_) => MutateStep::Proceed,
            Err(e) => MutateStep::Refused(e),
        }
    }

    // ---- write ------------------------------------------------------------

    /// The write target is open (or missing). A directory is never written;
    /// a mounted policy is asked before the guard is checked.
    pub fn write_opened(
        &self,
        target: &Target,
        kind: Option<FileKind>,
        path: &Vec<u8>,
        guard: Option<WriteGuard>,
    ) -> (r: MutateStep)
        ensures
            r@ == (if kind == Some(FileKind::Directory) {
                MutateStepView::Refused(
                    failure(
                        ErrorCode::NotADirectory,
                        "write target is a directory: "@ + target@.display,
                    ),
                )
            } else {
                match self@.actor {
                    Some(actor) => MutateStepView::AskWrite(
                        IntentEventView { actor, target: target@ },
                    ),
                    None => step_of(self@.guard_verdict(path@, guard, kind is Some)),
                }
            }),
    {
        if let Some(FileKind::Directory) = kind {
            return MutateStep::Refused(
                SeamError::with(
                    ErrorCode::NotADirectory,
                    cat("write target is a directory: ", target.display.as_str()),
                ),
            );
        }
        match &self.actor {
            Some(actor) => MutateStep::AskWrite(
                FsWriteIntent { actor: actor.clone(), target: target.copy() },
            ),
            None => self.guard_step(path, guard, kind.is_some()),
        }
    }

    /// The policy answered the write intent.
    pub fn decide_write(
        &self,
        intent: Intent,
        path: &Vec<u8>,
        guard: Option<WriteGuard>,
        exists: bool,
    ) -> (r: MutateStep)
        ensures
            r@ == (match intent@ {
                Some(reason) => MutateStepView::Refused(
                    failure(ErrorCode::SandboxDenied, "write refused by policy: "@ + reason),
                ),
                None => step_of(self@.guard_verdict(path@, guard, exists)),
            }),
    {
        match intent {
            Intent::Deny(reason) => MutateStep::Refused(
                SeamError::with(
                    ErrorCode::SandboxDenied,
                    cat("write refused by policy: ", reason.as_str()),
                ),
            ),
            Intent::Allow => self.guard_step(path, guard, exists),
        }
    }

    // ---- edit -------------------------------------------------------------

    /// The edit target is open (or missing).
    pub fn edit_opened(
        &self,
        target: &Target,
        exists: bool,
        path: &Vec<u8>,
        guard: Option<WriteGuard>,
    ) -> (r: MutateStep)
        ensures
            r@ == (if !exists {
                MutateStepView::Refused(
                    failure(ErrorCode::NotFound, "no such file: "@ + target@.display),
                )
            } else {
                match self@.actor {
                    Some(actor) => MutateStepView::AskEdit(
                        IntentEventView { actor, target: target@ },
                    ),
                    None => step_of(self@.guard_verdict(path@, guard, true)),
                }
            }),
    {
        if !exists {
            return MutateStep::Refused(
                SeamError::with(
                    ErrorCode::NotFound,
                    cat("no such file: ", target.display.as_str()),
                ),
            );
        }
        match &self.actor {
            Some(actor) => MutateStep::AskEdit(
                FsEditIntent { actor: actor.clone(), target: target.copy() },
            ),
            None => self.guard_step(path, guard, true),
        }
    }

    /// The policy answered the edit intent.
    pub fn decide_edit(&self, intent: Intent, path: &Vec<u8>, guard: Option<WriteGuard>) -> (r:
        MutateStep)
        ensures
            r@ == (match intent@ {
                Some(reason) => MutateStepView::Refused(
                    failure(ErrorCode::SandboxDenied, "edit refused by policy: "@ + reason),
                ),
                None => step_of(self@.guard_verdict(path@, guard, true)),
            }),
    {
        match intent {
            Intent::Deny(reason) => MutateStep::Refused(
                SeamError::with(
                    ErrorCode::SandboxDenied,
                    cat("edit refused by policy: ", reason.as_str()),
                ),
            ),
            Intent::Allow => self.guard_step(path, guard, true),
        }
    }

    /// The new contents an edit makes of the current bytes.
    pub fn edit(target: &Target, bytes: &[u8], edit: &Edit) -> (r: Result<Vec<u8>, SeamError>)
        ensures
            outcome(r) == edit_result(target@.display, bytes@, edit.find@, edit.replace@),
    {
        let scan = utf8_scan(bytes);
        proof {
            lemma_text_prefix(bytes@);
        }
        if scan.valid_up_to != bytes.len() {
            return Err(
                SeamError::with(
                    ErrorCode::NotText,
                    cat("not valid UTF-8 text: ", target.display.as_str()),
                ),
            );
        }
        let matches: usize = count_matches(bytes, edit.find.as_slice());
        if matches == 0 {
            return Err(SeamError::new(ErrorCode::EditNotFound, "edit pattern not found"));
        }
        if matches == 1 {
            proof {
                lemma_one_match(bytes@, edit.find@);
            }
            match find(bytes, edit.find.as_slice()) {
                Some(at) => {
                    proof {
                        lemma_chosen_match(bytes@, edit.find@, at as int);
                    }
                    let next = splice(bytes, at, edit.find.as_slice(), edit.replace.as_slice());
                    return Ok(next);
                },
                None => {
                    return Err(SeamError::new(ErrorCode::EditNotFound, "edit pattern not found"));
                },
            }
        }
        Err(
            SeamError::with(
                ErrorCode::AmbiguousEdit,
                cat3(
                    "edit pattern matched ",
                    decimal(matches as u64).as_str(),
                    " times; exactly one match is required",
                ),
            ),
        )
    }

    // ---- commit -----------------------------------------------------------

    /// Plan one atomic mutation of the entry `name`: spend a version number,
    /// and name the unique temporary sibling. `thread` is the caller's thread.
    pub fn commit_atomic(&mut self, name: &str, thread: u64) -> (r: CommitPlan)
        requires
            old(self).wf(),
        ensures
            final(self).wf(),
            final(self)@ == old(self)@.begun(),
            r.counter == old(self)@.next_version,
            r.token.0 == stamp_of(old(self)@.nonce, r.counter),
            r.tmp_name@ == tmp_name_of(name@, r.token.0, thread, r.counter),
    {
        let counter: u64 = self.next_version;
        self.next_version = counter.wrapping_add(1);
        let token = self.stamp(counter);
        let head = cat3(".", name, ".harnless-tmp-");
        let tmp_name = cat3(head.as_str(), cat(hex(token ^ thread).as_str(), "-").as_str(), hex(counter).as_str());
        assert(tmp_name@ =~= tmp_name_of(name@, token, thread, counter));
        CommitPlan { counter, token: VersionToken(token), tmp_name }
    }

    /// The rename landed, or did not. Only a rename that landed advances the
    /// version.
    pub fn committed(&mut self, plan: CommitPlan, path: Vec<u8>, landed: Result<(), IoFault>) -> (r:
        Result<MutationResult, SeamError>)
        requires
            old(self).wf(),
        ensures
            final(self).wf(),
            match landed {
                Ok(_) => r == Ok::<_, SeamError>(MutationResult { version: plan.token })
                    && final(self)@ == old(self)@.landed(path@, plan.counter),
                Err(f) => r matches Err(e) && e@ == io_failure(f@) && final(self)@ == old(self)@,
            },
    {
        match landed {
            Ok(_) => {
                proof {
                    lemma_valid_kept(self@, path@, plan.counter);
                }
                self.versions.insert(path, plan.counter);
                self.issued.push(plan.counter);
                Ok(MutationResult { version: plan.token })
            },
            Err(f) => Err(io_error(f)),
        }
    }

    // ---- read -------------------------------------------------------------

    /// The read target is open (or missing), and its kind was asked for.
    pub fn read_opened(target: &Target, kind: Option<Result<FileKind, IoFault>>) -> (r: Result<
        (),
        SeamError,
    >)
        ensures
            outcome(r) == (match kind {
                None => Err(failure(ErrorCode::NotFound, "no such file: "@ + target@.display)),
                Some(Err(f)) => Err(io_failure(f@)),
                Some(Ok(FileKind::Regular)) => Ok(()),
                Some(Ok(_)) => Err(
                    failure(
                        ErrorCode::NotARegularFile,
                        "not a regular file: "@ + target@.display,
                    ),
                ),
            }),
    {
        match kind {
            None => Err(
                SeamError::with(
                    ErrorCode::NotFound,
                    cat("no such file: ", target.display.as_str()),
                ),
            ),
            Some(Err(f)) => Err(io_error(f)),
            Some(Ok(FileKind::Regular)) => Ok(()),
            Some(Ok(_)) => Err(
                SeamError::with(
                    ErrorCode::NotARegularFile,
                    cat("not a regular file: ", target.display.as_str()),
                ),
            ),
        }
    }

    /// The bounded read is over: the window it returns, and the observation it
    /// leaves when a policy is mounted.
    pub fn read(&self, target: &Target, window: Window) -> (r: Result<
        (ReadWindow, Option<FsObserved>),
        SeamError,
    >)
        requires
            window.wf(),
            window.seen().len() <= u64::MAX,
        ensures
            match (r, read_result(target@.display, window.seen(), window.cap())) {
                (Ok((got, observed)), Ok(owed)) => {
                    &&& got@ == owed
                    &&& match (observed, self@.actor) {
                        (Some(o), Some(actor)) => o@ == (FsObservedView {
                            actor,
                            target: target@,
                            total_lines: owed.total_lines,
                            truncated: owed.truncated,
                        }),
                        (None, None) => true,
                        _ => false,
                    }
                },
                (Err(e), Err(owed)) => e@ == owed,
                _ => false,
            },
    {
        let (bytes, total_lines, truncated) = window.finish();
        let scan = utf8_scan(bytes.as_slice());
        proof {
            lemma_text_prefix(bytes@);
        }
        let mut contents = bytes;
        if scan.valid_up_to != contents.len() {
            if truncated && scan.cut {
                contents.truncate(scan.valid_up_to);
            } else {
                return Err(
                    SeamError::with(
                        ErrorCode::NotText,
                        cat("not valid UTF-8 text: ", target.display.as_str()),
                    ),
                );
            }
        }
        let observed = match &self.actor {
            Some(actor) => Some(
                FsObserved { actor: actor.clone(), target: target.copy(), total_lines, truncated },
            ),
            None => None,
        };
        Ok((ReadWindow { contents, total_lines, truncated }, observed))
    }

    // ---- list -------------------------------------------------------------

    /// The listing target is open (or missing), and its kind was asked for.
    pub fn list_opened(target: &Target, kind: Option<Result<FileKind, IoFault>>) -> (r: Result<
        (),
        SeamError,
    >)
        ensures
            outcome(r) == (match kind {
                None => Err(failure(ErrorCode::NotFound, "no such directory: "@ + target@.display)),
                Some(Err(f)) => Err(io_failure(f@)),
                Some(Ok(FileKind::Directory)) => Ok(()),
                Some(Ok(_)) => Err(
                    failure(ErrorCode::NotADirectory, "not a directory: "@ + target@.display),
                ),
            }),
    {
        match kind {
            None => Err(
                SeamError::with(
                    ErrorCode::NotFound,
                    cat("no such directory: ", target.display.as_str()),
                ),
            ),
            Some(Err(f)) => Err(io_error(f)),
            Some(Ok(FileKind::Directory)) => Ok(()),
            Some(Ok(_)) => Err(
                SeamError::with(
                    ErrorCode::NotADirectory,
                    cat("not a directory: ", target.display.as_str()),
                ),
            ),
        }
    }

    /// A deterministic listing: sorted by name, never in directory order.
    pub fn list(entries: Vec<Entry>) -> (r: Vec<Entry>)
        ensures
            entries_view(r@) == by_name(entries_view(entries@)),
    {
        let mut todo = entries;
        let mut sorted: Vec<Entry> = Vec::new();
        let ghost all = entries_view(entries@);
        let mut done: usize = 0;
        let total: usize = todo.len();
        assert(entries_view(sorted@) =~= by_name(all.take(0)));
        assert(todo@ =~= entries@.skip(0));
        while done < total
            invariant
                done <= total,
                total == entries@.len(),
                all == entries_view(entries@),
                todo@ == entries@.skip(done as int),
                entries_view(sorted@) == by_name(all.take(done as int)),
            decreases total - done,
        {
            let entry = todo.remove(0);
            assert(entry == entries@[done as int]);
            assert(todo@ =~= entries@.skip(done + 1));
            let ghost before = sorted@;
            let ghost e = entry@;
            let mut at: usize = sorted.len();
            assert(entries_view(before).skip(at as int) =~= Seq::<EntryView>::empty());
            assert(entries_view(before).take(at as int) =~= entries_view(before));
            assert(listed_with(entries_view(before), e) =~= listed_with(
                entries_view(before).take(at as int),
                e,
            ) + entries_view(before).skip(at as int));
            while at > 0 && less(entry.name.as_str(), sorted[at - 1].name.as_str())
                invariant
                    at <= sorted@.len(),
                    sorted@ == before,
                    e == entry@,
                    listed_with(entries_view(before), e) == listed_with(
                        entries_view(before).take(at as int),
                        e,
                    ) + entries_view(before).skip(at as int),
                decreases at,
            {
                let ghost head = entries_view(before).take(at as int);
                assert(head.last() == before[at - 1]@);
                assert(head.drop_last() =~= entries_view(before).take(at - 1));
                assert(entries_view(before).skip(at - 1) =~= seq![head.last()]
                    + entries_view(before).skip(at as int));
                assert(listed_with(head, e) + entries_view(before).skip(at as int) =~= listed_with(
                    head.drop_last(),
                    e,
                ) + entries_view(before).skip(at - 1));
                at = at - 1;
            }
            sorted.insert(at, entry);
            assert(entries_view(sorted@) =~= entries_view(before).take(at as int).push(e)
                + entries_view(before).skip(at as int));
            assert(all.take(done + 1).drop_last() =~= all.take(done as int));
            done = done + 1;
        }
        assert(all.take(all.len() as int) =~= all);
        sorted
    }
}

/// Beginning or landing a mutation keeps every recorded version among those
/// handed out.
pub proof fn lemma_valid_kept(fs: LocalFsView, path: Seq<u8>, counter: u64)
    requires
        fs.valid(),
    ensures
        fs.begun().valid(),
        fs.landed(path, counter).valid(),
{
    let after = fs.landed(path, counter);
    assert forall|p: Seq<u8>| after.versions.contains_key(p) implies after.issued.contains(
        #[trigger] after.versions[p],
    ) by {
        if p == path {
            assert(after.issued[fs.issued.len() as int] == counter);
        } else {
            let v = fs.versions[p];
            let i = choose|i: int| 0 <= i < fs.issued.len() && fs.issued[i] == v;
            assert(after.issued[i] == v);
        }
    }
}

/// With exactly one match there is a first one.
proof fn lemma_one_match(bytes: Seq<u8>, find: Seq<u8>)
    requires
        match_count(bytes, find) == 1,
    ensures
        find.len() > 0,
        crate::text::occurs(bytes, find),
{
}

/// The first match is the one the specification chooses.
proof fn lemma_chosen_match(bytes: Seq<u8>, find: Seq<u8>, at: int)
    requires
        first_match(bytes, find, at),
    ensures
        at == choose|k: int| first_match(bytes, find, k),
{
    let k = choose|k: int| first_match(bytes, find, k);
    if k < at {
        assert(!crate::text::occurs_at(bytes, find, k));
    } else if at < k {
        assert(!crate::text::occurs_at(bytes, find, at));
    }
}

} // verus!
