//! The filesystem seam: opaque targets, version tokens, guards, and the
//! provider trait.

use vstd::prelude::*;

use crate::seam::error::SeamError;

verus! {

/// The opaque identity of a file.
#[derive(Debug, Clone, Copy, PartialEq, Eq, Structural)]
pub struct TargetKey(pub u64);

/// A backend-issued freshness token.
#[derive(Debug, Clone, Copy, PartialEq, Eq, Structural)]
pub struct VersionToken(pub u64);

/// A resolved file: its identity, and a name for people.
#[derive(Debug, Clone)]
pub struct Target {
    pub key: TargetKey,
    pub display: String,
}

/// What a [`Target`] says.
pub struct TargetView {
    pub key: TargetKey,
    pub display: Seq<char>,
}

impl View for Target {
    type V = TargetView;

    open spec fn view(&self) -> TargetView {
        TargetView { key: self.key, display: self.display@ }
    }
}

impl Target {
    /// A copy of this target.
    pub fn copy(&self) -> (r: Target)
        ensures
            r == *self,
    {
        Target { key: self.key, display: self.display.clone() }
    }
}

/// What a guarded mutation asserts about the file before it runs.
#[derive(Debug, Clone, Copy, PartialEq, Eq, Structural)]
pub enum WriteGuard {
    /// The file must not exist.
    CreateIfAbsent,
    /// The file must still be at this version.
    ReplaceAtVersion(VersionToken),
}

/// One literal replacement.
#[derive(Debug, Clone)]
pub struct Edit {
    pub find: Vec<u8>,
    pub replace: Vec<u8>,
}

/// One directory entry.
#[derive(Debug, Clone)]
pub struct Entry {
    pub name: String,
    pub is_dir: bool,
}

/// What an [`Entry`] says.
pub struct EntryView {
    pub name: Seq<char>,
    pub is_dir: bool,
}

impl View for Entry {
    type V = EntryView;

    open spec fn view(&self) -> EntryView {
        EntryView { name: self.name@, is_dir: self.is_dir }
    }
}

/// The values of a listing.
pub open spec fn entries_view(v: Seq<Entry>) -> Seq<EntryView> {
    v.map_values(|e: Entry| e@)
}

/// A bounded read: the bytes kept, the line total of the whole file, and
/// whether the cap cut anything.
#[derive(Debug, Clone)]
pub struct ReadWindow {
    pub contents: Vec<u8>,
    pub total_lines: u64,
    pub truncated: bool,
}

/// What a [`ReadWindow`] says.
pub struct ReadWindowView {
    pub contents: Seq<u8>,
    pub total_lines: nat,
    pub truncated: bool,
}

impl View for ReadWindow {
    type V = ReadWindowView;

    open spec fn view(&self) -> ReadWindowView {
        ReadWindowView {
            contents: self.contents@,
            total_lines: self.total_lines as nat,
            truncated: self.truncated,
        }
    }
}

/// The result of a mutation: the version the file is now at.
#[derive(Debug, Clone, Copy, PartialEq, Eq, Structural)]
pub struct MutationResult {
    pub version: VersionToken,
}

/// A filesystem provider.
pub trait FileSystem {
    /// Name a file.
    fn resolve(&self, path: &str) -> Result<Target, SeamError>;

    /// Read at most `max_bytes` bytes of a file.
    fn read(&self, target: &Target, max_bytes: usize) -> Result<ReadWindow, SeamError>;

    /// Replace a file's contents.
    fn write(&self, target: &Target, contents: &[u8], guard: Option<WriteGuard>) -> Result<
        MutationResult,
        SeamError,
    >;

    /// Replace the one occurrence of a byte string in a file.
    fn edit(&self, target: &Target, edit: &Edit, guard: Option<WriteGuard>) -> Result<
        MutationResult,
        SeamError,
    >;

    /// List a directory.
    fn list(&self, target: &Target) -> Result<Vec<Entry>, SeamError>;
}

} // verus!
