//! A store of documents in files: what is read, and what is made of it.

use vstd::prelude::*;

use crate::config::decode::{bundle_of, profile_of};
use crate::config::doc::{decoded, parsed, BundleDoc, ProfileSpec};
use crate::config::error::{fault, ConfigError, ConfigErrorView, Stage};
use crate::text::{
    cat, cat3, cat5, chars_of, debug_text, ends_in, ends_with, in_order, owned, quoted, same, sort,
    text_of, texts,
};

verus! {

/// A path and a name below it. An absolute name stands for itself.
pub open spec fn below(dir: Seq<char>, name: Seq<char>) -> Seq<char> {
    if dir.len() == 0 || (name.len() > 0 && name[0] == '/') {
        name
    } else if dir.last() == '/' {
        dir + name
    } else {
        dir + "/"@ + name
    }
}

fn path_below(dir: &str, name: &str) -> (r: String)
    ensures
        r@ == below(dir@, name@),
{
    let d = chars_of(dir);
    let n = chars_of(name);
    if d.len() == 0 || (n.len() > 0 && n[0] == '/') {
        owned(name)
    } else if d[d.len() - 1] == '/' {
        cat(dir, name)
    } else {
        cat3(dir, "/", name)
    }
}

/// What reading one stored document came to.
pub enum Fetched {
    /// There is no such file.
    Absent,
    /// The text of the file.
    Text(String),
    /// The file could not be read, and why.
    Failed(String),
}

/// What a [`Fetched`] says.
pub enum FetchedView {
    Absent,
    Text(Seq<char>),
    Failed(Seq<char>),
}

impl View for Fetched {
    type V = FetchedView;

    open spec fn view(&self) -> FetchedView {
        match self {
            Fetched::Absent => FetchedView::Absent,
            Fetched::Text(s) => FetchedView::Text(s@),
            Fetched::Failed(e) => FetchedView::Failed(e@),
        }
    }
}

/// A store of files: `<dir>/profiles/<name>.yml` and `<dir>/bundles/<name>.yml`.
#[derive(Debug, Clone, PartialEq, Eq)]
pub struct DirStore {
    /// The config directory holding `profiles/` and `bundles/`.
    pub dir: String,
}

/// The `io-error` failure for a document that could not be read.
pub open spec fn unreadable(
    kind: Seq<char>,
    name: Seq<char>,
    path: Seq<char>,
    why: Seq<char>,
) -> ConfigErrorView {
    ConfigErrorView {
        stage: Stage::Compose,
        code: "io-error"@,
        plugin: name,
        message: "cannot read "@ + kind + " "@ + path + ": "@ + why,
    }
}

/// The failure of a document that does not name the file it lives in.
pub open spec fn misnamed(
    code: Seq<char>,
    kind: Seq<char>,
    file: Seq<char>,
    name: Seq<char>,
) -> ConfigErrorView {
    fault(
        Stage::Compose,
        code,
        kind + " file "@ + debug_text(file) + " declares name "@ + debug_text(name)
            + "; a document's name must match the file it lives in"@,
    )
}

fn unreadable_error(kind: &str, name: &str, path: &str, why: &str) -> (r: ConfigError)
    ensures
        r@ == unreadable(kind@, name@, path@, why@),
{
    let head = cat5("cannot read ", kind, " ", path, ": ");
    ConfigError::for_plugin(Stage::Compose, "io-error", owned(name), cat(head.as_str(), why))
}

fn misnamed_error(code: &'static str, kind: &str, file: &str, name: &str) -> (r: ConfigError)
    ensures
        r@ == misnamed(code@, kind@, file@, name@),
{
    let f = quoted(file);
    let n = quoted(name);
    let head = cat5(kind, " file ", f.as_str(), " declares name ", n.as_str());
    ConfigError::new(
        Stage::Compose,
        code,
        cat(head.as_str(), "; a document's name must match the file it lives in"),
    )
}

/// The name a stored document's file stands for: what is in front of `.yml`.
pub open spec fn stem(file: Seq<char>) -> Option<Seq<char>> {
    if file.len() > 4 && ends_in(file, ".yml"@) {
        Some(file.take(file.len() - 4))
    } else {
        None
    }
}

/// The names the files of a directory stand for.
pub open spec fn stems(files: Seq<Seq<char>>) -> Seq<Seq<char>>
    decreases files.len(),
{
    if files.len() == 0 {
        Seq::empty()
    } else {
        match stem(files.last()) {
            Some(s) => stems(files.drop_last()).push(s),
            None => stems(files.drop_last()),
        }
    }
}

impl DirStore {
    /// A store rooted at `dir`.
    pub fn new(dir: String) -> (r: DirStore)
        ensures
            r.dir == dir,
    {
        DirStore { dir }
    }

    /// The directory profiles live in.
    pub fn profiles_dir(&self) -> (r: String)
        ensures
            r@ == below(self.dir@, "profiles"@),
    {
        path_below(self.dir.as_str(), "profiles")
    }

    /// The directory bundles live in.
    pub fn bundles_dir(&self) -> (r: String)
        ensures
            r@ == below(self.dir@, "bundles"@),
    {
        path_below(self.dir.as_str(), "bundles")
    }

    /// The file a profile lives in.
    pub fn profile_file(&self, name: &str) -> (r: String)
        ensures
            r@ == below(below(self.dir@, "profiles"@), name@ + ".yml"@),
    {
        let dir = self.profiles_dir();
        let file = cat(name, ".yml");
        path_below(dir.as_str(), file.as_str())
    }

    /// The file a bundle lives in.
    pub fn bundle_file(&self, name: &str) -> (r: String)
        ensures
            r@ == below(below(self.dir@, "bundles"@), name@ + ".yml"@),
    {
        let dir = self.bundles_dir();
        let file = cat(name, ".yml");
        path_below(dir.as_str(), file.as_str())
    }

    /// The profile that was fetched from its file. A document's name must match
    /// the file it lives in.
    pub fn profile(&self, name: &str, fetched: Fetched) -> (r: Result<
        Option<ProfileSpec>,
        ConfigError,
    >)
        ensures
            match fetched@ {
                FetchedView::Absent => r matches Ok(None),
                FetchedView::Failed(e) => r matches Err(x) && x@ == unreadable(
                    "profile"@,
                    name@,
                    below(below(self.dir@, "profiles"@), name@ + ".yml"@),
                    e,
                ),
                FetchedView::Text(text) => match (
                    decoded(profile_of(parsed(text)), "bad-profile"@, "invalid profile document: "@),
                    r,
                ) {
                    (Ok(p), Ok(Some(doc))) => doc@ == p && p.name == name@,
                    (Ok(p), Err(x)) => p.name != name@ && x@ == misnamed(
                        "bad-profile"@,
                        "profile"@,
                        name@,
                        p.name,
                    ),
                    (Err(e), Err(x)) => x@ == e,
                    _ => false,
                },
            },
    {
        match fetched {
            Fetched::Absent => Ok(None),
            Fetched::Failed(e) => {
                let path = self.profile_file(name);
                Err(unreadable_error("profile", name, path.as_str(), e.as_str()))
            },
            Fetched::Text(text) => match ProfileSpec::load(text.as_str()) {
                Err(e) => Err(e),
                Ok(doc) => {
                    if !same(doc.name.as_str(), name) {
                        return Err(
                            misnamed_error("bad-profile", "profile", name, doc.name.as_str()),
                        );
                    }
                    Ok(Some(doc))
                },
            },
        }
    }

    /// The bundle that was fetched from its file. A document's name must match
    /// the file it lives in.
    pub fn bundle(&self, name: &str, fetched: Fetched) -> (r: Result<Option<BundleDoc>, ConfigError>)
        ensures
            match fetched@ {
                FetchedView::Absent => r matches Ok(None),
                FetchedView::Failed(e) => r matches Err(x) && x@ == unreadable(
                    "bundle"@,
                    name@,
                    below(below(self.dir@, "bundles"@), name@ + ".yml"@),
                    e,
                ),
                FetchedView::Text(text) => match (
                    decoded(bundle_of(parsed(text)), "bad-bundle"@, "invalid bundle document: "@),
                    r,
                ) {
                    (Ok(b), Ok(Some(doc))) => doc@ == b && b.name == name@,
                    (Ok(b), Err(x)) => b.name != name@ && x@ == misnamed(
                        "bad-bundle"@,
                        "bundle"@,
                        name@,
                        b.name,
                    ),
                    (Err(e), Err(x)) => x@ == e,
                    _ => false,
                },
            },
    {
        match fetched {
            Fetched::Absent => Ok(None),
            Fetched::Failed(e) => {
                let path = self.bundle_file(name);
                Err(unreadable_error("bundle", name, path.as_str(), e.as_str()))
            },
            Fetched::Text(text) => match BundleDoc::load(text.as_str()) {
                Err(e) => Err(e),
                Ok(doc) => {
                    if !same(doc.name.as_str(), name) {
                        return Err(
                            misnamed_error("bad-bundle", "bundle", name, doc.name.as_str()),
                        );
                    }
                    Ok(Some(doc))
                },
            },
        }
    }

    /// The names a directory's files stand for, in order.
    pub fn document_names(files: &Vec<String>) -> (r: Vec<String>)
        ensures
            texts(r@) == in_order(stems(texts(files@))),
    {
        let ghost all = texts(files@);
        let mut names: Vec<String> = Vec::new();
        assert(all.take(0) =~= Seq::empty());
        assert(texts(names@) =~= Seq::empty());
        for i in 0..files.len()
            invariant
                all == texts(files@),
                texts(names@) == stems(all.take(i as int)),
        {
            assert(all.take(i + 1).drop_last() =~= all.take(i as int));
            assert(all.take(i + 1).last() == files@[i as int]@);
            let cs = chars_of(files[i].as_str());
            if cs.len() > 4 && ends_with(files[i].as_str(), ".yml") {
                let ghost before = texts(names@);
                let name = text_of(&cs, 0, cs.len() - 4);
                assert(name@ =~= all[i as int].take(all[i as int].len() - 4));
                names.push(name);
                assert(texts(names@) =~= before.push(name@));
            }
        }
        assert(all.take(files@.len() as int) =~= all);
        sort(&names)
    }
}

} // verus!
