//! Machine-routable composition errors.
//!
//! Every composition failure carries a stable [`Stage`] and a stable code that
//! consumers route on. The stage answers which step of booting broke.

use vstd::prelude::*;

use crate::text::{cat3, same};

verus! {

/// The composition stage a failure happened in.
#[derive(Debug, Clone, Copy, PartialEq, Eq, Hash, Structural)]
pub enum Stage {
    /// Resolving the layer set: reading documents, resolving a named profile,
    /// or requiring a bundle.
    Compose,
    /// Expanding `${env:NAME}` and `${home}/path` expressions.
    Substitute,
    /// Parsing or applying a patch layer.
    Patch,
    /// Mounting a composed document.
    Mount,
}

impl Stage {
    /// The stable spelling of a stage.
    pub open spec fn spelling(self) -> Seq<char> {
        match self {
            Stage::Compose => "compose"@,
            Stage::Substitute => "substitute"@,
            Stage::Patch => "patch"@,
            Stage::Mount => "mount"@,
        }
    }

    /// The stable spelling of this stage.
    pub fn as_str(&self) -> (r: &'static str)
        ensures
            r@ == self.spelling(),
    {
        match self {
            Stage::Compose => "compose",
            Stage::Substitute => "substitute",
            Stage::Patch => "patch",
            Stage::Mount => "mount",
        }
    }
}

/// A composition failure.
///
/// `plugin` is the row id the failure names, or empty where the failure is
/// about the document as a whole.
#[derive(Debug, Clone, PartialEq, Eq)]
pub struct ConfigError {
    /// The stage this failure happened in.
    pub stage: Stage,
    /// The stable machine-readable code.
    pub code: &'static str,
    /// The plugin row this failure names, or empty.
    pub plugin: String,
    /// The human-readable message.
    pub message: String,
}

/// What a [`ConfigError`] says.
#[verifier::ext_equal]
pub struct ConfigErrorView {
    pub stage: Stage,
    pub code: Seq<char>,
    pub plugin: Seq<char>,
    pub message: Seq<char>,
}

impl View for ConfigError {
    type V = ConfigErrorView;

    open spec fn view(&self) -> ConfigErrorView {
        ConfigErrorView {
            stage: self.stage,
            code: self.code@,
            plugin: self.plugin@,
            message: self.message@,
        }
    }
}

/// A failure naming no plugin row.
pub open spec fn fault(stage: Stage, code: Seq<char>, message: Seq<char>) -> ConfigErrorView {
    ConfigErrorView { stage, code, plugin: Seq::empty(), message }
}

impl ConfigErrorView {
    /// The one-line rendering: stage, message, and the row where one is named.
    pub open spec fn shown(self) -> Seq<char> {
        let head = self.stage.spelling() + ": "@ + self.message;
        if self.plugin.len() == 0 {
            head
        } else {
            head + " (plugin "@ + self.plugin + ")"@
        }
    }
}

impl ConfigError {
    /// Create a failure naming no plugin row.
    pub fn new(stage: Stage, code: &'static str, message: String) -> (r: ConfigError)
        ensures
            r@ == fault(stage, code@, message@),
    {
        ConfigError { stage, code, plugin: String::new(), message }
    }

    /// Create a failure naming the plugin row that caused it.
    pub fn for_plugin(stage: Stage, code: &'static str, plugin: String, message: String) -> (r:
        ConfigError)
        ensures
            r@ == (ConfigErrorView { stage, code: code@, plugin: plugin@, message: message@ }),
    {
        ConfigError { stage, code, plugin, message }
    }

    /// Whether this failure names plugin row `id`.
    pub fn names_plugin(&self, id: &str) -> (r: bool)
        ensures
            r == (self@.plugin == id@),
    {
        same(self.plugin.as_str(), id)
    }

    /// The one-line rendering.
    pub fn display(&self) -> (r: String)
        ensures
            r@ == self@.shown(),
    {
        let head = cat3(self.stage.as_str(), ": ", self.message.as_str());
        if same(self.plugin.as_str(), "") {
            proof {
                reveal_strlit("");
            }
            head
        } else {
            proof {
                reveal_strlit("");
                if self.plugin@.len() == 0 {
                    assert(self.plugin@ =~= ""@);
                }
            }
            let mut out = cat3(head.as_str(), " (plugin ", self.plugin.as_str());
            out.append(")");
            out
        }
    }
}

/// What an outcome says.
pub open spec fn settled<T: View>(r: Result<T, ConfigError>) -> Result<T::V, ConfigErrorView> {
    match r {
        Ok(v) => Ok(v@),
        Err(e) => Err(e@),
    }
}

} // verus!
