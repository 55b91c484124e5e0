//! The `fs/*` policy events: two single-slot decision waterfalls and one
//! fire-and-forget observation record. With no policy mounted the provider is
//! bare: every mutation proceeds and nothing is observed.

use vstd::prelude::*;

use crate::seam::fs::{Target, TargetView};

verus! {

/// The decision a write- or edit-intent waterfall returns.
#[derive(Debug, Clone)]
pub enum Intent {
    /// Proceed with the mutation.
    Allow,
    /// Refuse the mutation, for this reason.
    Deny(String),
}

/// What an [`Intent`] says: the reason of a refusal, if it is one.
impl View for Intent {
    type V = Option<Seq<char>>;

    open spec fn view(&self) -> Option<Seq<char>> {
        match *self {
            Intent::Allow => None,
            Intent::Deny(reason) => Some(reason@),
        }
    }
}

/// A write about to run.
#[derive(Debug, Clone)]
pub struct FsWriteIntent {
    /// Opaque actor identity supplied by the emitter.
    pub actor: String,
    /// The resolved target about to be written.
    pub target: Target,
}

/// An edit about to run.
#[derive(Debug, Clone)]
pub struct FsEditIntent {
    /// Opaque actor identity supplied by the emitter.
    pub actor: String,
    /// The resolved target about to be edited.
    pub target: Target,
}

/// What an intent event says: who, and on which target.
pub struct IntentEventView {
    pub actor: Seq<char>,
    pub target: TargetView,
}

impl View for FsWriteIntent {
    type V = IntentEventView;

    open spec fn view(&self) -> IntentEventView {
        IntentEventView { actor: self.actor@, target: self.target@ }
    }
}

impl View for FsEditIntent {
    type V = IntentEventView;

    open spec fn view(&self) -> IntentEventView {
        IntentEventView { actor: self.actor@, target: self.target@ }
    }
}

/// A completed read, fire-and-forget.
#[derive(Debug, Clone)]
pub struct FsObserved {
    /// Opaque actor identity supplied by the emitter.
    pub actor: String,
    /// The target that was read.
    pub target: Target,
    /// Exact line total of the file as read.
    pub total_lines: u64,
    /// Whether the read was truncated at the byte cap.
    pub truncated: bool,
}

/// What an [`FsObserved`] says.
pub struct FsObservedView {
    pub actor: Seq<char>,
    pub target: TargetView,
    pub total_lines: nat,
    pub truncated: bool,
}

impl View for FsObserved {
    type V = FsObservedView;

    open spec fn view(&self) -> FsObservedView {
        FsObservedView {
            actor: self.actor@,
            target: self.target@,
            total_lines: self.total_lines as nat,
            truncated: self.truncated,
        }
    }
}

} // verus!
