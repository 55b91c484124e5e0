//! What the kernel reports, and the codes it maps to.

use vstd::prelude::*;

use crate::seam::error::{failure, ErrorCode, SeamError, SeamErrorView};

verus! {

/// The kernel failures the provider tells apart.
#[derive(Debug, Clone, Copy, PartialEq, Eq, Structural)]
pub enum FaultClass {
    /// `ENOENT`: nothing by that name.
    NotFound,
    /// `ENOTDIR`: a directory was asked for and something else is there.
    NotADirectory,
    /// `ELOOP`: a symlink stood where links are refused.
    Loop,
    /// `EACCES` or `EPERM`: the process may not.
    PermissionDenied,
    /// Everything else.
    Other,
}

/// One failed system call.
#[derive(Debug, Clone)]
pub struct IoFault {
    pub class: FaultClass,
    pub message: String,
}

/// What an [`IoFault`] says.
pub struct IoFaultView {
    pub class: FaultClass,
    pub message: Seq<char>,
}

impl View for IoFault {
    type V = IoFaultView;

    open spec fn view(&self) -> IoFaultView {
        IoFaultView { class: self.class, message: self.message@ }
    }
}

/// The code an IO failure maps to: the kernel's kinds, mapped faithfully.
pub open spec fn io_failure(f: IoFaultView) -> SeamErrorView {
    failure(
        match f.class {
            FaultClass::NotFound => ErrorCode::NotFound,
            FaultClass::PermissionDenied => ErrorCode::PermissionDenied,
            _ => ErrorCode::IoError,
        },
        f.message,
    )
}

/// The code a failed open inside the workspace maps to: a refused symlink is
/// an escape attempt, everything else is what the kernel said.
pub open spec fn open_failure(f: IoFaultView) -> SeamErrorView {
    if f.class == FaultClass::Loop {
        failure(ErrorCode::SandboxDenied, "symlink hop refused inside the workspace"@)
    } else {
        io_failure(f)
    }
}

/// Map an IO error onto the taxonomy. Sandbox denial is never produced here:
/// that code belongs to the policy layer.
pub fn io_error(f: IoFault) -> (r: SeamError)
    ensures
        r@ == io_failure(f@),
{
    let code = match f.class {
        FaultClass::NotFound => ErrorCode::NotFound,
        FaultClass::PermissionDenied => ErrorCode::PermissionDenied,
        _ => ErrorCode::IoError,
    };
    SeamError::with(code, f.message)
}

/// Map a failed open inside the workspace onto the taxonomy.
pub fn openat_error(f: IoFault) -> (r: SeamError)
    ensures
        r@ == open_failure(f@),
{
    if f.class == FaultClass::Loop {
        SeamError::new(ErrorCode::SandboxDenied, "symlink hop refused inside the workspace")
    } else {
        io_error(f)
    }
}

/// The result of one system call.
pub open spec fn call_view(r: Result<(), IoFault>) -> Result<(), IoFaultView> {
    match r {
        Ok(_) => Ok(()),
        Err(f) => Err(f@),
    }
}

/// Kernel denial and sandbox denial stay distinct: no IO failure maps to the
/// policy code.
pub proof fn law_kernel_denial_is_never_sandbox_denial(f: IoFaultView)
    ensures
        io_failure(f).code != ErrorCode::SandboxDenied,
        open_failure(f).code == ErrorCode::SandboxDenied <==> f.class == FaultClass::Loop,
        f.class == FaultClass::PermissionDenied ==> open_failure(f).code
            == ErrorCode::PermissionDenied,
{
}

} // verus!
