//! Maps the runner names shown to the user onto what the launcher shim reads
//! from `PROTONPATH`, and checks that a named runner is installed.
use vstd::prelude::*;

use crate::paths::{path_exists, Paths};
use crate::text::{append, join_path, owned, same_text};

verus! {

/// Display name of the runner that the shim picks by itself.
pub const UMU_PROTON_LATEST: &'static str = "UMU-Proton Latest";

/// Display name of the latest GE-Proton.
pub const GE_PROTON_LATEST: &'static str = "GE-Proton Latest (default)";

/// Display name of the latest Proton-EM.
pub const PROTON_EM_LATEST: &'static str = "Proton-EM Latest";

/// System-wide directory of compatibility tools.
pub const SYSTEM_COMPAT_TOOLS_DIR: &'static str = "/usr/share/steam/compatibilitytools.d";

/// Where a system package installs Proton-CachyOS.
pub const CACHYOS_SYSTEM_PATH: &'static str = "/usr/share/steam/compatibilitytools.d/Proton-CachyOS";

/// Why a runner cannot be used.
#[derive(Debug)]
pub enum RunnerError {
    NotInstalled { name: String },
    InvalidPath { path: String },
}

impl RunnerError {
    /// The message shown to the user.
    pub fn message(&self) -> (r: String)
        ensures
            self is NotInstalled ==> r@ == "Runner '"@ + self->NotInstalled_name@
                + "' is not installed. Please install it via Proton Manager."@,
            self is InvalidPath ==> r@ == "Invalid path: "@ + self->InvalidPath_path@,
    {
        match self {
            RunnerError::NotInstalled { name } => {
                let mut r = owned("Runner '");
                append(&mut r, name.as_str());
                append(&mut r, "' is not installed. Please install it via Proton Manager.");
                r
            },
            RunnerError::InvalidPath { path } => {
                let mut r = owned("Invalid path: ");
                append(&mut r, path.as_str());
                r
            },
        }
    }
}

/// What a display name resolves to, given whether the system-wide
/// Proton-CachyOS is present. The empty text stands for automatic selection.
pub open spec fn resolved(name: Seq<char>, cachyos_present: bool) -> Seq<char> {
    if name == "UMU-Proton Latest"@ {
        seq![]
    } else if name == "GE-Proton Latest (default)"@ {
        "Proton-GE Latest"@
    } else if name == "Proton-EM Latest"@ {
        "Proton-EM Latest"@
    } else if name == "Proton-CachyOS"@ && cachyos_present {
        "/usr/share/steam/compatibilitytools.d/Proton-CachyOS"@
    } else {
        name
    }
}

/// Whether a resolved runner counts as installed, given what the file system
/// holds: the absolute path itself, or the name under the user's or the
/// system's directory of compatibility tools.
pub open spec fn installed(
    resolved: Seq<char>,
    absolute_exists: bool,
    in_user_dir: bool,
    in_system_dir: bool,
) -> bool {
    if resolved.len() == 0 {
        true
    } else if resolved[0] == '/' {
        absolute_exists
    } else {
        in_user_dir || in_system_dir
    }
}

/// Resolves a display name when it is known whether the system-wide
/// Proton-CachyOS is present.
pub fn resolve_runner_with(name: &str, cachyos_present: bool) -> (r: String)
    ensures
        r@ == resolved(name@, cachyos_present),
{
    if same_text(name, UMU_PROTON_LATEST) {
        String::new()
    } else if same_text(name, GE_PROTON_LATEST) {
        owned("Proton-GE Latest")
    } else if same_text(name, PROTON_EM_LATEST) {
        owned("Proton-EM Latest")
    } else if same_text(name, "Proton-CachyOS") && cachyos_present {
        owned(CACHYOS_SYSTEM_PATH)
    } else {
        owned(name)
    }
}

/// Resolves a display name to the value of `PROTONPATH`. Unknown names are
/// passed through; Proton-CachyOS becomes its system path when installed
/// there. Never fails.
pub fn resolve_runner(name: &str) -> (r: Result<String, RunnerError>)
    ensures
        r is Ok,
        r->Ok_0@ == resolved(name@, false) || r->Ok_0@ == resolved(name@, true),
{
    let present = if same_text(name, "Proton-CachyOS") {
        path_exists(CACHYOS_SYSTEM_PATH)
    } else {
        false
    };
    Ok(resolve_runner_with(name, present))
}

/// Decides whether the runner `name`, resolved to `resolved`, is installed,
/// given what the file system holds.
pub fn check_installed(
    name: &str,
    resolved: &str,
    absolute_exists: bool,
    in_user_dir: bool,
    in_system_dir: bool,
) -> (r: Result<(), RunnerError>)
    ensures
        r is Ok <==> installed(resolved@, absolute_exists, in_user_dir, in_system_dir),
        r is Err ==> r->Err_0 is NotInstalled && r->Err_0->NotInstalled_name@ == name@,
{
    let n = resolved.unicode_len();
    let ok = if n == 0 {
        true
    } else if resolved.get_char(0) == '/' {
        absolute_exists
    } else {
        in_user_dir || in_system_dir
    };
    if ok {
        Ok(())
    } else {
        Err(RunnerError::NotInstalled { name: owned(name) })
    }
}

/// Checks that the runner `name` is installed. Automatic selection is always
/// accepted; an absolute path must exist; any other name must be a directory
/// under the user's or the system's compatibility tools.
pub fn validate_runner(name: &str, paths: &Paths) -> (r: Result<(), RunnerError>)
    ensures
        name@ == "UMU-Proton Latest"@ ==> r is Ok,
        r is Err ==> r->Err_0 is NotInstalled && r->Err_0->NotInstalled_name@ == name@,
{
    let resolved = match resolve_runner(name) {
        Ok(s) => s,
        Err(e) => return Err(e),
    };
    let n = resolved.unicode_len();
    if n == 0 {
        return Ok(());
    }
    let mut absolute_exists = false;
    let mut in_user_dir = false;
    let mut in_system_dir = false;
    if resolved.as_str().get_char(0) == '/' {
        absolute_exists = path_exists(resolved.as_str());
    } else {
        let user_dir = paths.steam_compat_tools_dir();
        let user_path = join_path(user_dir.as_str(), resolved.as_str());
        in_user_dir = path_exists(user_path.as_str());
        if !in_user_dir {
            let system_path = join_path(SYSTEM_COMPAT_TOOLS_DIR, resolved.as_str());
            in_system_dir = path_exists(system_path.as_str());
        }
    }
    check_installed(name, resolved.as_str(), absolute_exists, in_user_dir, in_system_dir)
}

} // verus!
