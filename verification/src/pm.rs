use vstd::prelude::*;
use vstd::string::*;
use crate::string_map::{compare_keys, KeyOrder};

verus! {

/// The program that is run for pnpm.
pub fn pnpm(windows: bool) -> (program: String)
    ensures
        program@ == program_of("pnpm"@, windows),
{
    if windows {
        String::from_str("pnpm.CMD")
    } else {
        String::from_str("pnpm")
    }
}

/// The program that is run for yarn.
pub fn yarn(windows: bool) -> (program: String)
    ensures
        windows ==> program@ == "yarn.CMD"@,
        !windows ==> program@ == "yarn"@,
{
    if windows {
        String::from_str("yarn.CMD")
    } else {
        String::from_str("yarn")
    }
}

/// The program that is run for npm.
pub fn npm(windows: bool) -> (program: String)
    ensures
        windows ==> program@ == "npm.CMD"@,
        !windows ==> program@ == "npm"@,
{
    if windows {
        String::from_str("npm.CMD")
    } else {
        String::from_str("npm")
    }
}

/// Whether `pm` names a package manager that can be run.
pub open spec fn known_manager(pm: Seq<char>) -> bool {
    pm == "pnpm"@ || pm == "yarn"@ || pm == "npm"@
}

/// The program that stands for a package manager on the given platform.
pub open spec fn program_of(pm: Seq<char>, windows: bool) -> Seq<char> {
    if pm == "pnpm"@ {
        if windows {
            "pnpm.CMD"@
        } else {
            "pnpm"@
        }
    } else if pm == "yarn"@ {
        if windows {
            "yarn.CMD"@
        } else {
            "yarn"@
        }
    } else {
        if windows {
            "npm.CMD"@
        } else {
            "npm"@
        }
    }
}

/// Executable form of [`known_manager`].
pub fn is_known_manager(pm: &str) -> (known: bool)
    ensures
        known == known_manager(pm@),
{
    compare_keys(pm, "pnpm") == KeyOrder::Same || compare_keys(pm, "yarn") == KeyOrder::Same
        || compare_keys(pm, "npm") == KeyOrder::Same
}

/// The process that installs the dependencies of a project.
#[derive(Debug)]
pub struct InstallCommand {
    pub program: String,
    pub argument: String,
    pub working_directory: String,
}

/// The command that installs the dependencies of the project at `path` with
/// the package manager `pm`: the manager's program, run in the project's
/// directory with the one argument `install`.
pub fn install_dependencies(pm: &str, path: String, windows: bool) -> (command: InstallCommand)
    requires
        known_manager(pm@),
    ensures
        command.program@ == program_of(pm@, windows),
        command.argument@ == "install"@,
        command.working_directory == path,
{
    let program = if compare_keys(pm, "pnpm") == KeyOrder::Same {
        pnpm(windows)
    } else if compare_keys(pm, "yarn") == KeyOrder::Same {
        yarn(windows)
    } else {
        npm(windows)
    };
    InstallCommand { program, argument: String::from_str("install"), working_directory: path }
}

/// Whether the installation succeeded, from how its process ended: its exit
/// code where it ran to an end, nothing where it could not be run.
pub fn install_succeeded(exit_code: Option<i32>) -> (success: bool)
    ensures
        success == (exit_code == Some(0i32)),
{
    match exit_code {
        Some(code) => code == 0,
        None => false,
    }
}

} // verus!
