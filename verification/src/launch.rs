//! Starting the game's two halves: what the shell's and the sim's entry
//! points answer, and where their registry settings live.

use vstd::prelude::*;

verus! {

/// Why a half of the game could not run.
#[derive(Clone, Copy, Debug, PartialEq, Eq, Structural)]
pub enum LaunchError {
    /// The entry point answered -1: the game's files are incomplete.
    ComponentsMissing,
}

impl LaunchError {
    /// The message shown to the player.
    pub fn message(&self) -> (m: &'static str)
        ensures
            m@ == "REMECH 2 is unable to locate necessary program components."@,
    {
        "REMECH 2 is unable to locate necessary program components."
    }
}

/// The outcome of running the shell's `ShellMain` or the sim's `SimMain`:
/// its result, except -1, which says that the game's files are incomplete.
pub fn entry_result(result: i32) -> (r: Result<i32, LaunchError>)
    ensures
        result == -1 ==> r == Err::<i32, LaunchError>(LaunchError::ComponentsMissing),
        result != -1 ==> r == Ok::<i32, LaunchError>(result),
{
    if result == -1 {
        Err(LaunchError::ComponentsMissing)
    } else {
        Ok(result)
    }
}

/// The registry root `HKEY_LOCAL_MACHINE`.
pub const HKEY_LOCAL_MACHINE: u32 = 0x8000_0002;

/// The registry root `HKEY_CURRENT_USER`.
pub const HKEY_CURRENT_USER: u32 = 0x8000_0001;

/// The key that the game's registry calls use: the machine's root is moved
/// to the user's, which needs no administrator; any other key stays.
pub fn registry_root(key: u32) -> (r: u32)
    ensures
        r == (if key == HKEY_LOCAL_MACHINE {
            HKEY_CURRENT_USER
        } else {
            key
        }),
{
    if key == HKEY_LOCAL_MACHINE {
        HKEY_CURRENT_USER
    } else {
        key
    }
}

/// The shell settings that the game would read from the registry: quick
/// tips, the startup dialog and the little movies, all off, and success.
pub fn load_settings_from_registry() -> (r: (i32, i32, i32, bool))
    ensures
        r == (0i32, 0i32, 0i32, true),
{
    (0, 0, 0, true)
}

} // verus!
