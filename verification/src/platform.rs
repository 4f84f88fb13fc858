//! Platform decisions: where the hub keeps its data, the login autostart
//! entry, and the script that swaps in a new version of the hub.
//!
//! Resolving system directories, reading and writing the registry and
//! starting processes are done by the caller; these functions decide what
//! to ask for and what the answers mean.

use vstd::prelude::*;
use vstd::string::*;
use crate::paths::AppPath;
use crate::text::{contains_text, owned, text_contains};

verus! {

/// Why a platform operation failed.
#[derive(Clone, Debug)]
pub enum PlatformError {
    /// The system has no per-user configuration directory.
    NoConfigDir,
    /// Autostart is only supported on Windows.
    AutostartUnsupported,
    /// The directory of the running executable is unknown.
    ExeDirUnknown,
    /// The registry could not be read.
    Registry(String),
}

/// The hub's data directory: `my-hub` under the user's configuration directory.
pub fn app_data_dir(config_dir: Option<AppPath>) -> (r: Result<AppPath, PlatformError>)
    ensures
        match config_dir {
            Some(base) => r matches Ok(p) && p.root == base.root && p.parts_text() == base.parts_text().push("my-hub"@),
            None => r matches Err(PlatformError::NoConfigDir),
        },
{
    match config_dir {
        Some(base) => Ok(base.join("my-hub")),
        None => Err(PlatformError::NoConfigDir),
    }
}

/// The name of the hub's value under the `Run` registry key.
pub fn autostart_value_name() -> (n: String)
    ensures
        n@ == "my-hub"@,
{
    owned("my-hub")
}

/// The registry key, under the current user, that lists programs started at login.
pub fn run_key_path() -> (p: String)
    ensures
        p@ == "Software\\Microsoft\\Windows\\CurrentVersion\\Run"@,
{
    owned("Software\\Microsoft\\Windows\\CurrentVersion\\Run")
}

/// The change to make to the `Run` registry key.
#[derive(Clone, Debug)]
pub enum AutostartChange {
    /// Set the value `name` to `command`.
    Write { name: String, command: String },
    /// Delete the value `name`; a value that is already absent is fine.
    Remove { name: String },
}

/// The autostart command for an executable: its path in double quotes.
pub open spec fn autostart_command(exe_path: Seq<char>) -> Seq<char> {
    seq!['"'] + exe_path + seq!['"']
}

/// What enabling or disabling autostart changes in the registry; only
/// Windows supports it.
pub fn set_autostart(enabled: bool, exe_path: &str, on_windows: bool) -> (r: Result<AutostartChange, PlatformError>)
    ensures
        !on_windows ==> r matches Err(PlatformError::AutostartUnsupported),
        on_windows && enabled ==> (r matches Ok(AutostartChange::Write { name, command })
            && name@ == "my-hub"@ && command@ == autostart_command(exe_path@)),
        on_windows && !enabled ==> (r matches Ok(AutostartChange::Remove { name }) && name@ == "my-hub"@),
{
    if !on_windows {
        return Err(PlatformError::AutostartUnsupported);
    }
    if enabled {
        let mut command = owned("\"");
        command.append(exe_path);
        command.append("\"");
        proof {
            reveal_strlit("\"");
            assert(command@ =~= autostart_command(exe_path@));
        }
        Ok(AutostartChange::Write { name: autostart_value_name(), command })
    } else {
        Ok(AutostartChange::Remove { name: autostart_value_name() })
    }
}

/// What reading the hub's autostart value gave.
#[derive(Clone, Debug)]
pub enum RunEntry {
    /// The platform has no such registry (not Windows).
    Unsupported,
    /// The `Run` key does not exist.
    KeyMissing,
    /// The key exists but holds no value for the hub.
    ValueMissing,
    /// The value's text.
    Value(String),
    /// Reading failed for another reason.
    Failed(String),
}

/// Whether autostart is on for the executable at `exe_path`: the hub's value
/// must exist and contain the path. Anything missing means off; a failed
/// read is an error.
pub fn is_autostart_enabled(entry: RunEntry, exe_path: &str) -> (r: Result<bool, PlatformError>)
    ensures
        match entry {
            RunEntry::Value(v) => r == Ok::<bool, PlatformError>(contains_text(v@, exe_path@)),
            RunEntry::Failed(msg) => r matches Err(PlatformError::Registry(m)) && m == msg,
            _ => r == Ok::<bool, PlatformError>(false),
        },
{
    match entry {
        RunEntry::Value(v) => Ok(text_contains(v.as_str(), exe_path)),
        RunEntry::Failed(msg) => Err(PlatformError::Registry(msg)),
        _ => Ok(false),
    }
}

/// Where the new executable is staged: `my-hub-new.exe` beside the running one.
pub fn staged_exe_path(exe_dir: &AppPath) -> (p: AppPath)
    ensures
        p.root == exe_dir.root,
        p.parts_text() == exe_dir.parts_text().push("my-hub-new.exe"@),
{
    exe_dir.join("my-hub-new.exe")
}

/// Where the swap script is written: `my-hub-update.bat` beside the running executable.
pub fn update_script_path(exe_dir: &AppPath) -> (p: AppPath)
    ensures
        p.root == exe_dir.root,
        p.parts_text() == exe_dir.parts_text().push("my-hub-update.bat"@),
{
    exe_dir.join("my-hub-update.bat")
}

/// The text of the script that, after the hub exits, waits two seconds,
/// moves the staged executable over the current one, starts it and deletes
/// itself.
pub open spec fn swap_script(staged: Seq<char>, current: Seq<char>) -> Seq<char> {
    "@echo off\r\ntimeout /t 2 /nobreak >nul\r\nmove /y \""@ + staged + "\" \""@ + current
        + "\"\r\nstart \"\" \""@ + current + "\"\r\ndel \"%~f0\"\r\n"@
}

/// The swap script for the staged executable `staged` and the running one `current`.
pub fn self_update_script(staged: &str, current: &str) -> (s: String)
    ensures
        s@ == swap_script(staged@, current@),
{
    let mut s = owned("@echo off\r\ntimeout /t 2 /nobreak >nul\r\nmove /y \"");
    s.append(staged);
    s.append("\" \"");
    s.append(current);
    s.append("\"\r\nstart \"\" \"");
    s.append(current);
    s.append("\"\r\ndel \"%~f0\"\r\n");
    s
}

} // verus!
