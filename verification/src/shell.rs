//! Which shell a user runs, for installing completion scripts.
use crate::text::{str_contains, text_contains, text_eq};
use vstd::prelude::*;

verus! {

/// The shells that completion scripts can be installed for.
#[derive(Debug, Clone, Copy, PartialEq, Eq, Structural)]
pub enum ShellKind {
    /// Bash.
    Bash,
    /// Zsh.
    Zsh,
    /// Fish.
    Fish,
    /// Elvish.
    Elvish,
    /// PowerShell.
    PowerShell,
}

/// The shell a program name stands for.
pub open spec fn shell_named(name: Seq<char>) -> Option<ShellKind> {
    if name == "bash"@ {
        Some(ShellKind::Bash)
    } else if name == "zsh"@ {
        Some(ShellKind::Zsh)
    } else if name == "fish"@ {
        Some(ShellKind::Fish)
    } else if name == "elvish"@ {
        Some(ShellKind::Elvish)
    } else if name == "pwsh"@ || name == "powershell"@ {
        Some(ShellKind::PowerShell)
    } else {
        None
    }
}

/// The shell a program name stands for: bash, zsh, fish, elvish, and pwsh
/// or powershell for PowerShell.
pub fn shell_from_name(name: &str) -> (r: Option<ShellKind>)
    ensures
        r == shell_named(name@),
{
    if text_eq(name, "bash") {
        Some(ShellKind::Bash)
    } else if text_eq(name, "zsh") {
        Some(ShellKind::Zsh)
    } else if text_eq(name, "fish") {
        Some(ShellKind::Fish)
    } else if text_eq(name, "elvish") {
        Some(ShellKind::Elvish)
    } else if text_eq(name, "pwsh") || text_eq(name, "powershell") {
        Some(ShellKind::PowerShell)
    } else {
        None
    }
}

/// Whether `name` is a plain file name: not empty, neither `.` nor `..`,
/// and without a separator (`/` or `\`) or a drive colon (`:`).
pub open spec fn plain_file_name(name: Seq<char>) -> bool {
    &&& name.len() > 0
    &&& name != "."@
    &&& name != ".."@
    &&& forall|i: int| 0 <= i < name.len() ==> #[trigger] name[i] != '/' && name[i] != '\\' && name[i] != ':'
}

/// Whether `path` is `/`-separated and ends in the plain file name `name`:
/// it is `name` itself, or something followed by `/` and `name`, holds no
/// `\` or `:`, and does not start with two slashes.
pub open spec fn path_ends_in_name(path: Seq<char>, name: Seq<char>) -> bool {
    &&& plain_file_name(name)
    &&& forall|i: int| 0 <= i < path.len() ==> #[trigger] path[i] != '\\' && path[i] != ':'
    &&& !(path.len() >= 2 && path[0] == '/' && path[1] == '/')
    &&& (path == name || (path.len() > name.len() && path[path.len() - name.len() - 1] == '/'
        && path.subrange(path.len() - name.len(), path.len() as int) == name))
}

/// The last component of a path, through std's `Path::file_name` (a path
/// made from a `str` has a `str` file name). `/` separates components on
/// every platform, and a path that ends in a plain name has that name as
/// its file name; what other paths give (`\` and drive prefixes, trailing
/// separators, `.` and `..`) depends on the platform and is not stated.
#[verifier::external_body]
fn file_name(path: &str) -> (r: Option<String>)
    ensures
        forall|name: Seq<char>| path_ends_in_name(path@, name) ==> r is Some && r->0@ == name,
{
    std::path::Path::new(path).file_name().and_then(|n| n.to_str()).map(|n| n.to_string())
}

/// The shell a shell's path (such as `$SHELL`) names, by its file name as
/// the platform splits paths (see [`shell_from_name`]); a path without a
/// file name names none.
pub fn shell_from_path(path: &str) -> (r: Option<ShellKind>)
    ensures
        forall|name: Seq<char>| path_ends_in_name(path@, name) ==> r == shell_named(name),
{
    match file_name(path) {
        Some(n) => shell_from_name(n.as_str()),
        None => None,
    }
}

/// The directory a completion script is installed under.
#[derive(Debug, Clone, Copy, PartialEq, Eq, Structural)]
pub enum InstallBase {
    /// The user's data directory (`$XDG_DATA_HOME`, else `~/.local/share`).
    DataDir,
    /// The user's home directory.
    Home,
    /// The user's configuration directory (`$XDG_CONFIG_HOME`, else
    /// `~/.config`).
    ConfigDir,
    /// The directory of PowerShell's `$PROFILE`.
    ProfileDir,
}

/// Where the completion script of a shell goes: the base directory and the
/// path components below it. PowerShell's goes beside its profile when
/// `$PROFILE` is set (`has_profile`), else under `~/.config/powershell`.
pub open spec fn install_location(shell: ShellKind, has_profile: bool) -> (InstallBase, Seq<Seq<char>>) {
    match shell {
        ShellKind::Bash => (InstallBase::DataDir, seq!["bash-completion"@, "completions"@, "hisiflash"@]),
        ShellKind::Zsh => (InstallBase::Home, seq![".zfunc"@, "_hisiflash"@]),
        ShellKind::Fish => (InstallBase::ConfigDir, seq!["fish"@, "completions"@, "hisiflash.fish"@]),
        ShellKind::PowerShell => if has_profile {
            (InstallBase::ProfileDir, seq!["hisiflash.ps1"@])
        } else {
            (InstallBase::Home, seq![".config"@, "powershell"@, "completions"@, "hisiflash.ps1"@])
        },
        ShellKind::Elvish => (InstallBase::ConfigDir, seq!["elvish"@, "lib"@, "hisiflash.elv"@]),
    }
}

/// Where the completion script of `shell` is installed (see
/// [`install_location`]): the base directory, then the components to join
/// onto it in order.
pub fn completion_install_location(shell: ShellKind, has_profile: bool) -> (r: (InstallBase, Vec<&'static str>))
    ensures
        r.0 == install_location(shell, has_profile).0,
        r.1@.map_values(|c: &str| c@) == install_location(shell, has_profile).1,
{
    let mut parts: Vec<&'static str> = Vec::new();
    let base = match shell {
        ShellKind::Bash => {
            parts.push("bash-completion");
            parts.push("completions");
            parts.push("hisiflash");
            InstallBase::DataDir
        },
        ShellKind::Zsh => {
            parts.push(".zfunc");
            parts.push("_hisiflash");
            InstallBase::Home
        },
        ShellKind::Fish => {
            parts.push("fish");
            parts.push("completions");
            parts.push("hisiflash.fish");
            InstallBase::ConfigDir
        },
        ShellKind::PowerShell => {
            if has_profile {
                parts.push("hisiflash.ps1");
                InstallBase::ProfileDir
            } else {
                parts.push(".config");
                parts.push("powershell");
                parts.push("completions");
                parts.push("hisiflash.ps1");
                InstallBase::Home
            }
        },
        ShellKind::Elvish => {
            parts.push("elvish");
            parts.push("lib");
            parts.push("hisiflash.elv");
            InstallBase::ConfigDir
        },
    };
    assert(parts@.map_values(|c: &str| c@) =~= install_location(shell, has_profile).1);
    (base, parts)
}

/// The line that puts `~/.zfunc` on zsh's function path.
pub const ZSH_FPATH_LINE: &'static str = "fpath=(~/.zfunc $fpath)";

/// Whether `.zshrc` (its text, `None` when it cannot be read) still needs
/// the function path line.
pub fn zshrc_needs_fpath(zshrc: Option<&str>) -> (r: bool)
    ensures
        r == match zshrc {
            Some(text) => !text_contains(text@, ZSH_FPATH_LINE@),
            None => true,
        },
{
    match zshrc {
        Some(text) => !str_contains(text, ZSH_FPATH_LINE),
        None => true,
    }
}

} // verus!
