use hisiflash::shell::{
    completion_install_location, shell_from_name, shell_from_path, zshrc_needs_fpath, InstallBase, ShellKind,
    ZSH_FPATH_LINE,
};

#[test]
fn test_shell_from_path_bash() {
    assert_eq!(shell_from_path("/bin/bash"), Some(ShellKind::Bash));
    assert_eq!(shell_from_path("/usr/bin/bash"), Some(ShellKind::Bash));
}

#[test]
fn test_shell_from_path_zsh() {
    assert_eq!(shell_from_path("/usr/bin/zsh"), Some(ShellKind::Zsh));
    assert_eq!(shell_from_path("/bin/zsh"), Some(ShellKind::Zsh));
}

#[test]
fn test_shell_from_path_fish() {
    assert_eq!(shell_from_path("/usr/local/bin/fish"), Some(ShellKind::Fish));
    assert_eq!(shell_from_path("/usr/bin/fish"), Some(ShellKind::Fish));
}

#[test]
fn test_shell_from_path_elvish() {
    assert_eq!(shell_from_path("/usr/bin/elvish"), Some(ShellKind::Elvish));
}

#[test]
fn test_shell_from_path_powershell() {
    assert_eq!(shell_from_path("/usr/bin/pwsh"), Some(ShellKind::PowerShell));
    assert_eq!(shell_from_path("/usr/bin/powershell"), Some(ShellKind::PowerShell));
}

#[test]
fn test_shell_from_path_unknown() {
    assert_eq!(shell_from_path("/usr/bin/tcsh"), None);
    assert_eq!(shell_from_path("/usr/bin/csh"), None);
    assert_eq!(shell_from_path("/usr/bin/ksh"), None);
}

#[test]
fn test_shell_from_path_empty() {
    assert_eq!(shell_from_path(""), None);
}

#[test]
fn test_shell_from_path_just_name() {
    assert_eq!(shell_from_path("bash"), Some(ShellKind::Bash));
    assert_eq!(shell_from_path("zsh"), Some(ShellKind::Zsh));
    assert_eq!(shell_from_path("fish"), Some(ShellKind::Fish));
}

#[test]
fn shell_names_are_exact() {
    assert_eq!(shell_from_name("Bash"), None);
    assert_eq!(shell_from_name("bash "), None);
    assert_eq!(shell_from_path("/usr/bin/zsh/"), Some(ShellKind::Zsh));
    assert_eq!(shell_from_path("/usr/bin/.."), None);
}

#[test]
fn zshrc_fpath_line_added_once() {
    assert!(zshrc_needs_fpath(None));
    assert!(zshrc_needs_fpath(Some("export PATH=$PATH\n")));
    let with_line = format!("# hisiflash completions\n{ZSH_FPATH_LINE}\n");
    assert!(!zshrc_needs_fpath(Some(&with_line)));
}

#[test]
fn completion_scripts_install_locations() {
    assert_eq!(
        completion_install_location(ShellKind::Bash, false),
        (InstallBase::DataDir, vec!["bash-completion", "completions", "hisiflash"])
    );
    assert_eq!(completion_install_location(ShellKind::Zsh, true), (InstallBase::Home, vec![".zfunc", "_hisiflash"]));
    assert_eq!(
        completion_install_location(ShellKind::Fish, false),
        (InstallBase::ConfigDir, vec!["fish", "completions", "hisiflash.fish"])
    );
    assert_eq!(completion_install_location(ShellKind::PowerShell, true), (InstallBase::ProfileDir, vec!["hisiflash.ps1"]));
    assert_eq!(
        completion_install_location(ShellKind::PowerShell, false),
        (InstallBase::Home, vec![".config", "powershell", "completions", "hisiflash.ps1"])
    );
    assert_eq!(
        completion_install_location(ShellKind::Elvish, false),
        (InstallBase::ConfigDir, vec!["elvish", "lib", "hisiflash.elv"])
    );
}
