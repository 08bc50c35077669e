use styled_text::launch::{
    detect_shell, launch_arguments, merge_run_as, override_flag, override_text, shell_by_name,
    LaunchConfigGeneral, LaunchConfigRunAs, ShellKind, ShellWarning,
};

fn run_as(sudo: Option<bool>, user: Option<&str>, group: Option<&str>) -> LaunchConfigRunAs {
    LaunchConfigRunAs { sudo, user: user.map(str::to_string), group: group.map(str::to_string) }
}

#[test]
fn launch_words_without_sudo() {
    assert_eq!(launch_arguments("bash", "ls -la", false, None), vec!["bash", "-c", "ls -la"]);
    assert_eq!(launch_arguments("zsh", "ls", true, None), vec!["zsh", "-c", "setsid ls"]);
    let who = run_as(Some(false), Some("root"), None);
    assert_eq!(launch_arguments("bash", "ls", false, Some(&who)), vec!["bash", "-c", "ls"]);
    let unsaid = run_as(None, Some("root"), Some("wheel"));
    assert_eq!(launch_arguments("bash", "ls", false, Some(&unsaid)), vec!["bash", "-c", "ls"]);
    assert!(!unsaid.uses_sudo());
}

#[test]
fn launch_words_with_sudo() {
    let bare = run_as(Some(true), None, None);
    assert!(bare.uses_sudo());
    assert_eq!(
        launch_arguments("bash", "ls", false, Some(&bare)),
        vec!["sudo", "--", "bash", "-c", "ls"]
    );
    let full = run_as(Some(true), Some("me"), Some("us"));
    assert_eq!(
        launch_arguments("bash", "ls", true, Some(&full)),
        vec!["sudo", "-u", "me", "-g", "us", "--", "bash", "-c", "setsid ls"]
    );
    let group = run_as(Some(true), None, Some("us"));
    assert_eq!(
        launch_arguments("sh", "id", false, Some(&group)),
        vec!["sudo", "-g", "us", "--", "sh", "-c", "id"]
    );
}

#[test]
fn settings_override_where_they_are_made() {
    assert_eq!(override_flag(Some(true), Some(false)), Some(false));
    assert_eq!(override_flag(Some(true), None), Some(true));
    assert_eq!(override_flag(None, Some(true)), Some(true));
    assert_eq!(override_flag(None, None), None);
    assert_eq!(override_text(Some("a".to_string()), &Some("b".to_string())), Some("b".to_string()));
    assert_eq!(override_text(Some("a".to_string()), &None), Some("a".to_string()));
    assert_eq!(override_text(None, &Some("b".to_string())), Some("b".to_string()));
    assert_eq!(override_text(None, &None), None);
}

#[test]
fn general_settings_merge() {
    let own = LaunchConfigGeneral {
        preserve_env: Some(true),
        deamonize: Some(false),
        working_dir: Some("/home/me".to_string()),
        command: None,
        shell: None,
    };
    let other = LaunchConfigGeneral {
        preserve_env: None,
        deamonize: Some(true),
        working_dir: None,
        command: Some("ls".to_string()),
        shell: Some("zsh".to_string()),
    };
    let merged = own.merge(&other);
    assert_eq!(merged.preserve_env, Some(true));
    assert_eq!(merged.deamonize, Some(true));
    assert_eq!(merged.working_dir, Some("/home/me".to_string()));
    assert_eq!(merged.command, Some("ls".to_string()));
    assert_eq!(merged.shell, Some("zsh".to_string()));
}

#[test]
fn run_as_settings_merge() {
    let own = run_as(Some(true), Some("me"), None);
    let other = run_as(None, Some("you"), Some("us"));
    let both = merge_run_as(Some(own.clone()), &Some(other.clone())).unwrap();
    assert_eq!(both.sudo, Some(true));
    assert_eq!(both.user, Some("you".to_string()));
    assert_eq!(both.group, Some("us".to_string()));
    let mine = merge_run_as(Some(own), &None).unwrap();
    assert_eq!(mine.user, Some("me".to_string()));
    let theirs = merge_run_as(None, &Some(other)).unwrap();
    assert_eq!(theirs.sudo, None);
    assert_eq!(theirs.group, Some("us".to_string()));
    assert!(merge_run_as(None, &None).is_none());
}

#[test]
fn shells_by_name() {
    assert_eq!(shell_by_name(b"bash"), Some(ShellKind::Bash));
    assert_eq!(shell_by_name(b"zsh"), Some(ShellKind::Zsh));
    assert_eq!(shell_by_name(b"fish"), Some(ShellKind::Fish));
    assert_eq!(shell_by_name(b"nushell"), Some(ShellKind::Nu));
    assert_eq!(shell_by_name(b"powershell"), Some(ShellKind::PowerShell));
    assert_eq!(shell_by_name(b"elvish"), Some(ShellKind::Elvish));
    assert_eq!(shell_by_name(b"Bash"), None);
    assert_eq!(shell_by_name(b""), None);
}

#[test]
fn shell_from_the_environment() {
    assert_eq!(detect_shell(Some("/bin/bash"), "unix"), (ShellKind::Bash, None));
    assert_eq!(detect_shell(Some("/usr/local/bin/fish"), "unix"), (ShellKind::Fish, None));
    assert_eq!(detect_shell(Some("zsh"), "unix"), (ShellKind::Zsh, None));
    assert_eq!(detect_shell(Some("/bin/tcsh"), "unix"), (ShellKind::Bash, Some(ShellWarning::Unknown)));
    assert_eq!(detect_shell(Some("/bin/"), "unix"), (ShellKind::Bash, Some(ShellWarning::Unknown)));
    assert_eq!(detect_shell(None, "unix"), (ShellKind::Bash, Some(ShellWarning::Unset)));
    assert_eq!(detect_shell(None, "Windows"), (ShellKind::PowerShell, Some(ShellWarning::Unset)));
    assert_eq!(detect_shell(None, "windows"), (ShellKind::Bash, Some(ShellWarning::Unset)));
}
