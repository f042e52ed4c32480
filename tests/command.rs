use app_uninstaller::utils::{is_blacklisted, isolate_exec, omit_dir_from_cmd};

#[test]
fn isolate_exec_takes_first_token() {
    assert_eq!(isolate_exec("firefox --safe-mode".to_string()), "firefox");
}

#[test]
fn isolate_exec_of_empty_command() {
    assert_eq!(isolate_exec("".to_string()), "");
}

#[test]
fn isolate_exec_of_blank_command() {
    assert_eq!(isolate_exec(" \t\n ".to_string()), "");
}

#[test]
fn isolate_exec_skips_leading_white_space() {
    assert_eq!(isolate_exec("  vlc\t%U".to_string()), "vlc");
}

#[test]
fn isolate_exec_stops_at_unicode_space() {
    assert_eq!(isolate_exec("app\u{3000}--flag".to_string()), "app");
}

#[test]
fn isolate_exec_keeps_single_word() {
    assert_eq!(isolate_exec("gimp".to_string()), "gimp");
}

#[test]
fn omit_dir_strips_directory_and_arguments() {
    assert_eq!(omit_dir_from_cmd("/usr/bin/vlc %U".to_string()), "vlc");
}

#[test]
fn omit_dir_of_bare_command() {
    assert_eq!(omit_dir_from_cmd("ls -la".to_string()), "ls");
}

#[test]
fn omit_dir_of_trailing_slash() {
    assert_eq!(omit_dir_from_cmd("/usr/bin/".to_string()), "");
}

#[test]
fn omit_dir_uses_last_slash() {
    assert_eq!(omit_dir_from_cmd("/opt/app/bin/run --x=/a/b".to_string()), "b");
}

#[test]
fn blacklisted_launchers_are_hidden() {
    assert!(is_blacklisted("flatpak run org.gimp.GIMP"));
    assert!(is_blacklisted("java -jar app.jar"));
    assert!(is_blacklisted("  xdg-open http://example.org"));
}

#[test]
fn ordinary_commands_are_not_hidden() {
    assert!(!is_blacklisted("/usr/bin/flatpak run x"));
    assert!(!is_blacklisted("firefox %u"));
    assert!(!is_blacklisted(""));
}
