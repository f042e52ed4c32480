use app_uninstaller::paths::{
    home_candidate_paths, join_path, keep_present, plain_component, system_candidate_paths,
    system_candidates_of,
};
use app_uninstaller::purge::AppPurgeProcess;
use app_uninstaller::error::Error;

#[test]
fn join_adds_separator_when_needed() {
    assert_eq!(join_path("/var/local", "vlc"), "/var/local/vlc");
    assert_eq!(join_path("/usr/share/", "vlc"), "/usr/share/vlc");
    assert_eq!(join_path("", "vlc"), "vlc");
}

#[test]
fn join_with_absolute_part_replaces_base() {
    assert_eq!(join_path("/home/u", "/etc/x"), "/etc/x");
}

#[test]
fn system_candidates_are_lowercased_in_order() {
    let c = system_candidate_paths("VLC");
    assert_eq!(
        c,
        vec![
            "/usr/local/share/vlc",
            "/usr/local/vlc",
            "/usr/share/vlc",
            "/var/lib/vlc",
            "/var/local/vlc",
            "/var/opt/vlc",
            "/lib/vlc",
            "/opt/vlc",
            "/etc/vlc",
        ]
    );
}

#[test]
fn home_candidates_keep_case() {
    let c = home_candidate_paths("/home/u", "VLC");
    assert_eq!(
        c,
        vec!["/home/u/.local/share/VLC", "/home/u/.VLC", "/home/u/.var/VLC", "/home/u/.config/VLC"]
    );
}

#[test]
fn keep_present_filters_in_order() {
    let c = vec!["a".to_string(), "b".to_string(), "c".to_string()];
    assert_eq!(keep_present(&c, &vec![true, false, true]), vec!["a", "c"]);
    assert_eq!(keep_present(&c, &vec![false, true]), vec!["b"]);
    assert!(keep_present(&c, &vec![]).is_empty());
}

#[test]
fn system_search_folds_case() {
    let present = vec![false, false, true, false, false, false, false, true, false];
    let upper = AppPurgeProcess::new("VLC".to_string(), false).find_app_files_global(&present);
    let lower = AppPurgeProcess::new("vlc".to_string(), false).find_app_files_global(&present);
    assert_eq!(upper, lower);
    assert_eq!(upper, vec!["/usr/share/vlc", "/opt/vlc"]);
}

#[test]
fn global_candidates_of_process() {
    let p = AppPurgeProcess::new("Gimp".to_string(), true);
    let c = p.global_candidates();
    assert_eq!(c.len(), 9);
    assert_eq!(c[0], "/usr/local/share/gimp");
    assert_eq!(c[8], "/etc/gimp");
}

#[test]
fn home_search_without_home_fails() {
    let p = AppPurgeProcess::new("Gimp".to_string(), false);
    assert_eq!(p.find_app_files_home(None, &vec![true; 4]), Err(Error::HomeDirUnresolvable));
}

#[test]
fn home_search_finds_present_paths() {
    let p = AppPurgeProcess::new("Gimp".to_string(), false);
    let found = p.find_app_files_home(Some("/home/u".to_string()), &vec![false, true, false, true]);
    assert_eq!(found, Ok(vec!["/home/u/.Gimp".to_string(), "/home/u/.config/Gimp".to_string()]));
    assert_eq!(p.local_candidates("/home/u").len(), 4);
}

#[test]
fn names_that_are_not_one_component_have_no_candidates() {
    for name in ["/etc", "", ".", "..", "a/b", "/"] {
        assert!(!plain_component(name));
        assert!(system_candidate_paths(name).is_empty());
        assert!(home_candidate_paths("/home/u", name).is_empty());
    }
    assert!(plain_component("..x"));
    assert!(plain_component(".vlc"));
}

#[test]
fn absolute_name_stays_out_of_the_home_search() {
    let p = AppPurgeProcess::new("/etc".to_string(), false);
    assert_eq!(p.find_app_files_home(Some("/home/u".to_string()), &vec![true; 4]), Ok(vec![]));
    assert!(p.find_app_files_global(&vec![true; 9]).is_empty());
}

#[test]
fn system_candidates_of_lowercased_name() {
    let c = system_candidates_of("gimp");
    assert_eq!(c.len(), 9);
    assert_eq!(c[4], "/var/local/gimp");
    assert_eq!(c[6], "/lib/gimp");
}

#[test]
fn home_candidates_under_home_with_trailing_slash() {
    let c = home_candidate_paths("/home/u/", "App");
    assert_eq!(c[1], "/home/u//.App");
    assert!(c.iter().all(|p| p.starts_with("/home/u/") && p.len() > "/home/u/".len()));
}
