use app_uninstaller::desktop::{
    catalog_dirs, entries_from_descriptors, is_descriptor_file, parse_entry, DesktopEntry,
};

const GOOD: &str = "[Desktop Entry]\nType=Application\nName=Foo\nName[en_US]=Foo US\nExec=foo %U\nIcon=foo-icon\nComment=Does foo\n";

#[test]
fn catalog_scans_three_directories_in_order() {
    assert_eq!(
        catalog_dirs(Some("/home/u".to_string())),
        vec![
            "/home/u/.local/share/applications/",
            "/usr/share/applications",
            "/usr/local/share/applications",
        ]
    );
}

#[test]
fn catalog_without_home_scans_system_directories() {
    assert_eq!(
        catalog_dirs(None),
        vec!["/usr/share/applications", "/usr/local/share/applications"]
    );
}

#[test]
fn descriptor_files_are_regular_desktop_files() {
    assert!(is_descriptor_file("foo.desktop", true));
    assert!(is_descriptor_file(".desktop", true));
    assert!(!is_descriptor_file("foo.desktop", false));
    assert!(!is_descriptor_file("foo.desktop~", true));
    assert!(!is_descriptor_file("desktop", true));
    assert!(!is_descriptor_file("foo.Desktop", true));
}

#[test]
fn parse_reads_fields() {
    let e = parse_entry("/usr/share/applications/foo.desktop", GOOD).expect("parses");
    assert_eq!(e.name, "Foo US");
    assert_eq!(e.exec_command, "foo %U");
    assert_eq!(e.icon_path, Some("foo-icon".to_string()));
    assert_eq!(e.description, "Does foo");
    assert_eq!(e.full_path, "/usr/share/applications/foo.desktop");
}

#[test]
fn parse_fills_missing_fields() {
    let e = parse_entry("/usr/share/applications/bare.desktop", "[Desktop Entry]\nType=Application\n")
        .expect("parses");
    assert_eq!(e.name, "");
    assert_eq!(e.exec_command, "");
    assert_eq!(e.icon_path, Some(String::new()));
    assert_eq!(e.description, "None");
}

#[test]
fn parse_rejects_malformed_file() {
    assert!(parse_entry("/usr/share/applications/bad.desktop", "this is not a descriptor").is_none());
}

#[test]
fn scan_keeps_only_well_formed_descriptors() {
    let files = vec![
        ("/usr/share/applications/foo.desktop".to_string(), GOOD.to_string()),
        ("/usr/share/applications/bad.desktop".to_string(), "garbage without a key".to_string()),
    ];
    let entries = entries_from_descriptors(&files);
    assert_eq!(entries.len(), 1);
    assert_eq!(entries[0].full_path, "/usr/share/applications/foo.desktop");
    assert_eq!(entries[0].exec_command, "foo %U");
}

#[test]
fn scan_of_nothing_is_empty() {
    assert!(entries_from_descriptors(&Vec::new()).is_empty());
}

#[test]
fn entry_constructor_keeps_fields() {
    let e = DesktopEntry::new(
        "A".to_string(),
        "a".to_string(),
        None,
        "d".to_string(),
        "/p.desktop".to_string(),
    );
    assert_eq!(e.name, "A");
    assert_eq!(e.exec_command, "a");
    assert_eq!(e.icon_path, None);
    assert_eq!(e.description, "d");
    assert_eq!(e.full_path, "/p.desktop");
}
