use findex::catalog::{is_descriptor_file_name, load_catalog, DescriptorFile};
use findex::entry::FALLBACK_ICON;

fn file(name: &str, contents: &str) -> DescriptorFile {
    DescriptorFile { file_name: name.as_bytes().to_vec(), contents: contents.as_bytes().to_vec() }
}

#[test]
fn one_descriptor_without_icon_gets_fallback() {
    let files = vec![file("foo.desktop", "[Desktop Entry]\nName=Foo\nExec=foo --bar\n")];
    let report = load_catalog(&files);
    assert_eq!(report.apps.len(), 1);
    assert_eq!(report.apps[0].name, "Foo");
    assert_eq!(report.apps[0].command, "foo --bar");
    assert_eq!(report.apps[0].icon, FALLBACK_ICON);
    assert_eq!(report.apps[0].icon, "applications-other");
    assert!(report.failures.is_empty());
}

#[test]
fn icon_is_kept_when_present() {
    let files = vec![file("f.desktop", "[Desktop Entry]\nName=Files\nIcon=system-file-manager\nExec=nautilus\n")];
    let report = load_catalog(&files);
    assert_eq!(report.apps.len(), 1);
    assert_eq!(report.apps[0].icon, "system-file-manager");
}

#[test]
fn missing_exec_is_excluded() {
    let files = vec![file("bar.desktop", "[Desktop Entry]\nName=Bar\n")];
    let report = load_catalog(&files);
    assert!(report.apps.is_empty());
    assert!(report.failures.is_empty());
}

#[test]
fn missing_name_is_excluded() {
    let files = vec![
        file("a.desktop", "[Desktop Entry]\nExec=a\n"),
        file("b.desktop", "[Desktop Entry]\nName=B\nExec=b\n"),
    ];
    let report = load_catalog(&files);
    assert_eq!(report.apps.len(), 1);
    assert_eq!(report.apps[0].name, "B");
}

#[test]
fn empty_name_or_command_is_excluded() {
    let files = vec![
        file("a.desktop", "[Desktop Entry]\nName=\nExec=a\n"),
        file("b.desktop", "[Desktop Entry]\nName=B\nExec=\n"),
    ];
    assert!(load_catalog(&files).apps.is_empty());
}

#[test]
fn keys_of_other_sections_are_ignored() {
    let files = vec![file("a.desktop", "[Desktop Action new]\nName=New\nExec=a --new\n")];
    assert!(load_catalog(&files).apps.is_empty());
}

#[test]
fn malformed_file_among_nine_good_ones() {
    let mut files = Vec::new();
    for k in 0..9 {
        if k == 4 {
            files.push(file("broken.desktop", "[Desktop Entry\nName=Broken\nExec=broken\n"));
        }
        files.push(file(
            &format!("app{}.desktop", k),
            &format!("[Desktop Entry]\nName=App {}\nExec=app{}\n", k, k),
        ));
    }
    let report = load_catalog(&files);
    assert_eq!(report.apps.len(), 9);
    for k in 0..9 {
        assert_eq!(report.apps[k].name, format!("App {}", k));
    }
    assert_eq!(report.failures.len(), 1);
    assert_eq!(report.failures[0].file_name, b"broken.desktop".to_vec());
    assert!(!report.failures[0].message.is_empty());
    assert_eq!(report.failures[0].message, report.failures[0].error.to_string());
}

#[test]
fn other_extensions_are_skipped() {
    let files = vec![
        file("readme.txt", "[Desktop Entry]\nName=Readme\nExec=cat\n"),
        file(".desktop", "[Desktop Entry]\nName=Hidden\nExec=hidden\n"),
        file("mimeinfo.cache", "garbage"),
        file("ok.desktop", "[Desktop Entry]\nName=Ok\nExec=ok\n"),
    ];
    let report = load_catalog(&files);
    assert_eq!(report.apps.len(), 1);
    assert_eq!(report.apps[0].name, "Ok");
    assert!(report.failures.is_empty());
}

#[test]
fn catalog_keeps_listing_order_and_duplicates() {
    let files = vec![
        file("z.desktop", "[Desktop Entry]\nName=Zed\nExec=zed\n"),
        file("a.desktop", "[Desktop Entry]\nName=Alpha\nExec=alpha\n"),
        file("z2.desktop", "[Desktop Entry]\nName=Zed\nExec=zed2\n"),
    ];
    let report = load_catalog(&files);
    let names: Vec<&str> = report.apps.iter().map(|a| a.name.as_str()).collect();
    assert_eq!(names, vec!["Zed", "Alpha", "Zed"]);
    assert_eq!(report.apps[2].command, "zed2");
}

#[test]
fn descriptor_extension_check() {
    assert!(is_descriptor_file_name(b"firefox.desktop"));
    assert!(is_descriptor_file_name(b"a.desktop"));
    assert!(is_descriptor_file_name(b"..desktop"));
    assert!(!is_descriptor_file_name(b".desktop"));
    assert!(!is_descriptor_file_name(b"firefox.desktop~"));
    assert!(!is_descriptor_file_name(b"firefox"));
    assert!(!is_descriptor_file_name(b""));
    assert!(!is_descriptor_file_name(b"a.Desktop"));
}

#[test]
fn empty_listing_gives_empty_catalog() {
    let report = load_catalog(&Vec::new());
    assert!(report.apps.is_empty());
    assert!(report.failures.is_empty());
}
