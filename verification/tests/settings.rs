use noalbsgui::fs_path::{portable_base_for, FsPath};
use noalbsgui::settings::{BinarySource, Settings, Theme};
use std::path::Component;

/// The components of a path as the standard library splits them.
fn fs(p: &str) -> FsPath {
    let mut root = String::new();
    let mut parts = Vec::new();
    for c in std::path::Path::new(p).components() {
        match c {
            Component::Prefix(_) | Component::RootDir => {
                root.push_str(&c.as_os_str().to_string_lossy())
            }
            other => parts.push(other.as_os_str().to_string_lossy().into_owned()),
        }
    }
    FsPath { root, parts }
}

#[test]
fn portable_base_plain_exe() {
    let p = portable_base_for(&fs("/opt/noalbsgui/NOALBSGUI"));
    assert_eq!(p, fs("/opt/noalbsgui/noalbsgui-data"));
}

#[test]
fn portable_base_macos_app_bundle() {
    let p = portable_base_for(&fs("/Users/me/Downloads/NOALBSGUI.app/Contents/MacOS/NOALBSGUI"));
    assert_eq!(p, fs("/Users/me/Downloads/noalbsgui-data"));
}

#[test]
fn portable_base_relative_and_bare() {
    assert_eq!(portable_base_for(&fs("NOALBSGUI")), fs("noalbsgui-data"));
    assert_eq!(portable_base_for(&fs("/")), fs("noalbsgui-data"));
    // too shallow to climb three levels: stays in Contents/MacOS
    assert_eq!(
        portable_base_for(&fs("/Contents/MacOS/NOALBSGUI")),
        fs("/Contents/MacOS/noalbsgui-data")
    );
}

#[test]
fn default_settings() {
    let s = Settings::default();
    assert_eq!(s.binary_source, BinarySource::Auto);
    assert!(s.binary_path.is_none());
    assert!(s.installed_version.is_none());
    assert!(s.working_dir.is_none());
    assert!(s.check_updates_on_startup);
    assert_eq!(s.theme, Theme::System);
    assert_eq!(Theme::default(), Theme::System);
}
