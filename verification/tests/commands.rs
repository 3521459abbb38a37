use noalbsgui::binary::{is_update_available};
use noalbsgui::commands::{
    config_path, download_dir, env_path, launch_plan, record_download, update_offer,
    use_manual_binary,
};
use noalbsgui::error::AppError;
use noalbsgui::fs_path::FsPath;
use noalbsgui::settings::{BinarySource, Settings};

fn p(root: &str, parts: &[&str]) -> FsPath {
    FsPath { root: root.into(), parts: parts.iter().map(|s| s.to_string()).collect() }
}

#[test]
fn config_and_env_next_to_binary() {
    let mut s = Settings::default();
    s.binary_path = Some(p("/", &["opt", "noalbs", "noalbs"]));
    assert_eq!(config_path(&s).unwrap(), p("/", &["opt", "noalbs", "config.json"]));
    assert_eq!(env_path(&s).unwrap(), p("/", &["opt", "noalbs", ".env"]));
    s.working_dir = Some(p("/", &["work"]));
    assert_eq!(config_path(&s).unwrap(), p("/", &["work", "config.json"]));
}

#[test]
fn no_directory_is_an_error() {
    let s = Settings::default();
    match config_path(&s) {
        Err(AppError::Other(m)) => assert_eq!(m, "no working directory or binary path set"),
        other => panic!("unexpected {other:?}"),
    }
    assert!(env_path(&s).is_err());
}

#[test]
fn launch_needs_a_binary() {
    let mut s = Settings::default();
    assert!(matches!(launch_plan(&s), Err(AppError::BinaryMissing)));
    s.binary_path = Some(p("", &["noalbs"]));
    let (b, cwd) = launch_plan(&s).unwrap();
    assert_eq!(b, p("", &["noalbs"]));
    assert_eq!(cwd, p("", &[]));
    s.binary_path = Some(p("/", &[]));
    let (_, cwd) = launch_plan(&s).unwrap();
    assert_eq!(cwd, p("", &["."]));
    s.working_dir = Some(p("/", &["w"]));
    let (_, cwd) = launch_plan(&s).unwrap();
    assert_eq!(cwd, p("/", &["w"]));
}

#[test]
fn download_goes_next_to_current_binary() {
    let mut s = Settings::default();
    let fallback = p("/", &["data", "bin"]);
    assert_eq!(download_dir(&s, &fallback), fallback);
    s.binary_path = Some(p("/", &["x", "noalbs"]));
    assert_eq!(download_dir(&s, &fallback), p("/", &["x"]));
}

#[test]
fn recording_a_download() {
    let mut s = Settings::default();
    s.binary_source = BinarySource::Manual;
    record_download(&mut s, p("/", &["x", "noalbs"]), "v2.17.0");
    assert_eq!(s.binary_path, Some(p("/", &["x", "noalbs"])));
    assert_eq!(s.installed_version.as_deref(), Some("2.17.0"));
    assert_eq!(s.binary_source, BinarySource::Auto);
    // the same release is then not offered again
    assert_eq!(update_offer(&s.installed_version, "v2.17.0"), None);
    assert!(!is_update_available("v2.17.0", "2.17.0"));
}

#[test]
fn manual_binary_forgets_version() {
    let mut s = Settings::default();
    s.installed_version = Some("2.17.0".into());
    use_manual_binary(&mut s, p("/", &["mine"]));
    assert_eq!(s.binary_source, BinarySource::Manual);
    assert_eq!(s.binary_path, Some(p("/", &["mine"])));
    assert_eq!(s.installed_version, None);
}

#[test]
fn update_offers() {
    assert_eq!(update_offer(&None, "v2.17.0").as_deref(), Some("v2.17.0"));
    assert_eq!(update_offer(&Some("2.16.0".into()), "v2.17.0").as_deref(), Some("v2.17.0"));
    assert_eq!(update_offer(&Some("2.18.0".into()), "v2.17.0"), None);
    // an installed version that cannot be compared gets no offer
    assert_eq!(update_offer(&Some("weird".into()), "v2.17.0"), None);
}

#[test]
fn noalbs_runs_beside_its_config() {
    let mut s = Settings::default();
    s.binary_path = Some(p("/", &["opt", "noalbs", "noalbs"]));
    let (_, cwd) = launch_plan(&s).unwrap();
    let cfg = config_path(&s).unwrap();
    assert_eq!(cwd, p("/", &["opt", "noalbs"]));
    assert_eq!(cfg, p("/", &["opt", "noalbs", "config.json"]));
}

#[test]
fn update_in_place_keeps_config_dir() {
    let mut s = Settings::default();
    s.binary_path = Some(p("/", &["opt", "noalbs", "noalbs"]));
    let before = config_path(&s).unwrap();
    let dest = download_dir(&s, &p("/", &["elsewhere"]));
    record_download(&mut s, dest.join("noalbs"), "v2.18.0");
    assert_eq!(config_path(&s).unwrap(), before);
    assert_eq!(env_path(&s).unwrap(), p("/", &["opt", "noalbs", ".env"]));
}
