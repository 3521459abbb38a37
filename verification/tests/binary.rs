use noalbsgui::binary::{
    binary_file_name, is_update_available, normalize_tag, parse_version_from_banner,
    release_api_url, select_asset, target_for, ReleaseAsset, REPO,
};

fn assets() -> Vec<ReleaseAsset> {
    [
        "aarch64-apple-darwin.tar.gz",
        "x86_64-apple-darwin.tar.gz",
        "x86_64-pc-windows-msvc.zip",
        "x86_64-unknown-linux-musl.tar.gz",
    ]
    .iter()
    .map(|n| ReleaseAsset {
        name: format!("noalbs-v2.17.0-{n}"),
        url: format!("https://example.com/{n}"),
    })
    .collect()
}

#[test]
fn selects_windows_zip() {
    let binding = assets();
    let a = select_asset(&binding, "x86_64-pc-windows-msvc").unwrap();
    assert!(a.name.ends_with(".zip"));
    assert!(a.name.contains("x86_64-pc-windows-msvc"));
}

#[test]
fn selects_mac_arm() {
    let binding = assets();
    let a = select_asset(&binding, "aarch64-apple-darwin").unwrap();
    assert!(a.name.contains("aarch64-apple-darwin"));
}

#[test]
fn unknown_target_returns_none() {
    assert!(select_asset(&assets(), "powerpc-unknown-linux").is_none());
}

#[test]
fn selects_the_first_matching_asset() {
    let mut list = assets();
    list.push(ReleaseAsset { name: "second-x86_64-apple-darwin".into(), url: "u".into() });
    let a = select_asset(&list, "x86_64-apple-darwin").unwrap();
    assert_eq!(a.name, "noalbs-v2.17.0-x86_64-apple-darwin.tar.gz");
}

#[test]
fn target_for_each_released_platform() {
    assert_eq!(target_for("macos", "aarch64"), Some("aarch64-apple-darwin"));
    assert_eq!(target_for("macos", "x86_64"), Some("x86_64-apple-darwin"));
    assert_eq!(target_for("windows", "x86_64"), Some("x86_64-pc-windows-msvc"));
    assert_eq!(target_for("linux", "x86_64"), Some("x86_64-unknown-linux-musl"));
    assert_eq!(target_for("linux", "aarch64"), None);
    assert_eq!(target_for("windows", "aarch64"), None);
}

#[test]
fn parses_version_from_banner() {
    let line = "    ╚═╝  ╚═══╝ ╚═════╝ ╚═╝  ╚═╝╚══════╝╚═════╝ ╚══════╝ v2.17.0";
    assert_eq!(parse_version_from_banner(line).as_deref(), Some("2.17.0"));
}

#[test]
fn banner_without_version_is_none() {
    assert!(parse_version_from_banner("just some log line").is_none());
}

#[test]
fn banner_version_rejects_bad_numbers() {
    // leading zero, too few parts, too many parts, number beyond u64
    assert_eq!(parse_version_from_banner("v01.2.3"), None);
    assert_eq!(parse_version_from_banner("v1.2"), None);
    assert_eq!(parse_version_from_banner("v1.2.3.4"), None);
    assert_eq!(parse_version_from_banner("v99999999999999999999.0.0"), None);
    // only the digits and dots right after the first `v` count
    assert_eq!(parse_version_from_banner("noalbs v0.10.2-beta"), Some("0.10.2".to_string()));
    assert_eq!(parse_version_from_banner("version 1.2.3"), None);
}

#[test]
fn update_available_when_newer() {
    assert!(is_update_available("v2.18.0", "2.17.0"));
    assert!(is_update_available("2.17.1", "2.17.0"));
}

#[test]
fn no_update_when_same_or_older() {
    assert!(!is_update_available("v2.17.0", "2.17.0"));
    assert!(!is_update_available("v2.16.0", "2.17.0"));
}

#[test]
fn update_compares_numbers_not_text() {
    assert!(is_update_available("v2.10.0", "2.9.0"));
    assert!(is_update_available("v10.0.0", "9.9.9"));
    assert!(!is_update_available("garbage", "2.9.0"));
    assert!(!is_update_available("v2.10.0", "unknown"));
}

#[test]
fn prerelease_is_older_than_release() {
    assert!(is_update_available("v2.17.0", "2.17.0-beta.1"));
    assert!(!is_update_available("v2.17.0-beta.1", "2.17.0"));
}

#[test]
fn normalize_tag_drops_one_v() {
    assert_eq!(normalize_tag("v2.17.0"), "2.17.0");
    assert_eq!(normalize_tag("2.17.0"), "2.17.0");
    assert_eq!(normalize_tag("vv1"), "v1");
    assert_eq!(normalize_tag(""), "");
}

#[test]
fn release_api_url_names_the_repo() {
    assert_eq!(
        release_api_url("https://api.github.com"),
        format!("https://api.github.com/repos/{REPO}/releases/latest")
    );
}

#[test]
fn binary_file_names() {
    assert_eq!(binary_file_name(true), "noalbs.exe");
    assert_eq!(binary_file_name(false), "noalbs");
}

#[test]
fn update_order_is_one_way_and_transitive() {
    let vs = ["1.0.0", "v1.0.1", "1.2.0", "v2.0.0", "10.0.0"];
    for a in vs {
        for b in vs {
            assert!(!(is_update_available(a, b) && is_update_available(b, a)), "{a} {b}");
            for c in vs {
                if is_update_available(a, b) && is_update_available(b, c) {
                    assert!(is_update_available(a, c), "{a} {b} {c}");
                }
            }
        }
    }
}

#[test]
fn tag_and_version_are_the_same_release() {
    for installed in ["2.16.0", "2.17.0", "v2.18.0"] {
        assert_eq!(is_update_available("v2.17.0", installed), is_update_available("2.17.0", installed));
    }
}

#[test]
fn pre_release_updates_are_one_way() {
    assert!(is_update_available("v2.0.0-rc.1", "2.0.0-beta"));
    assert!(!is_update_available("2.0.0-beta", "v2.0.0-rc.1"));
    assert!(is_update_available("2.0.0", "2.0.0-rc.1"));
    assert!(!is_update_available("2.0.0-rc.1", "2.0.0"));
    assert!(!is_update_available("2.0.0-rc.1", "v2.0.0-rc.1"));
}
