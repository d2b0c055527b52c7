use maxalert::update::{
    external_url_allowed, parse_update_manifest, sibling_url, update_url_allowed, urlencode,
    version_is_newer, UpdateManifest, parse_numeric_version, should_announce_version,
};

#[test]
fn update_url_scheme_restriction() {
    assert!(update_url_allowed("https://github.com/x/latest.yml"));
    assert!(update_url_allowed("http://127.0.0.1:8899/latest.yml"));
    assert!(update_url_allowed("http://localhost:8899/latest.yml"));
    assert!(!update_url_allowed("http://100.95.243.74:8899/latest.yml"));
    assert!(!update_url_allowed("ftp://example.com/latest.yml"));
}

#[test]
fn update_manifest_parses_electron_builder_latest_yml() {
    let yml = "version: 0.1.17\nfiles:\n  - url: MaxAlert-Setup-0.1.17.exe\n    sha512: nested==\n    size: 96034228\npath: MaxAlert-Setup-0.1.17.exe\nsha512: topLevel==\nreleaseDate: '2026-07-15T03:38:44.350Z'\n";
    assert_eq!(
        parse_update_manifest(yml),
        Some(UpdateManifest {
            version: "0.1.17".into(),
            path: "MaxAlert-Setup-0.1.17.exe".into(),
            sha512_b64: "topLevel==".into(),
        })
    );
}

#[test]
fn update_manifest_rejects_incomplete_yml() {
    assert_eq!(parse_update_manifest("version: 0.2.2\n"), None);
    assert_eq!(parse_update_manifest(""), None);
}

#[test]
fn sibling_url_joins_manifest_directory() {
    assert_eq!(
        sibling_url(
            "https://github.com/o/r/releases/latest/download/latest.yml",
            "MaxAlert-Setup-0.2.2.exe"
        )
        .as_deref(),
        Some("https://github.com/o/r/releases/latest/download/MaxAlert-Setup-0.2.2.exe")
    );
    assert_eq!(sibling_url("no-slash", "a.exe"), None);
}

#[test]
fn version_comparison_detects_upgrade() {
    assert_eq!(version_is_newer("0.2.2", "0.2.1"), Some(true));
    assert_eq!(version_is_newer("1.0.0", "0.99.99"), Some(true));
}

#[test]
fn version_comparison_rejects_equal_version() {
    assert_eq!(version_is_newer("0.2.1", "0.2.1"), Some(false));
}

#[test]
fn version_comparison_rejects_downgrade() {
    assert_eq!(version_is_newer("0.2.0", "0.2.1"), Some(false));
    assert_eq!(version_is_newer("0.9.9", "1.0.0"), Some(false));
}

#[test]
fn version_comparison_ignores_parse_failures() {
    assert_eq!(version_is_newer("0.2", "0.2.1"), None);
    assert_eq!(version_is_newer("v0.2.2", "0.2.1"), None);
    assert_eq!(version_is_newer("0.2.2.1", "0.2.1"), None);
    assert_eq!(version_is_newer("0.two.2", "0.2.1"), None);
    assert_eq!(version_is_newer("0.2.2", "current"), None);
}

#[test]
fn numeric_version_accepts_plus_sign_and_rejects_overflow() {
    assert_eq!(parse_numeric_version("+1.2.3"), Some((1, 2, 3)));
    assert_eq!(parse_numeric_version("18446744073709551615.0.0"), Some((u64::MAX, 0, 0)));
    assert_eq!(parse_numeric_version("18446744073709551616.0.0"), None);
    assert_eq!(parse_numeric_version("1..2"), None);
    assert_eq!(parse_numeric_version("-1.2.3"), None);
}

#[test]
fn manifest_last_key_wins_and_quotes_are_removed() {
    let yml = "version: '1.0.0'\r\npath: \"a.exe\"\nsha512: x\nversion: 2.0.0\n- path: b.exe\n";
    assert_eq!(
        parse_update_manifest(yml),
        Some(UpdateManifest {
            version: "2.0.0".into(),
            path: "a.exe".into(),
            sha512_b64: "x".into(),
        })
    );
    // an empty value does not count
    assert_eq!(parse_update_manifest("version:\npath: p\nsha512: h\n"), None);
}

#[test]
fn external_urls_stay_on_the_download_site() {
    assert!(external_url_allowed("https://lounge.aimax.ai.kr"));
    assert!(external_url_allowed("https://lounge.aimax.ai.kr/download"));
    assert!(external_url_allowed("https://lounge.aimax.ai.kr?x=1"));
    assert!(external_url_allowed("https://lounge.aimax.ai.kr#top"));
    assert!(!external_url_allowed("https://lounge.aimax.ai.kr.evil.com"));
    assert!(!external_url_allowed("http://lounge.aimax.ai.kr"));
}

#[test]
fn urlencode_keeps_unreserved_and_escapes_the_rest() {
    assert_eq!(urlencode("a-b_c.d~E9"), "a-b_c.d~E9");
    assert_eq!(urlencode("a b/c"), "a%20b%2Fc");
    assert_eq!(urlencode("타"), "%ED%83%80");
}

#[test]
fn new_versions_are_announced_once() {
    let announced = vec!["0.3.0".to_string()];
    assert!(should_announce_version("0.2.2", "0.2.1", &announced));
    assert!(!should_announce_version("0.3.0", "0.2.1", &announced));
    assert!(!should_announce_version("0.2.1", "0.2.1", &announced));
    assert!(!should_announce_version("x", "0.2.1", &announced));
}
