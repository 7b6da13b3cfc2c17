use seer::update::{
    binary_name, cache_is_stale, checksum_matches, clean_version, compare_versions, confirms_update,
    detect_platform, format_cached_latest, is_up_to_date, latest_release_api_url, no_update_check,
    parse_cached_latest, parse_checksum_from_body, parse_version_parts, release_archive_name,
    release_download_url, release_info, release_tag_api_url, requested_release_tag, staging_path, update_cache_path,
    update_notice, user_agent, PlatformError, ReleaseInfoError, Severity,
};

#[test]
fn clean_version_strips_whitespace_and_v() {
    assert_eq!(clean_version(" v1.2.3 \n"), "1.2.3");
    assert_eq!(clean_version("vv0.2"), "0.2");
    assert_eq!(clean_version("1.0"), "1.0");
    assert_eq!(clean_version("v 1.0"), " 1.0");
}

#[test]
fn version_parts_parse_numeric_prefixes() {
    assert_eq!(parse_version_parts("1.2.3"), [1, 2, 3]);
    assert_eq!(parse_version_parts("1.2"), [1, 2, 0]);
    assert_eq!(parse_version_parts("1.2.3-beta.4"), [1, 2, 3]);
    assert_eq!(parse_version_parts("x.7.y"), [0, 7, 0]);
    assert_eq!(parse_version_parts(""), [0, 0, 0]);
    assert_eq!(parse_version_parts("99999999999999999999.1.1"), [0, 1, 1]);
    assert_eq!(parse_version_parts("18446744073709551615.0.1"), [u64::MAX, 0, 1]);
}

#[test]
fn compare_versions_orders_numerically() {
    assert_eq!(compare_versions("0.10.0", "0.9.9"), 1);
    assert_eq!(compare_versions("0.9.9", "0.10.0"), -1);
    assert_eq!(compare_versions("1.2.3", "1.2.3"), 0);
    assert_eq!(compare_versions("1.2", "1.2.0"), 0);
    assert_eq!(compare_versions("2.0.0", "1.99.99"), 1);
}

#[test]
fn compare_versions_laws_on_samples() {
    let vs = ["0.1.0", "0.1.1", "1.0", "1.0.0", "0.10.2", "3", "2.9.9-rc1"];
    for a in vs {
        assert_eq!(compare_versions(a, a), 0);
        for b in vs {
            assert_eq!(compare_versions(a, b), -compare_versions(b, a));
            for c in vs {
                if compare_versions(a, b) > 0 && compare_versions(b, c) > 0 {
                    assert!(compare_versions(a, c) > 0);
                }
            }
        }
    }
}

#[test]
fn severity_from_release_body() {
    assert_eq!(Severity::from_release_body("notes\n<!-- seer-severity: critical -->\n"), Severity::Critical);
    assert_eq!(Severity::from_release_body("  <!-- seer-severity: major -->\r\n"), Severity::Major);
    assert_eq!(Severity::from_release_body("<!-- seer-severity: minor -->"), Severity::Minor);
    assert_eq!(Severity::from_release_body("seer-severity: critical"), Severity::Minor);
    assert_eq!(Severity::from_release_body(""), Severity::Minor);
    assert_eq!(
        Severity::from_release_body("<!-- seer-severity: unknown -->\n<!-- seer-severity: critical -->"),
        Severity::Minor
    );
}

#[test]
fn severity_names_round_trip() {
    for s in [Severity::Minor, Severity::Major, Severity::Critical] {
        assert_eq!(Severity::from_str(s.as_str()), s);
    }
    assert_eq!(Severity::from_str("bogus"), Severity::Minor);
    assert_eq!(Severity::Critical.as_str(), "critical");
}

#[test]
fn checksum_parsing() {
    let body = "Release\n<!-- seer-checksums\nseer-linux-amd64.tar.gz = abc123\nseer-darwin-arm64.tar.gz=def456 \n-->\n";
    assert_eq!(parse_checksum_from_body(body, "seer-linux-amd64.tar.gz").as_deref(), Some("abc123"));
    assert_eq!(parse_checksum_from_body(body, "seer-darwin-arm64.tar.gz").as_deref(), Some("def456"));
    assert_eq!(parse_checksum_from_body(body, "seer-windows-amd64.tar.gz"), None);
    assert_eq!(parse_checksum_from_body("no comment here", "x"), None);
    assert_eq!(parse_checksum_from_body("<!-- seer-checksums x = 1", "x"), None);
    assert_eq!(parse_checksum_from_body("<!-- seer-checksums\nx = 1 = 2\n-->", "x").as_deref(), Some("1 = 2"));
}

#[test]
fn cache_round_trip() {
    for sev in [Severity::Minor, Severity::Major, Severity::Critical] {
        let text = format_cached_latest("v1.4.0", sev);
        assert_eq!(parse_cached_latest(&text), Some(("v1.4.0".to_string(), sev)));
    }
    assert_eq!(format_cached_latest("v2.0.0", Severity::Major), "v2.0.0:major");
    assert_eq!(parse_cached_latest("  v1.0.0  "), Some(("v1.0.0".to_string(), Severity::Minor)));
    assert_eq!(parse_cached_latest("v1:weird"), Some(("v1".to_string(), Severity::Minor)));
    assert_eq!(parse_cached_latest(" \n "), None);
}

#[test]
fn staleness_and_opt_out() {
    assert!(cache_is_stale(None));
    assert!(cache_is_stale(Some(86400)));
    assert!(!cache_is_stale(Some(86399)));
    assert!(no_update_check(Some("1")));
    assert!(no_update_check(Some("TrUe")));
    assert!(!no_update_check(Some("yes")));
    assert!(!no_update_check(None));
}

#[test]
fn update_notice_only_for_newer_releases() {
    let latest = Some(("v0.3.0".to_string(), Severity::Critical));
    assert_eq!(
        update_notice(&latest, "0.2.9").as_deref(),
        Some("\nNew \x1b[31mcritical\x1b[0m update available: v0.3.0 (current 0.2.9). Run `seer update` now.")
    );
    let minor = Some(("0.3.0".to_string(), Severity::Minor));
    assert_eq!(
        update_notice(&minor, "0.2.9").as_deref(),
        Some("\nNew \x1b[32mminor\x1b[0m update available: 0.3.0 (current 0.2.9). Run `seer update`.")
    );
    assert_eq!(update_notice(&latest, "0.3.0"), None);
    assert_eq!(update_notice(&None, "0.1.0"), None);
}

#[test]
fn update_plan_pieces() {
    assert_eq!(requested_release_tag("0.2.1"), "v0.2.1");
    assert_eq!(requested_release_tag(" v0.2.1"), "v0.2.1");
    assert!(is_up_to_date("v0.2.0", "0.2.0"));
    assert!(is_up_to_date("v0.1.9", "0.2.0"));
    assert!(!is_up_to_date("v0.2.1", "0.2.0"));
    assert!(confirms_update(" YES\n"));
    assert!(confirms_update("y"));
    assert!(!confirms_update("no"));
    assert_eq!(binary_name(true), "seer.exe");
    assert_eq!(binary_name(false), "seer");
    assert_eq!(detect_platform("linux", "x86_64").unwrap(), ("linux", "amd64"));
    assert_eq!(detect_platform("macos", "aarch64").unwrap(), ("darwin", "arm64"));
    assert_eq!(detect_platform("windows", "arm").unwrap(), ("windows", "armv7"));
    match detect_platform("freebsd", "x86_64") {
        Err(PlatformError::UnsupportedOs(os)) => assert_eq!(os, "freebsd"),
        other => panic!("unexpected {:?}", other),
    }
    match detect_platform("linux", "riscv64") {
        Err(PlatformError::UnsupportedArch(a)) => assert_eq!(a, "riscv64"),
        other => panic!("unexpected {:?}", other),
    }
    assert_eq!(release_archive_name("linux", "amd64"), "seer-linux-amd64.tar.gz");
    assert_eq!(
        release_download_url("v0.2.1", "seer-linux-amd64.tar.gz"),
        "https://github.com/SeerApp/cli/releases/download/v0.2.1/seer-linux-amd64.tar.gz"
    );
    assert_eq!(release_tag_api_url("v1"), "https://api.github.com/repos/SeerApp/cli/releases/tags/v1");
    assert_eq!(latest_release_api_url(), "https://api.github.com/repos/SeerApp/cli/releases/latest");
    assert_eq!(user_agent("0.2.0"), "seer-cli/0.2.0");
    assert_eq!(update_cache_path("/home/u/.config"), "/home/u/.config/seer/cli/update_check");
}

#[test]
fn release_info_needs_a_tag() {
    assert_eq!(release_info(None, Some("x")), Err(ReleaseInfoError::MissingTagName));
    assert_eq!(
        release_info(Some("v1.0.0"), Some("<!-- seer-severity: major -->")),
        Ok(("v1.0.0".to_string(), Severity::Major))
    );
    assert_eq!(release_info(Some("v1.0.0"), None), Ok(("v1.0.0".to_string(), Severity::Minor)));
}

#[test]
fn checksum_comparison_uses_lower_hex() {
    let digest = seer::run::blobs::file_digest(b"abc");
    assert!(checksum_matches(&digest, "ba7816bf8f01cfea414140de5dae2223b00361a396177a9cb410ff61f20015ad"));
    assert!(!checksum_matches(&digest, "BA7816BF8F01CFEA414140DE5DAE2223B00361A396177A9CB410FF61F20015AD"));
}

#[test]
fn staging_path_sits_beside_the_binary() {
    assert_eq!(staging_path("/usr/local/bin/seer"), "/usr/local/bin/seer.new");
    assert_eq!(staging_path("/opt/seer/seer.exe"), "/opt/seer/seer.new");
}
