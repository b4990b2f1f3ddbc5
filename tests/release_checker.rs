use fresh_editor::release::{
    check_for_update, detect_install_method_from_path, is_arch_linux, is_newer_version,
    parse_version_from_json, InstallMethod, ReleaseCheckResult, UpdateCache, CURRENT_VERSION,
};

#[test]
fn test_is_newer_version() {
    // (current, latest, expected_newer)
    let cases = [
        ("0.1.26", "1.0.0", true),        // major bump
        ("0.1.26", "0.2.0", true),        // minor bump
        ("0.1.26", "0.1.27", true),       // patch bump
        ("0.1.26", "0.1.26", false),      // same
        ("0.1.26", "0.1.25", false),      // older patch
        ("0.2.0", "0.1.26", false),       // older minor
        ("1.0.0", "0.1.26", false),       // older major
        ("0.1.26-alpha", "0.1.27", true), // prerelease current
        ("0.1.26", "0.1.27-beta", true),  // prerelease latest
    ];
    for (current, latest, expected) in cases {
        assert_eq!(
            is_newer_version(current, latest),
            expected,
            "is_newer_version({:?}, {:?})",
            current,
            latest
        );
    }
}

#[test]
fn test_detect_install_method() {
    let cases = [
        (
            "/opt/homebrew/Cellar/fresh/0.1.26/bin/fresh",
            InstallMethod::Homebrew,
        ),
        (
            "/usr/local/Cellar/fresh/0.1.26/bin/fresh",
            InstallMethod::Homebrew,
        ),
        (
            "/home/linuxbrew/.linuxbrew/bin/fresh",
            InstallMethod::Homebrew,
        ),
        ("/home/user/.cargo/bin/fresh", InstallMethod::Cargo),
        (
            "C:\\Users\\user\\.cargo\\bin\\fresh.exe",
            InstallMethod::Cargo,
        ),
        (
            "/usr/local/lib/node_modules/fresh-editor/bin/fresh",
            InstallMethod::Npm,
        ),
        ("/usr/local/bin/fresh", InstallMethod::PackageManager),
        ("/home/user/downloads/fresh", InstallMethod::Unknown),
    ];
    for (path, expected) in cases {
        assert_eq!(
            detect_install_method_from_path(path, None),
            expected,
            "detect_install_method({:?})",
            path
        );
    }
}

#[test]
fn test_parse_version_from_json() {
    // Various JSON formats should all parse correctly
    let cases = [
        (r#"{"tag_name": "v0.1.27"}"#, "0.1.27"),
        (r#"{"tag_name": "0.1.27"}"#, "0.1.27"),
        (
            r#"{"tag_name": "v0.2.0", "name": "v0.2.0", "draft": false}"#,
            "0.2.0",
        ),
    ];
    for (json, expected) in cases {
        assert_eq!(parse_version_from_json(json).unwrap(), expected);
    }

    // Verify mock version is detected as newer than current
    let version = parse_version_from_json(r#"{"tag_name": "v99.0.0"}"#).unwrap();
    assert!(is_newer_version(CURRENT_VERSION, &version));
}

#[test]
fn test_current_version_is_valid() {
    let parts: Vec<&str> = CURRENT_VERSION.split('.').collect();
    assert!(parts.len() >= 2, "Version should have at least major.minor");
    assert!(parts[0].parse::<u32>().is_ok());
    assert!(parts[1].parse::<u32>().is_ok());
}

#[test]
fn parse_version_errors_name_the_missing_part() {
    assert_eq!(
        parse_version_from_json(r#"{"name": "v1.0.0"}"#).unwrap_err(),
        "tag_name not found in response"
    );
    assert_eq!(
        parse_version_from_json(r#"{"tag_name": 5}"#).unwrap_err(),
        "Invalid JSON: missing quote after tag_name"
    );
    assert_eq!(
        parse_version_from_json(r#"{"tag_name": "v1.0"#).unwrap_err(),
        "Invalid JSON: unclosed quote"
    );
    assert_eq!(parse_version_from_json(r#"{"tag_name":"vv2.0"}"#).unwrap(), "v2.0");
}

#[test]
fn version_forms_that_do_not_parse_are_never_newer() {
    assert!(!is_newer_version("0.1.0", "garbage"));
    assert!(!is_newer_version("1", "2"));
    assert!(!is_newer_version("0.1.0", "1.x.0"));
    assert!(is_newer_version("0.1", "0.1.1"));
    assert!(is_newer_version("0.1.0", "+1.0.0"));
    assert!(!is_newer_version("0.1.0", "4294967296.0.0"));
    assert!(is_newer_version("0.1.0", "4294967295.0.0"));
}

#[test]
fn update_check_on_a_response() {
    let r = check_for_update(r#"{"tag_name": "v99.0.0"}"#, InstallMethod::Cargo).unwrap();
    assert_eq!(r.latest_version, "99.0.0");
    assert!(r.update_available);
    assert_eq!(r.install_method, InstallMethod::Cargo);

    let same = format!(r#"{{"tag_name": "v{}"}}"#, CURRENT_VERSION);
    let r = check_for_update(&same, InstallMethod::Unknown).unwrap();
    assert!(!r.update_available);

    assert_eq!(
        check_for_update("{}", InstallMethod::Npm).unwrap_err(),
        "tag_name not found in response"
    );
}

#[test]
fn aur_needs_usr_bin_and_arch() {
    assert!(is_arch_linux(Some("NAME=\"Arch Linux\"\nID=arch\n")));
    assert!(is_arch_linux(Some("ID=arch\n")));
    assert!(!is_arch_linux(Some("ID=debian\n")));
    assert!(!is_arch_linux(None));
    assert_eq!(
        detect_install_method_from_path("/usr/bin/fresh", Some("ID=arch\n")),
        InstallMethod::Aur
    );
    assert_eq!(
        detect_install_method_from_path("/usr/bin/fresh", Some("ID=debian\n")),
        InstallMethod::PackageManager
    );
    assert_eq!(detect_install_method_from_path("/bin/fresh", None), InstallMethod::PackageManager);
}

#[test]
fn update_commands() {
    assert_eq!(InstallMethod::Homebrew.update_command(), Some(" brew upgrade fresh-editor"));
    assert_eq!(
        InstallMethod::Cargo.update_command(),
        Some("cargo install --locked fresh-editor")
    );
    assert_eq!(
        InstallMethod::Npm.update_command(),
        Some("npm update -g @fresh-editor/fresh-editor")
    );
    assert_eq!(
        InstallMethod::PackageManager.update_command(),
        Some("Update using your system package manager")
    );
    assert!(InstallMethod::Aur.update_command().is_some());
    assert_eq!(InstallMethod::Unknown.update_command(), None);
}

#[test]
fn update_cache_before_and_after_results() {
    let mut cache = UpdateCache::new();
    assert!(!cache.is_update_available());
    assert!(cache.latest_version().is_none());
    assert!(cache.get_cached_result().is_none());
    assert!(cache.record(None).is_none());

    let newer = ReleaseCheckResult {
        latest_version: "99.0.0".to_string(),
        update_available: true,
        install_method: InstallMethod::Cargo,
    };
    assert!(matches!(cache.record(Some(Ok(newer))), Some(Ok(_))));
    assert!(cache.is_update_available());
    assert_eq!(cache.latest_version(), Some("99.0.0"));

    // A failed check keeps the last good result.
    assert!(matches!(cache.record(Some(Err("HTTP request failed".to_string()))), Some(Err(_))));
    assert_eq!(cache.latest_version(), Some("99.0.0"));

    let current = ReleaseCheckResult {
        latest_version: CURRENT_VERSION.to_string(),
        update_available: false,
        install_method: InstallMethod::Unknown,
    };
    cache.record(Some(Ok(current)));
    assert!(!cache.is_update_available());
    assert!(cache.latest_version().is_none());
    assert!(cache.get_cached_result().is_some());
}
