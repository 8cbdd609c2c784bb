use gpu_shark::gui_i18n::Key;
use gpu_shark::updates::{
    check_outcome, check_package_size, current_version, expected_sha256, find_package,
    is_newer, is_package_executable, next_response_limit, prepare_outcome, release_directory,
    split_https_url, update_action_key, update_status_key, verify_sha256, LatestRelease, PreparedUpdate, ReleaseAsset, UpdateClick,
    UpdateStatus, UpdateTracker,
};

#[test]
fn newer_semver_is_detected() {
    assert!(is_newer("0.2.5", "0.2.4"));
    assert!(is_newer("v1.0.0", "0.99.99"));
    assert!(is_newer("0.3.0-beta.1", "0.2.4-beta.9"));
    assert!(!is_newer("0.2.4-beta.2", "0.2.5"));
}

#[test]
fn stable_releases_outrank_prereleases() {
    assert!(is_newer("0.2.4", "0.2.4-beta.2"));
    assert!(!is_newer("0.2.4-beta.1", "0.2.4"));
}

#[test]
fn beta_identifiers_compare_numerically() {
    assert!(is_newer("0.2.4-beta.2", "0.2.4-beta.1"));
    assert!(is_newer("0.2.4-beta.10", "0.2.4-beta.9"));
    assert!(!is_newer("0.2.4-beta.2", "0.2.4-beta.10"));
    assert!(is_newer("0.2.4-rc.1", "0.2.4-beta.9"));
}

#[test]
fn equal_versions_and_garbage_do_not_report_updates() {
    assert!(!is_newer("0.2.4-beta.1", "v0.2.4-beta.1"));
    assert!(!is_newer("0.2.4", "0.2.4"));
    assert!(!is_newer("", "0.2.4"));
    assert!(!is_newer("garbage", "garbage"));
}

#[test]
fn current_version_is_exposed() {
    assert!(!current_version().is_empty());
}

#[test]
fn version_edge_cases() {
    // Missing core parts count as zero; unparsable parts too.
    assert!(!is_newer("1.0", "1.0.0"));
    assert!(is_newer("1.0.1", "1"));
    assert!(!is_newer("1.x", "1.0"));
    // When the shared identifiers agree, the shorter list ranks higher.
    assert!(!is_newer("1.0.0-beta.1.1", "1.0.0-beta.1"));
    assert!(is_newer("1.0.0-beta.1", "1.0.0-beta.1.1"));
    // Underscores separate identifiers too, and empty ones are dropped.
    assert!(!is_newer("1.0.0-beta_2", "1.0.0-beta..2"));
    assert_eq!(current_version(), "0.2.4-beta.3");
}

fn asset(name: &str) -> ReleaseAsset {
    ReleaseAsset {
        name: name.to_owned(),
        browser_download_url: format!("https://example.invalid/{name}"),
    }
}

fn release(tag: &str, assets: Vec<ReleaseAsset>) -> LatestRelease {
    LatestRelease {
        tag_name: tag.to_owned(),
        html_url: "https://example.invalid/release".to_owned(),
        assets,
    }
}

#[test]
fn the_named_package_is_preferred_over_other_archives() {
    let r = release(
        "v0.3.0",
        vec![
            asset("other.zip"),
            asset("GPU-Shark-win-x64.zip"),
            asset("checksums-sha256.txt"),
            asset("sha256sums.TXT"),
        ],
    );
    let (package, sums) = find_package(&r).expect("verifiable package");
    assert_eq!(package.name, "GPU-Shark-win-x64.zip");
    assert_eq!(sums.name, "sha256sums.TXT");

    let r = release("v0.3.0", vec![asset("notes.md"), asset("bundle.zip"), asset("list.Sha256")]);
    let (package, sums) = find_package(&r).expect("fallback assets");
    assert_eq!(package.name, "bundle.zip");
    assert_eq!(sums.name, "list.Sha256");

    assert!(find_package(&release("v1", vec![asset("bundle.zip")])).is_none());
    assert!(find_package(&release("v1", vec![asset("SHA256SUMS.txt")])).is_none());
}

#[test]
fn only_https_urls_are_split() {
    assert_eq!(
        split_https_url("https://github.com/k1gs/Gpu-Shark/releases").unwrap(),
        ("github.com".to_owned(), "/k1gs/Gpu-Shark/releases".to_owned())
    );
    assert_eq!(
        split_https_url("https://example.invalid").unwrap(),
        ("example.invalid".to_owned(), "/".to_owned())
    );
    assert_eq!(
        split_https_url("http://example.invalid/x").unwrap_err(),
        "Only https URLs are supported"
    );
}

#[test]
fn sizes_and_read_budgets() {
    assert!(check_package_size(64 * 1024 * 1024).is_ok());
    assert_eq!(
        check_package_size(64 * 1024 * 1024 + 1).unwrap_err(),
        "Package is too large"
    );
    assert_eq!(next_response_limit(10, 100, 10), Some(90));
    assert_eq!(next_response_limit(101, 100, 1), None);
}

#[test]
fn release_directories_drop_the_v_prefix() {
    assert_eq!(release_directory(" v0.3.0 "), "0.3.0");
    assert_eq!(release_directory("0.3.0"), "0.3.0");
}

const HASH: &str = "ba7816bf8f01cfea414140de5dae2223b00361a396177a9cb410ff61f20015ad";

#[test]
fn checksum_lists_are_read_line_by_line() {
    let sums = format!("junk\r\n{HASH}  other.zip\n{HASH}  GPU-Shark-win-x64.zip\r\n");
    assert_eq!(
        expected_sha256(sums.as_bytes(), "GPU-Shark-win-x64.zip").unwrap(),
        HASH.to_ascii_uppercase()
    );
    assert_eq!(
        expected_sha256(b"abc GPU-Shark-win-x64.zip\n", "GPU-Shark-win-x64.zip").unwrap_err(),
        "SHA256SUMS has no entry for GPU-Shark-win-x64.zip"
    );
}

#[test]
fn packages_are_accepted_only_with_the_listed_digest() {
    // SHA-256 of "abc".
    assert!(verify_sha256(b"abc", HASH).is_ok());
    assert!(verify_sha256(b"abc", &HASH.to_ascii_uppercase()).is_ok());
    let error = verify_sha256(b"abd", HASH).unwrap_err();
    assert!(error.starts_with("Checksum mismatch: expected ba7816bf"));
}

#[test]
fn package_executables_are_matched_without_case() {
    assert!(is_package_executable("gpu-shark.EXE"));
    assert!(is_package_executable("GPU-Shark-GUI.exe"));
    assert!(!is_package_executable("GPU-Shark.exe.old"));
}

#[test]
fn check_and_download_outcomes() {
    match check_outcome(Ok(release("v9.0.0", vec![]))) {
        UpdateStatus::Available { latest, url } => {
            assert_eq!(latest, "v9.0.0");
            assert_eq!(url, "https://example.invalid/release");
        }
        other => panic!("unexpected {other:?}"),
    }
    assert!(matches!(
        check_outcome(Ok(release("0.2.4-beta.3", vec![]))),
        UpdateStatus::UpToDate
    ));
    assert!(matches!(
        check_outcome(Err("offline".to_owned())),
        UpdateStatus::Failed(e) if e == "offline"
    ));
    assert!(matches!(
        prepare_outcome(Err("bad zip".to_owned())),
        UpdateStatus::InstallFailed { detail, url } if detail == "bad zip" && url.is_empty()
    ));
    let ready = prepare_outcome(Ok(PreparedUpdate {
        exe_path: "C:/u/GPU-Shark.exe".to_owned(),
        page_url: "https://example.invalid/release".to_owned(),
    }));
    assert!(matches!(ready, UpdateStatus::ReadyToInstall { .. }));
}

#[test]
fn one_update_task_runs_at_a_time() {
    let mut tracker = UpdateTracker::new();
    assert!(matches!(tracker.snapshot(), UpdateStatus::Idle));
    assert!(matches!(tracker.click(), UpdateClick::Check));
    assert!(tracker.begin_check());
    assert!(matches!(tracker.snapshot(), UpdateStatus::Checking));
    assert!(matches!(tracker.click(), UpdateClick::Wait));
    assert!(!tracker.begin_download());
    tracker.finish_check(Ok(release("v9.0.0", vec![])));
    assert!(matches!(tracker.click(), UpdateClick::Download));
    assert_eq!(
        tracker.release_page().as_deref(),
        Some("https://example.invalid/release")
    );
    assert!(tracker.begin_download());
    tracker.finish_download(Ok(PreparedUpdate {
        exe_path: "C:/u/GPU-Shark.exe".to_owned(),
        page_url: "https://example.invalid/release".to_owned(),
    }));
    match tracker.click() {
        UpdateClick::Install(path) => assert_eq!(path, "C:/u/GPU-Shark.exe"),
        other => panic!("unexpected {other:?}"),
    }
    assert!(tracker.begin_install());
    assert!(!tracker.begin_check());
    assert!(!tracker.finish_install(Err("locked".to_owned())));
    assert!(matches!(
        tracker.snapshot(),
        UpdateStatus::InstallFailed { detail, .. } if detail == "locked"
    ));
    assert!(tracker.release_page().is_none());
    assert!(tracker.begin_install());
    assert!(tracker.finish_install(Ok(())));
}

#[test]
fn a_leading_v_and_missing_core_parts_do_not_matter() {
    assert!(!is_newer("1.0", "1.0.0"));
    assert!(!is_newer("1.0.0", "1.0"));
    assert!(!is_newer("1.0-beta.1", "1.0.0-beta.1"));
    for (a, b) in [("0.2.5", "0.2.4"), ("0.2.4", "0.2.5"), ("0.3.0-beta.1", "0.3.0")] {
        assert_eq!(is_newer(&format!("v{a}"), b), is_newer(a, b));
        assert_eq!(is_newer(b, &format!("v{a}")), is_newer(b, a));
    }
}

#[test]
fn the_about_panel_names_the_update_status_and_action() {
    assert_eq!(update_status_key(&UpdateStatus::Idle, true), None);
    assert_eq!(update_status_key(&UpdateStatus::Idle, false), Some(Key::UpdateDisabled));
    assert_eq!(update_status_key(&UpdateStatus::Checking, true), Some(Key::UpdateChecking));
    assert_eq!(
        update_status_key(&UpdateStatus::Failed("offline".to_owned()), true),
        Some(Key::UpdateFailed)
    );
    assert_eq!(update_action_key(&UpdateClick::Check), Some(Key::UpdateCheck));
    assert_eq!(update_action_key(&UpdateClick::Download), Some(Key::UpdateInstall));
    assert_eq!(
        update_action_key(&UpdateClick::Install("x.exe".to_owned())),
        Some(Key::UpdateRestart)
    );
    assert_eq!(update_action_key(&UpdateClick::Wait), None);
}
