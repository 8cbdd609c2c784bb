use gpu_shark::updates::{
    advance_install, install_prepared, package_ready, InstallProgress, InstallStep,
    LatestRelease, ReleaseAsset, UpdateClick, UpdateStatus, UpdateTracker,
};

// SHA-256 of "abc".
const HASH: &str = "ba7816bf8f01cfea414140de5dae2223b00361a396177a9cb410ff61f20015ad";

fn asset(name: &str) -> ReleaseAsset {
    ReleaseAsset {
        name: name.to_owned(),
        browser_download_url: format!("https://example.invalid/{name}"),
    }
}

fn release(assets: Vec<ReleaseAsset>) -> LatestRelease {
    LatestRelease {
        tag_name: "v0.2.5".to_owned(),
        html_url: "https://example.invalid/release".to_owned(),
        assets,
    }
}

fn packaged() -> LatestRelease {
    release(vec![asset("GPU-Shark-win-x64.zip"), asset("SHA256SUMS.txt")])
}

#[test]
fn a_package_is_unpacked_only_with_a_matching_listed_digest() {
    let sums = format!("{HASH}  GPU-Shark-win-x64.zip\n");
    assert_eq!(package_ready(&packaged(), sums.as_bytes(), b"abc"), Ok(()));
    let upper = format!("{}  GPU-Shark-win-x64.zip\n", HASH.to_ascii_uppercase());
    assert_eq!(package_ready(&packaged(), upper.as_bytes(), b"abc"), Ok(()));
    let mismatch = package_ready(&packaged(), sums.as_bytes(), b"abd").unwrap_err();
    assert!(mismatch.starts_with(&format!(
        "Checksum mismatch: expected {}, got ",
        HASH.to_ascii_uppercase()
    )));
    assert_eq!(
        package_ready(&packaged(), b"junk\n", b"abc").unwrap_err(),
        "SHA256SUMS has no entry for GPU-Shark-win-x64.zip"
    );
    assert_eq!(
        package_ready(&release(vec![asset("GPU-Shark-win-x64.zip")]), sums.as_bytes(), b"abc")
            .unwrap_err(),
        "The release has no verifiable package"
    );
}

/// Runs an install whose file work fails at `failing`, if ever; returns the
/// steps performed and the result.
fn run(failing: Option<&str>) -> (Vec<String>, Result<(), String>) {
    let mut steps = Vec::new();
    let mut step = install_prepared();
    loop {
        let name = match &step {
            InstallStep::ClearBackup => "clear",
            InstallStep::Backup => "backup",
            InstallStep::Place => "place",
            InstallStep::RestoreBackup { .. } => "restore",
        };
        steps.push(name.to_owned());
        let outcome = if Some(name) == failing {
            Err("denied".to_owned())
        } else {
            Ok(())
        };
        match advance_install(step, outcome) {
            InstallProgress::Perform(next) => step = next,
            InstallProgress::Finished(result) => return (steps, result),
        }
    }
}

#[test]
fn an_install_keeps_a_backup_and_restores_it_when_placing_fails() {
    assert_eq!(run(None), (vec!["clear".into(), "backup".into(), "place".into()], Ok(())));
    assert_eq!(
        run(Some("clear")),
        (vec!["clear".into(), "backup".into(), "place".into()], Ok(()))
    );
    assert_eq!(
        run(Some("backup")),
        (
            vec!["clear".into(), "backup".into()],
            Err("Could not back up the current executable: denied".to_owned())
        )
    );
    assert_eq!(
        run(Some("place")),
        (
            vec!["clear".into(), "backup".into(), "place".into(), "restore".into()],
            Err("Could not place the update: denied".to_owned())
        )
    );
}

#[test]
fn a_check_at_most_offers_a_download() {
    let mut tracker = UpdateTracker::new();
    assert!(tracker.begin_check());
    tracker.finish_check(Ok(packaged()));
    assert!(matches!(tracker.snapshot(), UpdateStatus::Available { .. }));
    assert!(matches!(tracker.click(), UpdateClick::Download));
    let mut failed = UpdateTracker::new();
    assert!(failed.begin_check());
    failed.finish_check(Err("offline".to_owned()));
    assert!(matches!(failed.click(), UpdateClick::Check));
}
