use gpu_shark::autostart::{
    create_task_arguments, creation_outcome, delete_task_arguments, is_enabled,
    query_task_arguments, removal_outcome, task_command,
};

#[test]
fn query_reflects_initially_absent_task() {
    // The scheduler reports a task that is not there as a failed query; the
    // answer must be a plain boolean either way.
    let _ = is_enabled(Ok(false));
}

#[test]
fn autostart_is_on_only_for_a_successful_query() {
    assert!(is_enabled(Ok(true)));
    assert!(!is_enabled(Ok(false)));
    assert!(!is_enabled(Err("Could not run schtasks: not found".to_owned())));
}

#[test]
fn the_logon_task_runs_the_quoted_executable_with_highest_privileges() {
    assert_eq!(task_command(r"C:\Apps\GPU Shark.exe"), r#""C:\Apps\GPU Shark.exe""#);
    assert_eq!(
        create_task_arguments(r"C:\a.exe"),
        [
            "/Create", "/F", "/RL", "HIGHEST", "/SC", "ONLOGON", "/TN", "GPU Shark", "/TR",
            r#""C:\a.exe""#,
        ]
    );
    assert_eq!(delete_task_arguments(), ["/Delete", "/F", "/TN", "GPU Shark"]);
    assert_eq!(query_task_arguments(), ["/Query", "/TN", "GPU Shark"]);
}

#[test]
fn scheduler_failures_are_reported_trimmed() {
    assert!(creation_outcome(true, b"ignored").is_ok());
    assert_eq!(
        creation_outcome(false, b"  ERROR: Access is denied.\r\n").unwrap_err(),
        "Could not create the startup task: ERROR: Access is denied."
    );
    // Invalid UTF-8 is replaced, not refused.
    assert_eq!(
        creation_outcome(false, b"bad \xff").unwrap_err(),
        "Could not create the startup task: bad \u{fffd}"
    );
}

#[test]
fn removing_a_missing_task_counts_as_removed() {
    assert!(removal_outcome(true, b"").is_ok());
    assert!(removal_outcome(
        false,
        b"ERROR: The system cannot find the file specified. The task does not exist.\r\n"
    )
    .is_ok());
    assert!(removal_outcome(false, "ОШИБКА: задача не существует.".as_bytes()).is_ok());
    assert_eq!(
        removal_outcome(false, b" ERROR: Access is denied. ").unwrap_err(),
        "Could not remove the startup task: ERROR: Access is denied."
    );
}
