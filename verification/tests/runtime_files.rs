use gpu_shark::runtime_files::{
    advance_replace, replace_file, runtime_location, same_contents, ReplacePaths, ReplaceProgress, ReplaceStep,
    RuntimeLocation, StepOutcome,
};

fn paths() -> ReplacePaths {
    ReplacePaths {
        destination: "R/gs.dll".to_owned(),
        temporary: "R/gs.dll.new".to_owned(),
        previous: "R/gs.dll.previous".to_owned(),
    }
}

/// Runs a replacement in which the installed file is `same` as wanted and
/// the file work fails at `failing`, if ever.
fn run(same: bool, failing: Option<ReplaceStep>) -> (Vec<ReplaceStep>, Result<(), String>) {
    let mut steps = Vec::new();
    let mut job = replace_file(paths());
    loop {
        steps.push(job.step);
        let outcome = match job.step {
            ReplaceStep::CompareInstalled => StepOutcome::Same(same),
            step if Some(step) == failing => StepOutcome::Done(Err("in use".to_owned())),
            _ => StepOutcome::Done(Ok(())),
        };
        match advance_replace(job, outcome) {
            ReplaceProgress::Finished(result) => return (steps, result),
            ReplaceProgress::Perform(next) => job = next,
        }
    }
}

#[test]
fn replaces_a_stale_embedded_runtime_file() {
    let (steps, result) = run(false, None);
    assert!(result.is_ok());
    assert_eq!(
        steps,
        [
            ReplaceStep::CompareInstalled,
            ReplaceStep::WriteTemporary,
            ReplaceStep::ClearPrevious,
            ReplaceStep::SetAside,
            ReplaceStep::Activate,
            ReplaceStep::Finalize,
        ]
    );
}

#[test]
fn an_up_to_date_runtime_file_is_left_alone() {
    let (steps, result) = run(true, None);
    assert!(result.is_ok());
    assert_eq!(steps, [ReplaceStep::CompareInstalled]);
}

#[test]
fn failures_name_the_file_involved() {
    assert_eq!(
        run(false, Some(ReplaceStep::WriteTemporary)).1.unwrap_err(),
        "Cannot extract R/gs.dll.new: in use"
    );
    assert_eq!(
        run(false, Some(ReplaceStep::SetAside)).1.unwrap_err(),
        "Cannot update R/gs.dll (close every GPU Shark window and try again): in use"
    );
    let (steps, result) = run(false, Some(ReplaceStep::Activate));
    assert_eq!(*steps.last().unwrap(), ReplaceStep::RestorePrevious);
    assert_eq!(result.unwrap_err(), "Cannot activate R/gs.dll: in use");
    assert_eq!(
        run(false, Some(ReplaceStep::Finalize)).1.unwrap_err(),
        "Cannot finalize R/gs.dll.previous: in use"
    );
}

#[test]
fn the_runtime_next_to_the_executable_wins() {
    assert_eq!(runtime_location(true, true), RuntimeLocation::BesideExecutable);
    assert_eq!(runtime_location(false, true), RuntimeLocation::Unpacked);
    assert_eq!(runtime_location(false, false), RuntimeLocation::BesideExecutable);
}

#[test]
fn installed_files_are_compared_byte_for_byte() {
    assert!(same_contents(Some(b"MZ\x90\x00"), b"MZ\x90\x00"));
    assert!(!same_contents(Some(b"MZ\x90\x01"), b"MZ\x90\x00"));
    assert!(!same_contents(Some(b"MZ\x90"), b"MZ\x90\x00"));
    assert!(!same_contents(None, b""));
    assert!(same_contents(Some(b""), b""));
}
