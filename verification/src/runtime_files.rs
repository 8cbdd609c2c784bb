//! Unpacking the runtime DLLs that a standalone build carries: each file is
//! written next to the one it replaces and swapped in only once complete,
//! and a file that is already up to date is left alone.

use vstd::prelude::*;

verus! {

/// A piece of file work in replacing one runtime file. The caller performs
/// it and reports how it went.
#[derive(Clone, Copy, Debug, PartialEq, Eq, Structural)]
pub enum ReplaceStep {
    /// Read the installed file and report whether it already holds the
    /// wanted bytes (a file that cannot be read does not).
    CompareInstalled,
    /// Write the wanted bytes to the temporary file.
    WriteTemporary,
    /// Remove a leftover previous copy, if there is one.
    ClearPrevious,
    /// Move the installed file, if there is one, aside as the previous copy.
    SetAside,
    /// Move the temporary file into place.
    Activate,
    /// Move the previous copy back into place; how this goes is not reported.
    RestorePrevious,
    /// Remove the previous copy, if there is one.
    Finalize,
}

/// How the files involved are shown in messages.
#[derive(Clone, Debug)]
pub struct ReplacePaths {
    pub destination: String,
    pub temporary: String,
    pub previous: String,
}

/// A replacement in progress: the step to perform next.
#[derive(Clone, Debug)]
pub struct ReplaceJob {
    pub step: ReplaceStep,
    pub paths: ReplacePaths,
    /// Why activation failed, once it has.
    pub activation_error: Option<String>,
}

/// What to do next.
#[derive(Debug)]
pub enum ReplaceProgress {
    /// Perform the job's step and report its outcome to `advance_replace`.
    Perform(ReplaceJob),
    /// The replacement is over.
    Finished(Result<(), String>),
}

/// How a step went: `Same` answers the comparison, the rest the file work.
pub enum StepOutcome {
    Same(bool),
    Done(Result<(), String>),
}

/// The step that follows `step` when it went as it should, if any.
pub open spec fn next_replace_step(step: ReplaceStep) -> Option<ReplaceStep> {
    match step {
        ReplaceStep::CompareInstalled => Some(ReplaceStep::WriteTemporary),
        ReplaceStep::WriteTemporary => Some(ReplaceStep::ClearPrevious),
        ReplaceStep::ClearPrevious => Some(ReplaceStep::SetAside),
        ReplaceStep::SetAside => Some(ReplaceStep::Activate),
        ReplaceStep::Activate => Some(ReplaceStep::Finalize),
        ReplaceStep::RestorePrevious => None,
        ReplaceStep::Finalize => None,
    }
}

/// The error a failed `step` ends the replacement with.
pub open spec fn replace_error(step: ReplaceStep, paths: ReplacePaths, error: Seq<char>) -> Seq<
    char,
> {
    match step {
        ReplaceStep::WriteTemporary => "Cannot extract "@ + paths.temporary@ + ": "@ + error,
        ReplaceStep::ClearPrevious => "Cannot prepare "@ + paths.previous@ + ": "@ + error,
        ReplaceStep::SetAside => "Cannot update "@ + paths.destination@
            + " (close every GPU Shark window and try again): "@ + error,
        ReplaceStep::Finalize => "Cannot finalize "@ + paths.previous@ + ": "@ + error,
        _ => "Cannot activate "@ + paths.destination@ + ": "@ + error,
    }
}

/// Starts replacing one runtime file.
pub fn replace_file(paths: ReplacePaths) -> (r: ReplaceJob)
    ensures
        r.step == ReplaceStep::CompareInstalled,
        r.paths == paths,
        r.activation_error is None,
{
    ReplaceJob { step: ReplaceStep::CompareInstalled, paths, activation_error: None }
}

fn replace_message(step: ReplaceStep, paths: &ReplacePaths, error: &str) -> (r: String)
    ensures
        r@ == replace_error(step, *paths, error@),
{
    let parts: Vec<&str> = match step {
        ReplaceStep::WriteTemporary => vec!["Cannot extract ", paths.temporary.as_str(), ": ", error],
        ReplaceStep::ClearPrevious => vec!["Cannot prepare ", paths.previous.as_str(), ": ", error],
        ReplaceStep::SetAside => vec![
            "Cannot update ",
            paths.destination.as_str(),
            " (close every GPU Shark window and try again): ",
            error,
        ],
        ReplaceStep::Finalize => vec!["Cannot finalize ", paths.previous.as_str(), ": ", error],
        _ => vec!["Cannot activate ", paths.destination.as_str(), ": ", error],
    };
    let r = crate::text::joined(parts.as_slice());
    proof {
        let f = |acc: Seq<char>, p: &str| acc + p@;
        reveal_with_fuel(Seq::fold_left, 5);
        assert(parts@.fold_left(Seq::<char>::empty(), f) =~= replace_error(step, *paths, error@));
    }
    r
}

/// Takes in how the job's step went. An installed file that already holds
/// the wanted bytes ends the replacement at once. Every other step leads to
/// the next one when it went well, and the last one to success; a failed
/// activation leads to putting the previous copy back and then to the
/// activation's error; any other failure ends with that step's error.
pub fn advance_replace(job: ReplaceJob, outcome: StepOutcome) -> (r: ReplaceProgress)
    ensures
        job.step == ReplaceStep::CompareInstalled ==> (match outcome {
            StepOutcome::Same(true) => r matches ReplaceProgress::Finished(Ok(())),
            _ => r matches ReplaceProgress::Perform(j) && j.step == ReplaceStep::WriteTemporary
                && j.paths == job.paths && j.activation_error == job.activation_error,
        }),
        job.step == ReplaceStep::RestorePrevious ==> (r matches ReplaceProgress::Finished(Err(e))
            && e@ == replace_error(
            ReplaceStep::Activate,
            job.paths,
            match job.activation_error {
                Some(a) => a@,
                None => Seq::<char>::empty(),
            },
        )),
        job.step != ReplaceStep::CompareInstalled && job.step != ReplaceStep::RestorePrevious
            ==> (match outcome {
            StepOutcome::Done(Err(e)) => if job.step == ReplaceStep::Activate {
                r matches ReplaceProgress::Perform(j) && j.step == ReplaceStep::RestorePrevious
                    && j.paths == job.paths && (j.activation_error matches Some(a) && a@ == e@)
            } else {
                r matches ReplaceProgress::Finished(Err(m)) && m@ == replace_error(
                    job.step,
                    job.paths,
                    e@,
                )
            },
            _ => match next_replace_step(job.step) {
                Some(next) => r matches ReplaceProgress::Perform(j) && j.step == next && j.paths
                    == job.paths && j.activation_error == job.activation_error,
                None => r matches ReplaceProgress::Finished(Ok(())),
            },
        }),
{
    let ReplaceJob { step, paths, activation_error } = job;
    if step == ReplaceStep::CompareInstalled {
        return match outcome {
            StepOutcome::Same(true) => ReplaceProgress::Finished(Ok(())),
            _ => ReplaceProgress::Perform(
                ReplaceJob { step: ReplaceStep::WriteTemporary, paths, activation_error },
            ),
        };
    }
    if step == ReplaceStep::RestorePrevious {
        let reason = match activation_error {
            Some(a) => a,
            None => String::new(),
        };
        return ReplaceProgress::Finished(
            Err(replace_message(ReplaceStep::Activate, &paths, reason.as_str())),
        );
    }
    match outcome {
        StepOutcome::Done(Err(error)) => {
            if step == ReplaceStep::Activate {
                ReplaceProgress::Perform(
                    ReplaceJob {
                        step: ReplaceStep::RestorePrevious,
                        paths,
                        activation_error: Some(error),
                    },
                )
            } else {
                ReplaceProgress::Finished(Err(replace_message(step, &paths, error.as_str())))
            }
        },
        _ => {
            let next = match step {
                ReplaceStep::WriteTemporary => Some(ReplaceStep::ClearPrevious),
                ReplaceStep::ClearPrevious => Some(ReplaceStep::SetAside),
                ReplaceStep::SetAside => Some(ReplaceStep::Activate),
                ReplaceStep::Activate => Some(ReplaceStep::Finalize),
                _ => None,
            };
            match next {
                Some(next) => ReplaceProgress::Perform(ReplaceJob { step: next, paths, activation_error }),
                None => ReplaceProgress::Finished(Ok(())),
            }
        },
    }
}

/// The steps of a replacement of a stale file in which everything goes as
/// it should.
pub open spec fn successful_replacement() -> Seq<ReplaceStep> {
    seq![
        ReplaceStep::CompareInstalled,
        ReplaceStep::WriteTemporary,
        ReplaceStep::ClearPrevious,
        ReplaceStep::SetAside,
        ReplaceStep::Activate,
        ReplaceStep::Finalize,
    ]
}

/// Replacing a stale file writes the new bytes completely before the
/// installed file is moved, moves it aside only then, removes the previous
/// copy last, and never needs to put it back.
pub proof fn law_successful_replacement_order()
    ensures
        successful_replacement()[0] == ReplaceStep::CompareInstalled,
        forall|i: int|
            0 <= i < successful_replacement().len() - 1 ==> next_replace_step(
                #[trigger] successful_replacement()[i],
            ) == Some(successful_replacement()[i + 1]),
        next_replace_step(successful_replacement().last()) is None,
        !successful_replacement().contains(ReplaceStep::RestorePrevious),
{
    let p = successful_replacement();
    assert(!p.contains(ReplaceStep::RestorePrevious)) by {
        if p.contains(ReplaceStep::RestorePrevious) {
            let i = choose|i: int| 0 <= i < p.len() && p[i] == ReplaceStep::RestorePrevious;
            assert(p[i] != ReplaceStep::RestorePrevious);
        }
    }
}

/// Where the runtime is loaded from: the DLLs next to the executable win;
/// without them, the unpacked copy of a standalone build; without that,
/// the place next to the executable, so the error names it.
#[derive(Clone, Copy, Debug, PartialEq, Eq, Structural)]
pub enum RuntimeLocation {
    BesideExecutable,
    Unpacked,
}

/// Where the runtime is loaded from, given whether its DLLs are next to the
/// executable and whether a standalone build unpacked its own copy.
pub fn runtime_location(beside_exists: bool, unpacked: bool) -> (r: RuntimeLocation)
    ensures
        r == (if !beside_exists && unpacked {
            RuntimeLocation::Unpacked
        } else {
            RuntimeLocation::BesideExecutable
        }),
{
    if beside_exists {
        RuntimeLocation::BesideExecutable
    } else if unpacked {
        RuntimeLocation::Unpacked
    } else {
        RuntimeLocation::BesideExecutable
    }
}

/// Whether the installed file holds exactly the wanted bytes; a file that
/// could not be read (`None`) does not.
pub fn same_contents(installed: Option<&[u8]>, wanted: &[u8]) -> (r: bool)
    ensures
        r == (installed matches Some(b) && b@ == wanted@),
{
    match installed {
        None => false,
        Some(bytes) => {
            if bytes.len() != wanted.len() {
                return false;
            }
            let mut i: usize = 0;
            while i < bytes.len()
                invariant
                    i <= bytes@.len(),
                    bytes@.len() == wanted@.len(),
                    installed == Some(bytes),
                    forall|k: int| 0 <= k < i ==> bytes@[k] == wanted@[k],
                decreases bytes@.len() - i,
            {
                if bytes[i] != wanted[i] {
                    assert(bytes@[i as int] != wanted@[i as int]);
                    return false;
                }
                i = i + 1;
            }
            assert(bytes@ =~= wanted@);
            true
        },
    }
}

} // verus!
