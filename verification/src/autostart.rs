//! Starting the application at logon.
//!
//! The application manifest requires elevation, so a plain Run-key entry
//! would be silently skipped at logon. A highest-privileges logon task is the
//! supported autostart path for an administrator application. This module
//! decides what the task scheduler is asked and what its answers mean; the
//! caller runs `schtasks` with the arguments given here.

use vstd::prelude::*;
use crate::text::{
    chars_of, concat_chars, contains, contains_chars, decode_lossy, string_of, trim, trim_chars,
    utf8_lossy,
};

verus! {

/// The scheduler's name for the logon task.
pub open spec fn task_name() -> Seq<char> {
    "GPU Shark"@
}

/// The command line the task runs: the executable's path in double quotes.
pub open spec fn task_command_text(executable: Seq<char>) -> Seq<char> {
    seq!['"'] + executable + seq!['"']
}

/// The executable's path in double quotes, as the task's command line.
pub fn task_command(executable: &str) -> (r: String)
    ensures
        r@ == task_command_text(executable@),
{
    let mut r: Vec<char> = Vec::new();
    r.push('"');
    crate::text::append_str(&mut r, executable);
    r.push('"');
    assert(r@ == task_command_text(executable@));
    string_of(&r)
}

/// The views of a list of strings.
pub open spec fn string_views(v: Seq<String>) -> Seq<Seq<char>> {
    v.map_values(|s: String| s@)
}

/// The `schtasks` arguments that create (or replace) the logon task running
/// `executable` with the highest privileges.
pub fn create_task_arguments(executable: &str) -> (r: Vec<String>)
    ensures
        string_views(r@) == seq![
            "/Create"@,
            "/F"@,
            "/RL"@,
            "HIGHEST"@,
            "/SC"@,
            "ONLOGON"@,
            "/TN"@,
            task_name(),
            "/TR"@,
            task_command_text(executable@),
        ],
{
    let mut r: Vec<String> = Vec::new();
    r.push(String::from_str("/Create"));
    r.push(String::from_str("/F"));
    r.push(String::from_str("/RL"));
    r.push(String::from_str("HIGHEST"));
    r.push(String::from_str("/SC"));
    r.push(String::from_str("ONLOGON"));
    r.push(String::from_str("/TN"));
    r.push(String::from_str("GPU Shark"));
    r.push(String::from_str("/TR"));
    r.push(task_command(executable));
    assert(string_views(r@) =~= seq![
        "/Create"@,
        "/F"@,
        "/RL"@,
        "HIGHEST"@,
        "/SC"@,
        "ONLOGON"@,
        "/TN"@,
        task_name(),
        "/TR"@,
        task_command_text(executable@),
    ]);
    r
}

/// The `schtasks` arguments that delete the logon task.
pub fn delete_task_arguments() -> (r: Vec<String>)
    ensures
        string_views(r@) == seq!["/Delete"@, "/F"@, "/TN"@, task_name()],
{
    let mut r: Vec<String> = Vec::new();
    r.push(String::from_str("/Delete"));
    r.push(String::from_str("/F"));
    r.push(String::from_str("/TN"));
    r.push(String::from_str("GPU Shark"));
    assert(string_views(r@) =~= seq!["/Delete"@, "/F"@, "/TN"@, task_name()]);
    r
}

/// The `schtasks` arguments that look the logon task up.
pub fn query_task_arguments() -> (r: Vec<String>)
    ensures
        string_views(r@) == seq!["/Query"@, "/TN"@, task_name()],
{
    let mut r: Vec<String> = Vec::new();
    r.push(String::from_str("/Query"));
    r.push(String::from_str("/TN"));
    r.push(String::from_str("GPU Shark"));
    assert(string_views(r@) =~= seq!["/Query"@, "/TN"@, task_name()]);
    r
}

/// Whether autostart is on, from the outcome of the task query: whether the
/// query ran and then reported success. A query that could not run counts as
/// off.
pub fn is_enabled(query: Result<bool, String>) -> (r: bool)
    ensures
        r == (query matches Ok(succeeded) && succeeded),
{
    match query {
        Ok(succeeded) => succeeded,
        Err(_) => false,
    }
}

/// The scheduler's error output, decoded leniently and trimmed.
pub open spec fn error_text(stderr: Seq<u8>) -> Seq<char> {
    trim(utf8_lossy(stderr))
}

/// The error reported when the task could not be created.
pub open spec fn creation_error(stderr: Seq<u8>) -> Seq<char> {
    "Could not create the startup task: "@ + error_text(stderr)
}

/// Whether a failed deletion only says the task did not exist, in English or
/// Russian.
pub open spec fn reports_missing_task(text: Seq<char>) -> bool {
    contains(text, "does not exist"@) || contains(text, "не существует"@) || contains(
        text,
        "существует"@,
    )
}

/// The error reported when the task could not be removed.
pub open spec fn removal_error(stderr: Seq<u8>) -> Seq<char> {
    "Could not remove the startup task: "@ + error_text(stderr)
}

fn scheduler_error_text(stderr: &[u8]) -> (r: Vec<char>)
    ensures
        r@ == error_text(stderr@),
{
    let decoded = decode_lossy(stderr);
    let chars = chars_of(decoded.as_str());
    trim_chars(&chars)
}

/// What a task creation that exited with `succeeded` and wrote `stderr`
/// means: success, or the scheduler's trimmed complaint.
pub fn creation_outcome(succeeded: bool, stderr: &[u8]) -> (r: Result<(), String>)
    ensures
        r is Ok <==> succeeded,
        r matches Err(e) ==> e@ == creation_error(stderr@),
{
    if succeeded {
        return Ok(());
    }
    let detail = scheduler_error_text(stderr);
    let prefix = chars_of("Could not create the startup task: ");
    Err(string_of(&concat_chars(&prefix, &detail)))
}

/// What a task deletion that exited with `succeeded` and wrote `stderr`
/// means: a task that did not exist counts as removed.
pub fn removal_outcome(succeeded: bool, stderr: &[u8]) -> (r: Result<(), String>)
    ensures
        r is Ok <==> (succeeded || reports_missing_task(error_text(stderr@))),
        r matches Err(e) ==> e@ == removal_error(stderr@),
{
    if succeeded {
        return Ok(());
    }
    let detail = scheduler_error_text(stderr);
    if contains_chars(&detail, &chars_of("does not exist")) || contains_chars(
        &detail,
        &chars_of("не существует"),
    ) || contains_chars(&detail, &chars_of("существует")) {
        return Ok(());
    }
    let prefix = chars_of("Could not remove the startup task: ");
    Err(string_of(&concat_chars(&prefix, &detail)))
}

} // verus!
