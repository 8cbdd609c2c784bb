//! Application settings: their values, their validity, and what loading
//! makes of whatever was found on disk.

use vstd::prelude::*;
use crate::text::{chars_of, decimal, push_decimal, string_of};

verus! {

pub const SETTINGS_SCHEMA_VERSION: u32 = 1;

#[derive(Clone, Copy, Debug, PartialEq, Eq, Structural)]
pub enum UiLanguage {
    English,
    Russian,
}

#[derive(Clone, Copy, Debug, PartialEq, Eq, Structural)]
pub enum AccentTheme {
    Green,
    Blue,
    Purple,
    Orange,
    Windows,
}

#[derive(Clone, Copy, Debug, PartialEq, Eq, Structural)]
pub enum TemperatureUnit {
    Celsius,
}

#[derive(Clone, Copy, Debug, PartialEq, Eq, Structural)]
pub enum UiTheme {
    Light,
    Dark,
}

#[derive(Clone, Copy, Debug, PartialEq, Eq, Structural)]
pub struct AppSettings {
    pub schema_version: u32,
    pub language: UiLanguage,
    pub theme: UiTheme,
    pub refresh_interval_ms: u64,
    pub accent: AccentTheme,
    pub temperature_unit: TemperatureUnit,
    pub track_all_maxima: bool,
    pub autostart: bool,
    /// Whether a release check runs at startup.
    pub check_updates: bool,
}

/// The settings used when nothing else is known.
pub open spec fn default_settings() -> AppSettings {
    AppSettings {
        schema_version: SETTINGS_SCHEMA_VERSION,
        language: UiLanguage::English,
        theme: UiTheme::Light,
        refresh_interval_ms: 1000,
        accent: AccentTheme::Green,
        temperature_unit: TemperatureUnit::Celsius,
        track_all_maxima: true,
        autostart: false,
        check_updates: true,
    }
}

impl Default for AppSettings {
    fn default() -> (r: Self)
        ensures
            r == default_settings(),
    {
        AppSettings {
            schema_version: SETTINGS_SCHEMA_VERSION,
            language: UiLanguage::English,
            theme: UiTheme::Light,
            refresh_interval_ms: 1000,
            accent: AccentTheme::Green,
            temperature_unit: TemperatureUnit::Celsius,
            track_all_maxima: true,
            autostart: false,
            check_updates: true,
        }
    }
}

/// The refresh intervals the application offers.
pub open spec fn supported_interval(ms: u64) -> bool {
    ms == 500 || ms == 1000 || ms == 2000
}

/// Whether settings may be used and stored.
pub open spec fn settings_valid(s: AppSettings) -> bool {
    s.schema_version == SETTINGS_SCHEMA_VERSION && supported_interval(s.refresh_interval_ms)
}

/// Why settings are refused: the schema version is checked first.
pub open spec fn invalid_reason(s: AppSettings) -> Seq<char> {
    if s.schema_version != SETTINGS_SCHEMA_VERSION {
        "unsupported settings schema version "@ + decimal(s.schema_version as nat)
    } else {
        "unsupported refresh interval "@ + decimal(s.refresh_interval_ms as nat) + " ms"@
    }
}

impl AppSettings {
    /// Accepts the settings when their schema version is current and their
    /// refresh interval is one of 500, 1000 or 2000 ms.
    pub fn validate(&self) -> (r: Result<(), String>)
        ensures
            r is Ok <==> settings_valid(*self),
            r matches Err(e) ==> e@ == invalid_reason(*self),
    {
        if self.schema_version != SETTINGS_SCHEMA_VERSION {
            let mut m = chars_of("unsupported settings schema version ");
            push_decimal(&mut m, self.schema_version as u64);
            return Err(string_of(&m));
        }
        let ms = self.refresh_interval_ms;
        if !(ms == 500 || ms == 1000 || ms == 2000) {
            let mut m = chars_of("unsupported refresh interval ");
            push_decimal(&mut m, ms);
            crate::text::append_str(&mut m, " ms");
            return Err(string_of(&m));
        }
        Ok(())
    }
}

/// Settings ready for use, and a warning for the user when something read
/// from disk was set aside.
#[derive(Debug)]
pub struct LoadOutcome {
    pub settings: AppSettings,
    pub warning: Option<String>,
}

/// What was found where the settings are stored.
#[derive(Debug)]
pub enum SettingsSource {
    /// The storage location is unknown; the text says why.
    Unavailable(String),
    /// No settings file exists.
    Missing,
    /// The file exists but could not be read; the text is the I/O error.
    Unreadable(String),
    /// The file is not a settings document; the text is the parser's error.
    Malformed(String),
    /// The file held these settings.
    Parsed(AppSettings),
}

/// The settings that loading yields from what was found.
pub open spec fn loaded_settings(source: SettingsSource) -> AppSettings {
    match source {
        SettingsSource::Parsed(s) => if settings_valid(s) {
            s
        } else {
            default_settings()
        },
        _ => default_settings(),
    }
}

/// The warning that loading yields from what was found.
pub open spec fn load_warning(source: SettingsSource) -> Option<Seq<char>> {
    match source {
        SettingsSource::Unavailable(w) => Some(w@),
        SettingsSource::Missing => None,
        SettingsSource::Unreadable(e) => Some("Could not read settings: "@ + e@),
        SettingsSource::Malformed(e) => Some("Malformed settings were ignored: "@ + e@),
        SettingsSource::Parsed(s) => if settings_valid(s) {
            None
        } else {
            Some("Invalid settings were ignored: "@ + invalid_reason(s))
        },
    }
}

fn prefixed(prefix: &str, detail: &str) -> (r: String)
    ensures
        r@ == prefix@ + detail@,
{
    let mut r = String::from_str(prefix);
    r.append(detail);
    r
}

/// Default settings with a warning.
fn recovered(warning: String) -> (r: LoadOutcome)
    ensures
        r.settings == default_settings(),
        r.warning matches Some(w) && w@ == warning@,
{
    LoadOutcome { settings: AppSettings::default(), warning: Some(warning) }
}

/// Makes settings out of what was found: valid stored settings are used as
/// they are; anything else falls back to the defaults, with a warning unless
/// no file existed.
pub fn load(source: SettingsSource) -> (r: LoadOutcome)
    ensures
        r.settings == loaded_settings(source),
        crate::text::string_opt_view(r.warning) == load_warning(source),
{
    match source {
        SettingsSource::Unavailable(warning) => recovered(warning),
        SettingsSource::Missing => LoadOutcome { settings: AppSettings::default(), warning: None },
        SettingsSource::Unreadable(error) => recovered(
            prefixed("Could not read settings: ", error.as_str()),
        ),
        SettingsSource::Malformed(error) => recovered(
            prefixed("Malformed settings were ignored: ", error.as_str()),
        ),
        SettingsSource::Parsed(settings) => match settings.validate() {
            Ok(()) => LoadOutcome { settings, warning: None },
            Err(error) => recovered(prefixed("Invalid settings were ignored: ", error.as_str())),
        },
    }
}

// ---------------------------------------------------------------------------
// Saving
// ---------------------------------------------------------------------------

/// A piece of file work in saving settings. The caller performs it and
/// reports how it went; the new file replaces the old one only once it is
/// completely written, and the old one is kept aside until then.
#[derive(Clone, Copy, Debug, PartialEq, Eq, Structural)]
pub enum SaveStep {
    /// Create the settings directory and the directories above it.
    CreateDirectory,
    /// Serialize the settings.
    Serialize,
    /// Remove a leftover temporary file, if there is one.
    ClearTemporary,
    /// Create (or truncate) the temporary file.
    OpenTemporary,
    /// Write the serialized settings to the temporary file.
    WriteTemporary,
    /// Flush the temporary file to disk.
    FlushTemporary,
    /// Remove a leftover previous copy, if there is one.
    ClearPrevious,
    /// Move the settings file, if there is one, aside as the previous copy.
    SetAside,
    /// Move the temporary file into place.
    Activate,
    /// Move the previous copy back into place; how this goes is not reported.
    RestorePrevious,
    /// Remove the previous copy, if there is one.
    Finalize,
}

/// How the files involved in saving are shown in messages.
#[derive(Clone, Debug)]
pub struct SavePaths {
    /// The directory holding the settings file.
    pub parent: String,
    /// The temporary file next to it.
    pub temporary: String,
    /// The previous copy next to it.
    pub previous: String,
}

/// A save in progress: the step to perform next.
#[derive(Clone, Debug)]
pub struct SaveJob {
    pub step: SaveStep,
    pub paths: SavePaths,
    /// Why activation failed, once it has.
    pub activation_error: Option<String>,
}

/// What to do next in saving.
#[derive(Debug)]
pub enum SaveProgress {
    /// Perform the job's step and report its outcome to `advance`.
    Perform(SaveJob),
    /// The save is over.
    Finished(Result<(), String>),
}

/// The step that follows `step` when it went as it should, if any.
pub open spec fn next_step(step: SaveStep) -> Option<SaveStep> {
    match step {
        SaveStep::CreateDirectory => Some(SaveStep::Serialize),
        SaveStep::Serialize => Some(SaveStep::ClearTemporary),
        SaveStep::ClearTemporary => Some(SaveStep::OpenTemporary),
        SaveStep::OpenTemporary => Some(SaveStep::WriteTemporary),
        SaveStep::WriteTemporary => Some(SaveStep::FlushTemporary),
        SaveStep::FlushTemporary => Some(SaveStep::ClearPrevious),
        SaveStep::ClearPrevious => Some(SaveStep::SetAside),
        SaveStep::SetAside => Some(SaveStep::Activate),
        SaveStep::Activate => Some(SaveStep::Finalize),
        SaveStep::RestorePrevious => None,
        SaveStep::Finalize => None,
    }
}

/// The error a failed `step` ends the save with; `error` is the failure's
/// own description.
pub open spec fn step_error(step: SaveStep, paths: SavePaths, error: Seq<char>) -> Seq<char> {
    match step {
        SaveStep::CreateDirectory => "Could not create "@ + paths.parent@ + ": "@ + error,
        SaveStep::Serialize => "Could not serialize settings: "@ + error,
        SaveStep::ClearTemporary => "Could not reset "@ + paths.temporary@ + ": "@ + error,
        SaveStep::OpenTemporary => "Could not open temporary settings file "@ + paths.temporary@
            + ": "@ + error,
        SaveStep::WriteTemporary => "Could not write temporary settings file "@
            + paths.temporary@ + ": "@ + error,
        SaveStep::FlushTemporary => "Could not flush temporary settings file "@
            + paths.temporary@ + ": "@ + error,
        SaveStep::ClearPrevious => "Could not reset "@ + paths.previous@ + ": "@ + error,
        SaveStep::SetAside => "Could not prepare settings update: "@ + error,
        SaveStep::Activate => "Could not activate settings: "@ + error,
        SaveStep::RestorePrevious => "Could not activate settings: "@ + error,
        SaveStep::Finalize => "Could not finalize settings: "@ + error,
    }
}

/// The error a save that cannot start ends with.
pub open spec fn no_parent_error() -> Seq<char> {
    "settings path has no parent directory"@
}

fn step_message(step: SaveStep, paths: &SavePaths, error: &str) -> (r: String)
    ensures
        r@ == step_error(step, *paths, error@),
{
    let parts: Vec<&str> = match step {
        SaveStep::CreateDirectory => vec!["Could not create ", paths.parent.as_str(), ": ", error],
        SaveStep::Serialize => vec!["Could not serialize settings: ", error],
        SaveStep::ClearTemporary => vec!["Could not reset ", paths.temporary.as_str(), ": ", error],
        SaveStep::OpenTemporary => vec![
            "Could not open temporary settings file ",
            paths.temporary.as_str(),
            ": ",
            error,
        ],
        SaveStep::WriteTemporary => vec![
            "Could not write temporary settings file ",
            paths.temporary.as_str(),
            ": ",
            error,
        ],
        SaveStep::FlushTemporary => vec![
            "Could not flush temporary settings file ",
            paths.temporary.as_str(),
            ": ",
            error,
        ],
        SaveStep::ClearPrevious => vec!["Could not reset ", paths.previous.as_str(), ": ", error],
        SaveStep::SetAside => vec!["Could not prepare settings update: ", error],
        SaveStep::Activate => vec!["Could not activate settings: ", error],
        SaveStep::RestorePrevious => vec!["Could not activate settings: ", error],
        SaveStep::Finalize => vec!["Could not finalize settings: ", error],
    };
    let r = crate::text::joined(parts.as_slice());
    proof {
        let f = |acc: Seq<char>, p: &str| acc + p@;
        let v = parts@;
        reveal_with_fuel(Seq::fold_left, 5);
        assert(v.fold_left(Seq::<char>::empty(), f) =~= step_error(step, *paths, error@));
    }
    r
}

/// Starts saving `settings`. Settings that are not valid are refused with
/// their reason before any file is touched; `paths` is `None` when the
/// settings path has no parent directory.
pub fn save(settings: &AppSettings, paths: Option<SavePaths>) -> (r: SaveProgress)
    ensures
        !settings_valid(*settings) ==> (r matches SaveProgress::Finished(Err(e)) && e@
            == invalid_reason(*settings)),
        settings_valid(*settings) && paths is None ==> (r matches SaveProgress::Finished(Err(e))
            && e@ == no_parent_error()),
        settings_valid(*settings) && paths is Some ==> (r matches SaveProgress::Perform(job)
            && job.step == SaveStep::CreateDirectory && job.paths == paths.unwrap()
            && job.activation_error is None),
{
    match settings.validate() {
        Err(reason) => SaveProgress::Finished(Err(reason)),
        Ok(()) => match paths {
            None => SaveProgress::Finished(Err(String::from_str("settings path has no parent directory"))),
            Some(paths) => SaveProgress::Perform(
                SaveJob { step: SaveStep::CreateDirectory, paths, activation_error: None },
            ),
        },
    }
}

/// Takes in how the job's step went. A step that went well leads to the
/// next one, and the last one to success. A failed activation leads to
/// putting the previous copy back and then to the activation's error; any
/// other failure ends the save with that step's error.
pub fn advance(job: SaveJob, outcome: Result<(), String>) -> (r: SaveProgress)
    ensures
        job.step == SaveStep::RestorePrevious ==> (r matches SaveProgress::Finished(Err(e))
            && e@ == step_error(
            SaveStep::RestorePrevious,
            job.paths,
            match job.activation_error {
                Some(a) => a@,
                None => Seq::<char>::empty(),
            },
        )),
        job.step != SaveStep::RestorePrevious && outcome is Ok ==> (match next_step(job.step) {
            Some(next) => r matches SaveProgress::Perform(j) && j.step == next && j.paths
                == job.paths && j.activation_error == job.activation_error,
            None => r matches SaveProgress::Finished(Ok(())),
        }),
        job.step == SaveStep::Activate && outcome is Err ==> (r matches SaveProgress::Perform(j)
            && j.step == SaveStep::RestorePrevious && j.paths == job.paths && (
        j.activation_error matches Some(a) && outcome matches Err(e) && a@ == e@)),
        job.step != SaveStep::RestorePrevious && job.step != SaveStep::Activate && outcome is Err
            ==> (r matches SaveProgress::Finished(Err(m)) && outcome matches Err(e) && m@
            == step_error(job.step, job.paths, e@)),
{
    let SaveJob { step, paths, activation_error } = job;
    if step == SaveStep::RestorePrevious {
        let reason = match activation_error {
            Some(a) => a,
            None => String::new(),
        };
        return SaveProgress::Finished(Err(step_message(step, &paths, reason.as_str())));
    }
    match outcome {
        Ok(()) => {
            let next = match step {
                SaveStep::CreateDirectory => Some(SaveStep::Serialize),
                SaveStep::Serialize => Some(SaveStep::ClearTemporary),
                SaveStep::ClearTemporary => Some(SaveStep::OpenTemporary),
                SaveStep::OpenTemporary => Some(SaveStep::WriteTemporary),
                SaveStep::WriteTemporary => Some(SaveStep::FlushTemporary),
                SaveStep::FlushTemporary => Some(SaveStep::ClearPrevious),
                SaveStep::ClearPrevious => Some(SaveStep::SetAside),
                SaveStep::SetAside => Some(SaveStep::Activate),
                SaveStep::Activate => Some(SaveStep::Finalize),
                SaveStep::RestorePrevious => None,
                SaveStep::Finalize => None,
            };
            match next {
                Some(next) => SaveProgress::Perform(SaveJob { step: next, paths, activation_error }),
                None => SaveProgress::Finished(Ok(())),
            }
        },
        Err(error) => {
            if step == SaveStep::Activate {
                SaveProgress::Perform(
                    SaveJob { step: SaveStep::RestorePrevious, paths, activation_error: Some(error) },
                )
            } else {
                SaveProgress::Finished(Err(step_message(step, &paths, error.as_str())))
            }
        },
    }
}

// ---------------------------------------------------------------------------
// Laws
// ---------------------------------------------------------------------------

/// The steps of a save in which everything goes as it should.
pub open spec fn successful_save() -> Seq<SaveStep> {
    seq![
        SaveStep::CreateDirectory,
        SaveStep::Serialize,
        SaveStep::ClearTemporary,
        SaveStep::OpenTemporary,
        SaveStep::WriteTemporary,
        SaveStep::FlushTemporary,
        SaveStep::ClearPrevious,
        SaveStep::SetAside,
        SaveStep::Activate,
        SaveStep::Finalize,
    ]
}

/// A save in which every step succeeds writes and flushes the new file
/// before anything is moved, moves the old file aside only then, and never
/// needs to put it back.
pub proof fn law_successful_save_order()
    ensures
        successful_save()[0] == SaveStep::CreateDirectory,
        forall|i: int|
            0 <= i < successful_save().len() - 1 ==> next_step(#[trigger] successful_save()[i])
                == Some(successful_save()[i + 1]),
        next_step(successful_save().last()) is None,
        !successful_save().contains(SaveStep::RestorePrevious),
{
    let p = successful_save();
    assert(!p.contains(SaveStep::RestorePrevious)) by {
        if p.contains(SaveStep::RestorePrevious) {
            let i = choose|i: int| 0 <= i < p.len() && p[i] == SaveStep::RestorePrevious;
            assert(p[i] != SaveStep::RestorePrevious);
        }
    }
}



// ---------------------------------------------------------------------------

/// The default settings are valid.
pub proof fn law_defaults_are_valid()
    ensures
        settings_valid(default_settings()),
{
}

/// Loading never yields invalid settings.
pub proof fn law_loaded_settings_are_valid(source: SettingsSource)
    ensures
        settings_valid(loaded_settings(source)),
{
}

/// Valid stored settings come back exactly and without a warning.
pub proof fn law_valid_settings_round_trip(s: AppSettings)
    requires
        settings_valid(s),
    ensures
        loaded_settings(SettingsSource::Parsed(s)) == s,
        load_warning(SettingsSource::Parsed(s)) is None,
{
}

} // verus!
