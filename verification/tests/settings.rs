use gpu_shark::gui_settings::{
    control_labels, control_layout, selection_of, settings_from_selection, window_title,
    ControlSelection, GuiSettings, SettingsEditor,
};
use gpu_shark::settings::{
    advance, load, save, AccentTheme, AppSettings, LoadOutcome, SavePaths, SaveProgress,
    SaveStep, SettingsSource, UiLanguage, UiTheme,
};

fn paths() -> SavePaths {
    SavePaths {
        parent: "C:/data/GPU Shark".to_owned(),
        temporary: "C:/data/GPU Shark/settings.json.new".to_owned(),
        previous: "C:/data/GPU Shark/settings.json.previous".to_owned(),
    }
}

/// Runs a save whose file work fails at `failing` (if ever), returning the
/// steps performed and how the save ended.
fn run_save(settings: &AppSettings, failing: Option<SaveStep>) -> (Vec<SaveStep>, Result<(), String>) {
    let mut steps = Vec::new();
    let mut progress = save(settings, Some(paths()));
    loop {
        match progress {
            SaveProgress::Finished(result) => return (steps, result),
            SaveProgress::Perform(job) => {
                steps.push(job.step);
                let outcome = if Some(job.step) == failing {
                    Err("disk full".to_owned())
                } else {
                    Ok(())
                };
                progress = advance(job, outcome);
            }
        }
    }
}

#[test]
fn missing_settings_use_defaults_without_warning() {
    let outcome = load(SettingsSource::Missing);
    assert_eq!(outcome.settings, AppSettings::default());
    assert_eq!(outcome.settings.language, UiLanguage::English);
    assert!(outcome.warning.is_none());
}

#[test]
fn settings_round_trip_and_replace_atomically() {
    let settings = AppSettings {
        language: UiLanguage::English,
        refresh_interval_ms: 500,
        accent: AccentTheme::Purple,
        ..AppSettings::default()
    };
    let (_, initial) = run_save(&AppSettings::default(), None);
    assert!(initial.is_ok(), "initial settings");
    let (steps, replaced) = run_save(&settings, None);
    assert!(replaced.is_ok(), "replacement settings");
    let loaded = load(SettingsSource::Parsed(settings));
    assert_eq!(loaded.settings, settings);
    assert!(loaded.warning.is_none());
    // The temporary file becomes the settings file and the previous copy is
    // removed last, so neither is left behind.
    assert_eq!(steps[steps.len() - 2], SaveStep::Activate);
    assert_eq!(*steps.last().unwrap(), SaveStep::Finalize);
}

#[test]
fn malformed_or_invalid_settings_recover_to_defaults() {
    let malformed = load(SettingsSource::Malformed("key must be a string at line 1 column 2".to_owned()));
    assert_eq!(malformed.settings, AppSettings::default());
    assert!(malformed.warning.is_some());

    let invalid = load(SettingsSource::Parsed(AppSettings {
        schema_version: 1,
        refresh_interval_ms: 250,
        ..AppSettings::default()
    }));
    assert_eq!(invalid.settings, AppSettings::default());
    assert!(invalid.warning.is_some());
}

#[test]
fn unknown_fields_are_forward_compatible() {
    // Unknown fields are skipped when parsing; the known ones default.
    let outcome = load(SettingsSource::Parsed(AppSettings {
        schema_version: 1,
        ..AppSettings::default()
    }));
    assert_eq!(outcome.settings, AppSettings::default());
    assert!(outcome.warning.is_none());
}

#[test]
fn load_warnings_name_their_cause() {
    let unreadable = load(SettingsSource::Unreadable("denied".to_owned()));
    assert_eq!(unreadable.warning.as_deref(), Some("Could not read settings: denied"));
    let unavailable = load(SettingsSource::Unavailable("no folder".to_owned()));
    assert_eq!(unavailable.warning.as_deref(), Some("no folder"));
    let malformed = load(SettingsSource::Malformed("eof".to_owned()));
    assert_eq!(
        malformed.warning.as_deref(),
        Some("Malformed settings were ignored: eof")
    );
    let invalid = load(SettingsSource::Parsed(AppSettings {
        refresh_interval_ms: 250,
        ..AppSettings::default()
    }));
    assert_eq!(
        invalid.warning.as_deref(),
        Some("Invalid settings were ignored: unsupported refresh interval 250 ms")
    );
    let old_schema = load(SettingsSource::Parsed(AppSettings {
        schema_version: 7,
        ..AppSettings::default()
    }));
    assert_eq!(
        old_schema.warning.as_deref(),
        Some("Invalid settings were ignored: unsupported settings schema version 7")
    );
}

#[test]
fn validation_checks_schema_then_interval() {
    assert!(AppSettings::default().validate().is_ok());
    for ms in [500, 1000, 2000] {
        assert!(AppSettings { refresh_interval_ms: ms, ..AppSettings::default() }
            .validate()
            .is_ok());
    }
    assert_eq!(
        AppSettings { schema_version: 2, refresh_interval_ms: 3, ..AppSettings::default() }
            .validate()
            .unwrap_err(),
        "unsupported settings schema version 2"
    );
}

#[test]
fn saving_refuses_invalid_settings_before_touching_files() {
    let bad = AppSettings { refresh_interval_ms: 250, ..AppSettings::default() };
    let (steps, result) = run_save(&bad, None);
    assert!(steps.is_empty());
    assert_eq!(result.unwrap_err(), "unsupported refresh interval 250 ms");
    match save(&AppSettings::default(), None) {
        SaveProgress::Finished(Err(e)) => assert_eq!(e, "settings path has no parent directory"),
        _ => panic!("a save without a directory must not start"),
    }
}

#[test]
fn a_successful_save_follows_the_replacement_order() {
    let (steps, result) = run_save(&AppSettings::default(), None);
    assert!(result.is_ok());
    assert_eq!(
        steps,
        [
            SaveStep::CreateDirectory,
            SaveStep::Serialize,
            SaveStep::ClearTemporary,
            SaveStep::OpenTemporary,
            SaveStep::WriteTemporary,
            SaveStep::FlushTemporary,
            SaveStep::ClearPrevious,
            SaveStep::SetAside,
            SaveStep::Activate,
            SaveStep::Finalize,
        ]
    );
}

#[test]
fn a_failed_step_ends_the_save_with_its_message() {
    let (steps, result) = run_save(&AppSettings::default(), Some(SaveStep::WriteTemporary));
    assert_eq!(*steps.last().unwrap(), SaveStep::WriteTemporary);
    assert_eq!(
        result.unwrap_err(),
        "Could not write temporary settings file C:/data/GPU Shark/settings.json.new: disk full"
    );
    let (_, result) = run_save(&AppSettings::default(), Some(SaveStep::CreateDirectory));
    assert_eq!(result.unwrap_err(), "Could not create C:/data/GPU Shark: disk full");
    let (_, result) = run_save(&AppSettings::default(), Some(SaveStep::Finalize));
    assert_eq!(result.unwrap_err(), "Could not finalize settings: disk full");
}

#[test]
fn a_failed_activation_puts_the_previous_file_back() {
    let (steps, result) = run_save(&AppSettings::default(), Some(SaveStep::Activate));
    assert_eq!(steps[steps.len() - 2..], [SaveStep::Activate, SaveStep::RestorePrevious]);
    assert_eq!(result.unwrap_err(), "Could not activate settings: disk full");
}

#[test]
fn settings_in_force_start_as_defaults_and_are_stored_once() {
    let mut gui = GuiSettings::new();
    assert_eq!(gui.current(), AppSettings::default());
    assert!(!gui.is_russian());
    assert_eq!(gui.refresh_interval_ms(), 1000);
    gui.set_status("lost");
    assert_eq!(gui.status(), "");

    let russian = AppSettings { language: UiLanguage::Russian, refresh_interval_ms: 2000, ..AppSettings::default() };
    gui.initialize(LoadOutcome { settings: russian, warning: Some("Malformed settings were ignored: eof".to_owned()) });
    assert!(gui.is_russian());
    assert_eq!(gui.refresh_interval_ms(), 2000);
    assert_eq!(gui.status(), "Malformed settings were ignored: eof");

    gui.initialize(LoadOutcome { settings: AppSettings::default(), warning: None });
    assert!(gui.is_russian(), "only the first initialization counts");
}

#[test]
fn applying_settings_reports_failures_in_the_selected_language() {
    let mut gui = GuiSettings::new();
    gui.initialize(LoadOutcome { settings: AppSettings::default(), warning: None });
    let russian = AppSettings { language: UiLanguage::Russian, ..AppSettings::default() };
    assert!(!gui.apply(russian, Err("disk full".to_owned())));
    assert_eq!(gui.status(), "Не удалось сохранить настройки: disk full");
    assert!(!gui.is_russian());
    assert!(gui.apply(russian, Ok(())));
    assert!(gui.is_russian());
    assert_eq!(gui.status(), "");
    let defaults = gui.restore_defaults();
    assert_eq!(defaults, AppSettings::default());
    assert_eq!(gui.status(), "Defaults selected. Click Apply to save them.");
    assert!(gui.is_russian(), "restoring the controls saves nothing");
}

#[test]
fn controls_show_and_yield_the_same_settings() {
    let s = AppSettings {
        language: UiLanguage::English,
        refresh_interval_ms: 2000,
        accent: AccentTheme::Orange,
        theme: UiTheme::Dark,
        ..AppSettings::default()
    };
    let c = selection_of(&s);
    assert_eq!(c, ControlSelection { language: 1, refresh: 2, accent: 3, check_updates: true });
    let back = settings_from_selection(c.language as isize, c.refresh as isize, c.accent as isize, 1);
    assert_eq!(back, AppSettings { theme: UiTheme::Light, ..s });
    let nothing = settings_from_selection(-1, -1, -1, 0);
    assert!(!nothing.check_updates);
    assert_eq!(nothing.language, UiLanguage::Russian);
    assert_eq!(nothing.refresh_interval_ms, 1000);
    assert_eq!(nothing.accent, AccentTheme::Green);
    assert!(nothing.validate().is_ok());
}

#[test]
fn settings_window_texts_and_layout() {
    assert_eq!(window_title(UiLanguage::Russian), "Настройки GPU Shark");
    let labels = control_labels(UiLanguage::English);
    assert_eq!(labels.len(), 9);
    assert_eq!(labels[0], "SETTINGS");
    assert_eq!(labels[7], "APPLY");
    assert_eq!(control_labels(UiLanguage::Russian)[5], "СБРОСИТЬ");
    let same = control_layout(520, 380);
    assert_eq!(same[0], (24, 18, 472, 28));
    assert_eq!(same[12], (24, 254, 472, 30));
    let double = control_layout(1040, 760);
    assert_eq!(double[5], (440, 128, 552, 340));
    let empty = control_layout(0, 0);
    assert_eq!(empty[11], (400, 326, 96, 32));
}

#[test]
fn the_settings_page_edits_a_draft_until_it_is_saved() {
    let loaded = LoadOutcome { settings: AppSettings::default(), warning: Some("old file".to_owned()) };
    let mut page = SettingsEditor::new(loaded, true);
    assert!(page.settings.autostart);
    assert_eq!(page.draft, page.settings);
    assert_eq!(page.notice.as_deref(), Some("old file"));

    page.draft.refresh_interval_ms = 500;
    page.cancel();
    assert_eq!(page.draft.refresh_interval_ms, 1000);

    page.draft.theme = UiTheme::Dark;
    assert!(!page.apply(Ok(()), Err("disk full".to_owned())));
    assert_eq!(page.settings.theme, UiTheme::Light);
    assert_eq!(page.notice.as_deref(), Some("disk full"));

    assert!(page.apply(Err("schtasks failed".to_owned()), Ok(())));
    assert_eq!(page.settings.theme, UiTheme::Dark);
    assert!(page.notice.is_none(), "a saved draft clears the notice");

    page.restore();
    assert_eq!(page.draft, AppSettings::default());
    assert_eq!(page.settings.theme, UiTheme::Dark);
}

#[test]
fn update_checks_are_on_by_default_and_can_be_turned_off() {
    assert!(AppSettings::default().check_updates);
    let off = settings_from_selection(1, 1, 0, 0);
    assert!(!off.check_updates);
    assert_eq!(selection_of(&off).check_updates, false);
    assert!(off.validate().is_ok());
}

#[test]
fn settings_in_force_are_always_valid() {
    let mut gui = GuiSettings::new();
    assert!(gui.current().validate().is_ok());
    gui.initialize(LoadOutcome { settings: AppSettings::default(), warning: None });
    assert!(gui.apply(AppSettings { refresh_interval_ms: 2000, ..AppSettings::default() }, Ok(())));
    assert!(gui.current().validate().is_ok());
    assert_eq!(gui.refresh_interval_ms(), 2000);
}
