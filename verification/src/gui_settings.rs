//! The settings in force while the application runs, the status line of the
//! settings window, and what the window's controls show and yield.

use vstd::prelude::*;
use crate::gui_layout::{rescaled, scale_to_client};
use crate::settings::{
    AccentTheme, AppSettings, LoadOutcome, UiLanguage, default_settings, settings_valid,
};
use crate::text::{chars_of, concat_chars, string_of, string_opt_view};

verus! {

/// Logical width of the settings window's client area.
pub const SETTINGS_CLIENT_WIDTH: i32 = 520;

/// Logical height of the settings window's client area.
pub const SETTINGS_CLIENT_HEIGHT: i32 = 380;

/// The settings in force and the status line. Each is filled once, by the
/// first `initialize`; before that the defaults are in force and the status
/// line cannot be written.
pub struct GuiSettings {
    current: Option<AppSettings>,
    status: Option<String>,
}

/// The settings in force for what was stored: the defaults until stored.
pub open spec fn in_force(stored: Option<AppSettings>) -> AppSettings {
    match stored {
        Some(s) => s,
        None => default_settings(),
    }
}

/// The status line after saving `selected` gave `saved`.
pub open spec fn apply_status(selected: AppSettings, saved: Result<(), String>) -> Seq<char> {
    match saved {
        Ok(()) => Seq::empty(),
        Err(e) => (if selected.language == UiLanguage::Russian {
            "Не удалось сохранить настройки"@
        } else {
            "Could not save settings"@
        }) + ": "@ + e@,
    }
}

/// The status line after the defaults were put back into the controls.
pub open spec fn defaults_selected_status() -> Seq<char> {
    "Defaults selected. Click Apply to save them."@
}

impl GuiSettings {
    /// Only valid settings are ever in force.
    #[verifier::type_invariant]
    spec fn well_formed(self) -> bool {
        self.current matches Some(s) ==> settings_valid(s)
    }

    /// The stored settings, if any were stored.
    pub closed spec fn stored(&self) -> Option<AppSettings> {
        self.current
    }

    /// The status line, if it was set up.
    pub closed spec fn status_line(&self) -> Option<Seq<char>> {
        string_opt_view(self.status)
    }

    /// Nothing stored yet.
    pub fn new() -> (r: Self)
        ensures
            r.stored() is None,
            r.status_line() is None,
    {
        GuiSettings { current: None, status: None }
    }

    /// Stores the loaded settings and puts the load warning, or nothing, on
    /// the status line. Whatever was stored before stays. Loading only ever
    /// yields valid settings.
    pub fn initialize(&mut self, outcome: LoadOutcome)
        requires
            settings_valid(outcome.settings),
        ensures
            final(self).stored() == (match old(self).stored() {
                Some(s) => Some(s),
                None => Some(outcome.settings),
            }),
            final(self).status_line() == (match old(self).status_line() {
                Some(s) => Some(s),
                None => Some(
                    match outcome.warning {
                        Some(w) => w@,
                        None => Seq::<char>::empty(),
                    },
                ),
            }),
    {
        proof {
            use_type_invariant(&*self);
        }
        if self.current.is_none() {
            self.current = Some(outcome.settings);
        }
        if self.status.is_none() {
            self.status = Some(
                match outcome.warning {
                    Some(w) => w,
                    None => String::new(),
                },
            );
        }
    }

    /// The settings in force; they are always valid.
    pub fn current(&self) -> (r: AppSettings)
        ensures
            r == in_force(self.stored()),
            settings_valid(r),
    {
        proof {
            use_type_invariant(self);
        }
        match self.current {
            Some(s) => s,
            None => AppSettings::default(),
        }
    }

    /// Whether the interface is in Russian.
    pub fn is_russian(&self) -> (r: bool)
        ensures
            r == (in_force(self.stored()).language == UiLanguage::Russian),
    {
        self.current().language == UiLanguage::Russian
    }

    /// The telemetry refresh interval in force.
    pub fn refresh_interval_ms(&self) -> (r: u64)
        ensures
            r == in_force(self.stored()).refresh_interval_ms,
            r == 500 || r == 1000 || r == 2000,
    {
        self.current().refresh_interval_ms
    }

    /// Writes the status line, once it is set up.
    pub fn set_status(&mut self, value: &str)
        ensures
            final(self).stored() == old(self).stored(),
            final(self).status_line() == (match old(self).status_line() {
                Some(_) => Some(value@),
                None => None,
            }),
    {
        proof {
            use_type_invariant(&*self);
        }
        if self.status.is_some() {
            self.status = Some(String::from_str(value));
        }
    }

    /// The status line's text; empty before it is set up.
    pub fn status(&self) -> (r: String)
        ensures
            r@ == (match self.status_line() {
                Some(s) => s,
                None => Seq::<char>::empty(),
            }),
    {
        match &self.status {
            Some(s) => s.clone(),
            None => String::new(),
        }
    }

    /// Takes in the outcome of saving `selected`: on success the selection
    /// is in force (once settings are stored) and the status line is
    /// cleared; on failure the status line says why, in the selected
    /// language. Returns whether the settings window closes. Saving refuses
    /// settings that are not valid, so a successful save vouches for them.
    pub fn apply(&mut self, selected: AppSettings, saved: Result<(), String>) -> (closes: bool)
        requires
            saved is Ok ==> settings_valid(selected),
        ensures
            closes == (saved is Ok),
            final(self).stored() == (if saved is Ok && old(self).stored() is Some {
                Some(selected)
            } else {
                old(self).stored()
            }),
            final(self).status_line() == (match old(self).status_line() {
                Some(_) => Some(apply_status(selected, saved)),
                None => None,
            }),
    {
        proof {
            use_type_invariant(&*self);
        }
        match saved {
            Ok(()) => {
                if self.current.is_some() {
                    self.current = Some(selected);
                }
                self.set_status("");
                proof {
                    reveal_strlit("");
                }
                true
            },
            Err(error) => {
                let prefix = if selected.language == UiLanguage::Russian {
                    chars_of("Не удалось сохранить настройки: ")
                } else {
                    chars_of("Could not save settings: ")
                };
                proof {
                    reveal_strlit("Не удалось сохранить настройки: ");
                    reveal_strlit("Не удалось сохранить настройки");
                    reveal_strlit("Could not save settings: ");
                    reveal_strlit("Could not save settings");
                    reveal_strlit(": ");
                }
                let message = string_of(&concat_chars(&prefix, &chars_of(error.as_str())));
                proof {
                    assert(message@ =~= apply_status(selected, Err(error)));
                }
                self.set_status(message.as_str());
                false
            },
        }
    }

    /// Puts the defaults back into the controls without saving them: says so
    /// on the status line and returns the settings the controls now show.
    pub fn restore_defaults(&mut self) -> (r: AppSettings)
        ensures
            r == default_settings(),
            final(self).stored() == old(self).stored(),
            final(self).status_line() == (match old(self).status_line() {
                Some(_) => Some(defaults_selected_status()),
                None => None,
            }),
    {
        self.set_status("Defaults selected. Click Apply to save them.");
        AppSettings::default()
    }
}

// ---------------------------------------------------------------------------
// Settings page
// ---------------------------------------------------------------------------

/// The settings page: the settings in force, the draft being edited, and a
/// notice about loading or applying.
pub struct SettingsEditor {
    pub settings: AppSettings,
    pub draft: AppSettings,
    pub notice: Option<String>,
}

impl SettingsEditor {
    /// Opens the page on the loaded settings, with autostart as the task
    /// scheduler reports it and the load warning as the notice.
    pub fn new(outcome: LoadOutcome, autostart_enabled: bool) -> (r: Self)
        ensures
            r.settings == (AppSettings { autostart: autostart_enabled, ..outcome.settings }),
            r.draft == r.settings,
            string_opt_view(r.notice) == string_opt_view(outcome.warning),
    {
        let settings = AppSettings { autostart: autostart_enabled, ..outcome.settings };
        SettingsEditor { settings, draft: settings, notice: outcome.warning }
    }

    /// Puts the defaults into the draft.
    pub fn restore(&mut self)
        ensures
            final(self).draft == default_settings(),
            final(self).settings == old(self).settings,
            string_opt_view(final(self).notice) == string_opt_view(old(self).notice),
    {
        self.draft = AppSettings::default();
    }

    /// Drops the draft's changes.
    pub fn cancel(&mut self)
        ensures
            final(self).draft == old(self).settings,
            final(self).settings == old(self).settings,
            string_opt_view(final(self).notice) == string_opt_view(old(self).notice),
    {
        self.draft = self.settings;
    }

    /// Takes in what applying the draft did: setting autostart as the draft
    /// says gave `autostart`, then saving the draft gave `saved`. A saved
    /// draft comes into force and clears the notice, an autostart error
    /// included; a failed save leaves the notice with the saving error.
    /// Returns whether the draft came into force.
    pub fn apply(&mut self, autostart: Result<(), String>, saved: Result<(), String>) -> (in_force: bool)
        ensures
            in_force == saved is Ok,
            final(self).draft == old(self).draft,
            saved is Ok ==> final(self).settings == old(self).draft && final(self).notice is None,
            saved matches Err(e) ==> final(self).settings == old(self).settings
                && string_opt_view(final(self).notice) == Some(e@),
    {
        if let Err(error) = autostart {
            self.notice = Some(error);
        }
        match saved {
            Ok(()) => {
                self.settings = self.draft;
                self.notice = None;
                true
            },
            Err(error) => {
                self.notice = Some(error);
                false
            },
        }
    }
}

// ---------------------------------------------------------------------------
// Controls
// ---------------------------------------------------------------------------

/// The entries the three lists show, by position.
#[derive(Clone, Copy, Debug, PartialEq, Eq, Structural)]
pub struct ControlSelection {
    /// 0 for Russian, 1 for English.
    pub language: usize,
    /// 0 for 500 ms, 1 for 1 s, 2 for 2 s.
    pub refresh: usize,
    /// Green, Blue, Purple, Orange, Windows in that order.
    pub accent: usize,
    /// Whether the update check box is ticked.
    pub check_updates: bool,
}

pub open spec fn accent_index(theme: AccentTheme) -> usize {
    match theme {
        AccentTheme::Green => 0,
        AccentTheme::Blue => 1,
        AccentTheme::Purple => 2,
        AccentTheme::Orange => 3,
        AccentTheme::Windows => 4,
    }
}

/// The list entries that show `settings`; an interval the list does not
/// offer shows as 1 s.
pub open spec fn selection_spec(settings: AppSettings) -> ControlSelection {
    ControlSelection {
        language: if settings.language == UiLanguage::English {
            1
        } else {
            0
        },
        refresh: if settings.refresh_interval_ms == 500 {
            0
        } else if settings.refresh_interval_ms == 2000 {
            2
        } else {
            1
        },
        accent: accent_index(settings.accent),
        check_updates: settings.check_updates,
    }
}

/// The settings the lists yield for the chosen positions (`-1` when a list
/// has no choice) and the check box's state (1 when ticked); everything the
/// window does not show takes its default.
pub open spec fn selected_settings(language: isize, refresh: isize, accent: isize, check: isize) -> AppSettings {
    AppSettings {
        language: if language == 1 {
            UiLanguage::English
        } else {
            UiLanguage::Russian
        },
        refresh_interval_ms: if refresh == 0 {
            500
        } else if refresh == 2 {
            2000
        } else {
            1000
        },
        accent: if accent == 1 {
            AccentTheme::Blue
        } else if accent == 2 {
            AccentTheme::Purple
        } else if accent == 3 {
            AccentTheme::Orange
        } else if accent == 4 {
            AccentTheme::Windows
        } else {
            AccentTheme::Green
        },
        check_updates: check == 1,
        ..default_settings()
    }
}

/// The list entries that show `settings`.
pub fn selection_of(settings: &AppSettings) -> (r: ControlSelection)
    ensures
        r == selection_spec(*settings),
{
    let language: usize = if settings.language == UiLanguage::English {
        1
    } else {
        0
    };
    let refresh: usize = if settings.refresh_interval_ms == 500 {
        0
    } else if settings.refresh_interval_ms == 2000 {
        2
    } else {
        1
    };
    let accent: usize = match settings.accent {
        AccentTheme::Green => 0,
        AccentTheme::Blue => 1,
        AccentTheme::Purple => 2,
        AccentTheme::Orange => 3,
        AccentTheme::Windows => 4,
    };
    ControlSelection { language, refresh, accent, check_updates: settings.check_updates }
}

/// The settings the lists and the check box yield.
pub fn settings_from_selection(language: isize, refresh: isize, accent: isize, check: isize) -> (r: AppSettings)
    ensures
        r == selected_settings(language, refresh, accent, check),
{
    let defaults = AppSettings::default();
    AppSettings {
        language: if language == 1 {
            UiLanguage::English
        } else {
            UiLanguage::Russian
        },
        refresh_interval_ms: if refresh == 0 {
            500
        } else if refresh == 2 {
            2000
        } else {
            1000
        },
        accent: if accent == 1 {
            AccentTheme::Blue
        } else if accent == 2 {
            AccentTheme::Purple
        } else if accent == 3 {
            AccentTheme::Orange
        } else if accent == 4 {
            AccentTheme::Windows
        } else {
            AccentTheme::Green
        },
        check_updates: check == 1,
        ..defaults
    }
}

/// Whatever the lists show, the settings they yield are valid.
pub proof fn law_controls_yield_valid_settings(language: isize, refresh: isize, accent: isize, check: isize)
    ensures
        settings_valid(selected_settings(language, refresh, accent, check)),
{
}

/// Showing valid settings in the controls and reading them back gives the
/// same language, interval, accent and update check, with everything else
/// at its default.
pub proof fn law_controls_round_trip(settings: AppSettings)
    requires
        settings_valid(settings),
    ensures
        ({
            let c = selection_spec(settings);
            selected_settings(
                c.language as isize,
                c.refresh as isize,
                c.accent as isize,
                if c.check_updates {
                    1
                } else {
                    0
                },
            ) == AppSettings {
                language: settings.language,
                refresh_interval_ms: settings.refresh_interval_ms,
                accent: settings.accent,
                check_updates: settings.check_updates,
                ..default_settings()
            }
        }),
{
}

/// The views of a list of texts.
pub open spec fn str_views(v: Seq<&'static str>) -> Seq<Seq<char>> {
    v.map_values(|s: &'static str| s@)
}

/// The window's texts: heading, three list captions, the temperature line,
/// the three buttons (restore, cancel, apply) and the update check box.
pub open spec fn control_texts(language: UiLanguage) -> Seq<Seq<char>> {
    if language == UiLanguage::Russian {
        seq![
            "НАСТРОЙКИ"@,
            "Язык интерфейса"@,
            "Частота обновления"@,
            "Акцентный цвет"@,
            "Температура: Цельсий"@,
            "СБРОСИТЬ"@,
            "ОТМЕНА"@,
            "ПРИМЕНИТЬ"@,
            "Проверять обновления при запуске"@,
        ]
    } else {
        seq![
            "SETTINGS"@,
            "Interface language"@,
            "Refresh interval"@,
            "Accent color"@,
            "Temperature: Celsius"@,
            "RESTORE DEFAULTS"@,
            "CANCEL"@,
            "APPLY"@,
            "Check for updates at startup"@,
        ]
    }
}

/// The window's texts in `language`.
pub fn control_labels(language: UiLanguage) -> (r: Vec<&'static str>)
    ensures
        str_views(r@) == control_texts(language),
{
    let mut r: Vec<&'static str> = Vec::new();
    if language == UiLanguage::Russian {
        r.push("НАСТРОЙКИ");
        r.push("Язык интерфейса");
        r.push("Частота обновления");
        r.push("Акцентный цвет");
        r.push("Температура: Цельсий");
        r.push("СБРОСИТЬ");
        r.push("ОТМЕНА");
        r.push("ПРИМЕНИТЬ");
        r.push("Проверять обновления при запуске");
    } else {
        r.push("SETTINGS");
        r.push("Interface language");
        r.push("Refresh interval");
        r.push("Accent color");
        r.push("Temperature: Celsius");
        r.push("RESTORE DEFAULTS");
        r.push("CANCEL");
        r.push("APPLY");
        r.push("Check for updates at startup");
    }
    assert(str_views(r@) =~= control_texts(language));
    r
}

/// The window's title in `language`.
pub fn window_title(language: UiLanguage) -> (r: &'static str)
    ensures
        r@ == (if language == UiLanguage::Russian {
            "Настройки GPU Shark"@
        } else {
            "GPU Shark Settings"@
        }),
{
    if language == UiLanguage::Russian {
        "Настройки GPU Shark"
    } else {
        "GPU Shark Settings"
    }
}

/// The logical box (left, top, width, height) of control `i`: heading, the
/// three captions, the temperature line, the three lists, the status line,
/// the three buttons and the check box.
pub open spec fn control_box(i: int) -> (int, int, int, int) {
    if i == 0 {
        (24, 18, 472, 28)
    } else if i == 1 {
        (24, 72, 180, 24)
    } else if i == 2 {
        (24, 122, 180, 24)
    } else if i == 3 {
        (24, 172, 180, 24)
    } else if i == 4 {
        (24, 224, 472, 24)
    } else if i == 5 {
        (220, 64, 276, 170)
    } else if i == 6 {
        (220, 114, 276, 170)
    } else if i == 7 {
        (220, 164, 276, 210)
    } else if i == 8 {
        (24, 292, 472, 30)
    } else if i == 9 {
        (24, 326, 180, 32)
    } else if i == 10 {
        (292, 326, 96, 32)
    } else if i == 11 {
        (400, 326, 96, 32)
    } else {
        (24, 254, 472, 30)
    }
}

/// A logical coordinate of the settings window in a client area `physical`
/// pixels across where the logical area is `logical`.
pub open spec fn to_client(value: int, logical: int, physical: int) -> int {
    if physical <= 0 {
        value
    } else {
        rescaled(value, physical, logical)
    }
}

/// Control `i`'s box in a client area of `width` by `height` pixels.
pub open spec fn placed_box(i: int, width: int, height: int) -> (int, int, int, int) {
    let b = control_box(i);
    (
        to_client(b.0, SETTINGS_CLIENT_WIDTH as int, width),
        to_client(b.1, SETTINGS_CLIENT_HEIGHT as int, height),
        to_client(b.2, SETTINGS_CLIENT_WIDTH as int, width),
        to_client(b.3, SETTINGS_CLIENT_HEIGHT as int, height),
    )
}

fn place(
    b: (i32, i32, i32, i32),
    width: i32,
    height: i32,
) -> (r: (i32, i32, i32, i32))
    ensures
        r.0 == to_client(b.0 as int, SETTINGS_CLIENT_WIDTH as int, width as int),
        r.1 == to_client(b.1 as int, SETTINGS_CLIENT_HEIGHT as int, height as int),
        r.2 == to_client(b.2 as int, SETTINGS_CLIENT_WIDTH as int, width as int),
        r.3 == to_client(b.3 as int, SETTINGS_CLIENT_HEIGHT as int, height as int),
{
    (
        scale_to_client(b.0, SETTINGS_CLIENT_WIDTH, width),
        scale_to_client(b.1, SETTINGS_CLIENT_HEIGHT, height),
        scale_to_client(b.2, SETTINGS_CLIENT_WIDTH, width),
        scale_to_client(b.3, SETTINGS_CLIENT_HEIGHT, height),
    )
}

/// Where the thirteen controls go in a client area of `width` by `height`
/// pixels, in the order of `control_box`.
pub fn control_layout(width: i32, height: i32) -> (r: Vec<(i32, i32, i32, i32)>)
    ensures
        r@.len() == 13,
        forall|i: int|
            0 <= i < 13 ==> {
                let p = #[trigger] r@[i];
                (p.0 as int, p.1 as int, p.2 as int, p.3 as int) == placed_box(i, width as int, height as int)
            },
{
    let boxes: [(i32, i32, i32, i32); 13] = [
        (24, 18, 472, 28),
        (24, 72, 180, 24),
        (24, 122, 180, 24),
        (24, 172, 180, 24),
        (24, 224, 472, 24),
        (220, 64, 276, 170),
        (220, 114, 276, 170),
        (220, 164, 276, 210),
        (24, 292, 472, 30),
        (24, 326, 180, 32),
        (292, 326, 96, 32),
        (400, 326, 96, 32),
        (24, 254, 472, 30),
    ];
    let mut r: Vec<(i32, i32, i32, i32)> = Vec::new();
    let mut i: usize = 0;
    while i < 13
        invariant
            i <= 13,
            r@.len() == i,
            forall|k: int| 0 <= k < 13 ==> {
                let b = #[trigger] boxes@[k];
                (b.0 as int, b.1 as int, b.2 as int, b.3 as int) == control_box(k)
            },
            forall|k: int|
                0 <= k < i ==> {
                    let p = #[trigger] r@[k];
                    (p.0 as int, p.1 as int, p.2 as int, p.3 as int) == placed_box(
                        k,
                        width as int,
                        height as int,
                    )
                },
        decreases 13 - i,
    {
        let b = boxes[i];
        let p = place(b, width, height);
        r.push(p);
        i = i + 1;
    }
    r
}

} // verus!
