//! User-facing strings in English and Russian.

use vstd::prelude::*;

verus! {

/// The language of the user interface.
#[derive(Clone, Copy, Debug, PartialEq, Eq, Structural)]
pub enum Language {
    English,
    Russian,
}

/// A user-facing text.
#[derive(Clone, Copy, Debug, PartialEq, Eq, Structural)]
pub enum Key {
    Sensors,
    Selected,
    GpuActivity,
    System,
    ChooseSensor,
    ChooseSensorHint,
    History,
    Reset,
    Max,
    Min,
    Feedback,
    FeedbackPrivacy,
    FeedbackContact,
    FeedbackDescription,
    FeedbackConsent,
    FeedbackSending,
    FeedbackSubmit,
    About,
    AboutTagline,
    AboutReadOnly,
    AboutLicense,
    PerfCapDetail,
    PerfCapNoGraph,
    Back,
    Settings,
    Beta,
    UnknownGpu,
    Unavailable,
    UpdateCheck,
    UpdateChecking,
    UpdateAvailable,
    UpdateOpen,
    UpdateUpToDate,
    UpdateFailed,
    UpdateDisabled,
    UpdateInstall,
    UpdateRestart,
    UpdateDownloading,
    UpdateReady,
    UpdateInstallFailed,
}

/// The text for `key` in `language`.
pub open spec fn text_of(language: Language, key: Key) -> Seq<char> {
    match (language, key) {
        (Language::Russian, Key::Sensors) => "ДАТЧИКИ"@,
        (Language::Russian, Key::Selected) => "ВЫБРАННЫЙ ДАТЧИК"@,
        (Language::Russian, Key::GpuActivity) => "АКТИВНОСТЬ GPU"@,
        (Language::Russian, Key::System) => "СИСТЕМА"@,
        (Language::Russian, Key::ChooseSensor) => "Выберите датчик"@,
        (Language::Russian, Key::ChooseSensorHint) => "Нажмите на значение, чтобы начать запись истории."@,
        (Language::Russian, Key::History) => "ИСТОРИЯ"@,
        (Language::Russian, Key::Reset) => "СБРОС"@,
        (Language::Russian, Key::Max) => "МАКС"@,
        (Language::Russian, Key::Min) => "МИН"@,
        (Language::Russian, Key::Feedback) => "ОБРАТНАЯ СВЯЗЬ"@,
        (Language::Russian, Key::FeedbackPrivacy) => "В отчёт попадут только название GPU, публичные датчики и введённый вами текст."@,
        (Language::Russian, Key::FeedbackContact) => "Контакт для ответа (необязательно):"@,
        (Language::Russian, Key::FeedbackDescription) => "Описание проблемы:"@,
        (Language::Russian, Key::FeedbackConsent) => "Я согласен отправить указанные данные на сервер обратной связи."@,
        (Language::Russian, Key::FeedbackSending) => "ОТПРАВКА…"@,
        (Language::Russian, Key::FeedbackSubmit) => "ОТПРАВИТЬ ОТЧЁТ"@,
        (Language::Russian, Key::About) => "О ПРОГРАММЕ"@,
        (Language::Russian, Key::AboutTagline) => "Компактный монитор телеметрии GPU."@,
        (Language::Russian, Key::AboutReadOnly) => "Только мониторинг. Управление оборудованием отсутствует."@,
        (Language::Russian, Key::AboutLicense) => "Публичный GUI распространяется по лицензии Beerware."@,
        (Language::Russian, Key::PerfCapDetail) => "Текущая причина ограничения производительности NVIDIA."@,
        (Language::Russian, Key::PerfCapNoGraph) => "Категориальное состояние без числового графика."@,
        (Language::Russian, Key::Back) => "НАЗАД"@,
        (Language::Russian, Key::Settings) => "НАСТРОЙКИ"@,
        (Language::Russian, Key::Beta) => "БЕТА"@,
        (Language::Russian, Key::UnknownGpu) => "Неизвестная видеокарта — отправьте отчёт через обратную связь."@,
        (Language::Russian, Key::Unavailable) => "ТЕЛЕМЕТРИЯ НЕДОСТУПНА"@,
        (Language::Russian, Key::UpdateCheck) => "Проверить обновления"@,
        (Language::Russian, Key::UpdateChecking) => "Проверка обновлений…"@,
        (Language::Russian, Key::UpdateAvailable) => "Доступна новая версия:"@,
        (Language::Russian, Key::UpdateOpen) => "Открыть страницу загрузки"@,
        (Language::Russian, Key::UpdateUpToDate) => "У вас последняя версия."@,
        (Language::Russian, Key::UpdateFailed) => "Не удалось проверить обновления."@,
        (Language::Russian, Key::UpdateDisabled) => "Автопроверка обновлений отключена в настройках."@,
        (Language::Russian, Key::UpdateInstall) => "Скачать и установить"@,
        (Language::Russian, Key::UpdateRestart) => "Перезапустить и обновить"@,
        (Language::Russian, Key::UpdateDownloading) => "Загрузка обновления…"@,
        (Language::Russian, Key::UpdateReady) => "Обновление загружено и проверено."@,
        (Language::Russian, Key::UpdateInstallFailed) => "Не удалось установить обновление."@,
        (Language::English, Key::Sensors) => "SENSORS"@,
        (Language::English, Key::Selected) => "SELECTED SENSOR"@,
        (Language::English, Key::GpuActivity) => "GPU ACTIVITY"@,
        (Language::English, Key::System) => "SYSTEM"@,
        (Language::English, Key::ChooseSensor) => "Choose a sensor"@,
        (Language::English, Key::ChooseSensorHint) => "Click a value to start its local history."@,
        (Language::English, Key::History) => "HISTORY"@,
        (Language::English, Key::Reset) => "RESET"@,
        (Language::English, Key::Max) => "MAX"@,
        (Language::English, Key::Min) => "MIN"@,
        (Language::English, Key::Feedback) => "FEEDBACK"@,
        (Language::English, Key::FeedbackPrivacy) => "The report includes only the GPU name, public sensors, and the text you enter."@,
        (Language::English, Key::FeedbackContact) => "Contact for a reply (optional):"@,
        (Language::English, Key::FeedbackDescription) => "Problem description:"@,
        (Language::English, Key::FeedbackConsent) => "I agree to send the listed data to the feedback server."@,
        (Language::English, Key::FeedbackSending) => "SENDING…"@,
        (Language::English, Key::FeedbackSubmit) => "SEND REPORT"@,
        (Language::English, Key::About) => "ABOUT"@,
        (Language::English, Key::AboutTagline) => "A compact GPU telemetry monitor."@,
        (Language::English, Key::AboutReadOnly) => "Monitoring only. No hardware controls are available."@,
        (Language::English, Key::AboutLicense) => "The public GUI is distributed under the Beerware license."@,
        (Language::English, Key::PerfCapDetail) => "Current NVIDIA performance-limit reason."@,
        (Language::English, Key::PerfCapNoGraph) => "Categorical state without a numeric graph."@,
        (Language::English, Key::Back) => "BACK"@,
        (Language::English, Key::Settings) => "SETTINGS"@,
        (Language::English, Key::Beta) => "BETA"@,
        (Language::English, Key::UnknownGpu) => "Unknown GPU — send a report through feedback."@,
        (Language::English, Key::Unavailable) => "TELEMETRY UNAVAILABLE"@,
        (Language::English, Key::UpdateCheck) => "Check for updates"@,
        (Language::English, Key::UpdateChecking) => "Checking for updates…"@,
        (Language::English, Key::UpdateAvailable) => "New version available:"@,
        (Language::English, Key::UpdateOpen) => "Open the download page"@,
        (Language::English, Key::UpdateUpToDate) => "You have the latest version."@,
        (Language::English, Key::UpdateFailed) => "Could not check for updates."@,
        (Language::English, Key::UpdateDisabled) => "Automatic update checks are disabled in Settings."@,
        (Language::English, Key::UpdateInstall) => "Download and install"@,
        (Language::English, Key::UpdateRestart) => "Restart to update"@,
        (Language::English, Key::UpdateDownloading) => "Downloading update…"@,
        (Language::English, Key::UpdateReady) => "The update is downloaded and verified."@,
        (Language::English, Key::UpdateInstallFailed) => "Could not install the update."@,
    }
}

/// The Russian localization is complete: every text has a Russian
/// version, none is empty, and none is left in English.
#[verifier::spinoff_prover]
#[verifier::rlimit(50)]
pub proof fn law_russian_localization_is_complete(key: Key)
    ensures
        text_of(Language::Russian, key).len() > 0,
        text_of(Language::English, key).len() > 0,
        text_of(Language::Russian, key) != text_of(Language::English, key),
{
    match key {
        Key::Sensors => {
            reveal_strlit("ДАТЧИКИ");
            reveal_strlit("SENSORS");
            assert(text_of(Language::Russian, key)[0] != text_of(Language::English, key)[0]);
        },
        Key::Selected => {
            reveal_strlit("ВЫБРАННЫЙ ДАТЧИК");
            reveal_strlit("SELECTED SENSOR");
            assert(text_of(Language::Russian, key)[0] != text_of(Language::English, key)[0]);
        },
        Key::GpuActivity => {
            reveal_strlit("АКТИВНОСТЬ GPU");
            reveal_strlit("GPU ACTIVITY");
            assert(text_of(Language::Russian, key)[0] != text_of(Language::English, key)[0]);
        },
        Key::System => {
            reveal_strlit("СИСТЕМА");
            reveal_strlit("SYSTEM");
            assert(text_of(Language::Russian, key)[0] != text_of(Language::English, key)[0]);
        },
        Key::ChooseSensor => {
            reveal_strlit("Выберите датчик");
            reveal_strlit("Choose a sensor");
            assert(text_of(Language::Russian, key)[0] != text_of(Language::English, key)[0]);
        },
        Key::ChooseSensorHint => {
            reveal_strlit("Нажмите на значение, чтобы начать запись истории.");
            reveal_strlit("Click a value to start its local history.");
            assert(text_of(Language::Russian, key)[0] != text_of(Language::English, key)[0]);
        },
        Key::History => {
            reveal_strlit("ИСТОРИЯ");
            reveal_strlit("HISTORY");
            assert(text_of(Language::Russian, key)[0] != text_of(Language::English, key)[0]);
        },
        Key::Reset => {
            reveal_strlit("СБРОС");
            reveal_strlit("RESET");
            assert(text_of(Language::Russian, key)[0] != text_of(Language::English, key)[0]);
        },
        Key::Max => {
            reveal_strlit("МАКС");
            reveal_strlit("MAX");
            assert(text_of(Language::Russian, key)[0] != text_of(Language::English, key)[0]);
        },
        Key::Min => {
            reveal_strlit("МИН");
            reveal_strlit("MIN");
            assert(text_of(Language::Russian, key)[0] != text_of(Language::English, key)[0]);
        },
        Key::Feedback => {
            reveal_strlit("ОБРАТНАЯ СВЯЗЬ");
            reveal_strlit("FEEDBACK");
            assert(text_of(Language::Russian, key)[0] != text_of(Language::English, key)[0]);
        },
        Key::FeedbackPrivacy => {
            reveal_strlit("В отчёт попадут только название GPU, публичные датчики и введённый вами текст.");
            reveal_strlit("The report includes only the GPU name, public sensors, and the text you enter.");
            assert(text_of(Language::Russian, key)[0] != text_of(Language::English, key)[0]);
        },
        Key::FeedbackContact => {
            reveal_strlit("Контакт для ответа (необязательно):");
            reveal_strlit("Contact for a reply (optional):");
            assert(text_of(Language::Russian, key)[0] != text_of(Language::English, key)[0]);
        },
        Key::FeedbackDescription => {
            reveal_strlit("Описание проблемы:");
            reveal_strlit("Problem description:");
            assert(text_of(Language::Russian, key)[0] != text_of(Language::English, key)[0]);
        },
        Key::FeedbackConsent => {
            reveal_strlit("Я согласен отправить указанные данные на сервер обратной связи.");
            reveal_strlit("I agree to send the listed data to the feedback server.");
            assert(text_of(Language::Russian, key)[0] != text_of(Language::English, key)[0]);
        },
        Key::FeedbackSending => {
            reveal_strlit("ОТПРАВКА…");
            reveal_strlit("SENDING…");
            assert(text_of(Language::Russian, key)[0] != text_of(Language::English, key)[0]);
        },
        Key::FeedbackSubmit => {
            reveal_strlit("ОТПРАВИТЬ ОТЧЁТ");
            reveal_strlit("SEND REPORT");
            assert(text_of(Language::Russian, key)[0] != text_of(Language::English, key)[0]);
        },
        Key::About => {
            reveal_strlit("О ПРОГРАММЕ");
            reveal_strlit("ABOUT");
            assert(text_of(Language::Russian, key)[0] != text_of(Language::English, key)[0]);
        },
        Key::AboutTagline => {
            reveal_strlit("Компактный монитор телеметрии GPU.");
            reveal_strlit("A compact GPU telemetry monitor.");
            assert(text_of(Language::Russian, key)[0] != text_of(Language::English, key)[0]);
        },
        Key::AboutReadOnly => {
            reveal_strlit("Только мониторинг. Управление оборудованием отсутствует.");
            reveal_strlit("Monitoring only. No hardware controls are available.");
            assert(text_of(Language::Russian, key)[0] != text_of(Language::English, key)[0]);
        },
        Key::AboutLicense => {
            reveal_strlit("Публичный GUI распространяется по лицензии Beerware.");
            reveal_strlit("The public GUI is distributed under the Beerware license.");
            assert(text_of(Language::Russian, key)[0] != text_of(Language::English, key)[0]);
        },
        Key::PerfCapDetail => {
            reveal_strlit("Текущая причина ограничения производительности NVIDIA.");
            reveal_strlit("Current NVIDIA performance-limit reason.");
            assert(text_of(Language::Russian, key)[0] != text_of(Language::English, key)[0]);
        },
        Key::PerfCapNoGraph => {
            reveal_strlit("Категориальное состояние без числового графика.");
            reveal_strlit("Categorical state without a numeric graph.");
            assert(text_of(Language::Russian, key)[0] != text_of(Language::English, key)[0]);
        },
        Key::Back => {
            reveal_strlit("НАЗАД");
            reveal_strlit("BACK");
            assert(text_of(Language::Russian, key)[0] != text_of(Language::English, key)[0]);
        },
        Key::Settings => {
            reveal_strlit("НАСТРОЙКИ");
            reveal_strlit("SETTINGS");
            assert(text_of(Language::Russian, key)[0] != text_of(Language::English, key)[0]);
        },
        Key::Beta => {
            reveal_strlit("БЕТА");
            reveal_strlit("BETA");
            assert(text_of(Language::Russian, key)[0] != text_of(Language::English, key)[0]);
        },
        Key::UnknownGpu => {
            reveal_strlit("Неизвестная видеокарта — отправьте отчёт через обратную связь.");
            reveal_strlit("Unknown GPU — send a report through feedback.");
            assert(text_of(Language::Russian, key)[0] != text_of(Language::English, key)[0]);
        },
        Key::Unavailable => {
            reveal_strlit("ТЕЛЕМЕТРИЯ НЕДОСТУПНА");
            reveal_strlit("TELEMETRY UNAVAILABLE");
            assert(text_of(Language::Russian, key)[0] != text_of(Language::English, key)[0]);
        },
        Key::UpdateCheck => {
            reveal_strlit("Проверить обновления");
            reveal_strlit("Check for updates");
            assert(text_of(Language::Russian, key)[0] != text_of(Language::English, key)[0]);
        },
        Key::UpdateChecking => {
            reveal_strlit("Проверка обновлений…");
            reveal_strlit("Checking for updates…");
            assert(text_of(Language::Russian, key)[0] != text_of(Language::English, key)[0]);
        },
        Key::UpdateAvailable => {
            reveal_strlit("Доступна новая версия:");
            reveal_strlit("New version available:");
            assert(text_of(Language::Russian, key)[0] != text_of(Language::English, key)[0]);
        },
        Key::UpdateOpen => {
            reveal_strlit("Открыть страницу загрузки");
            reveal_strlit("Open the download page");
            assert(text_of(Language::Russian, key)[0] != text_of(Language::English, key)[0]);
        },
        Key::UpdateUpToDate => {
            reveal_strlit("У вас последняя версия.");
            reveal_strlit("You have the latest version.");
            assert(text_of(Language::Russian, key)[0] != text_of(Language::English, key)[0]);
        },
        Key::UpdateFailed => {
            reveal_strlit("Не удалось проверить обновления.");
            reveal_strlit("Could not check for updates.");
            assert(text_of(Language::Russian, key)[0] != text_of(Language::English, key)[0]);
        },
        Key::UpdateDisabled => {
            reveal_strlit("Автопроверка обновлений отключена в настройках.");
            reveal_strlit("Automatic update checks are disabled in Settings.");
            assert(text_of(Language::Russian, key)[0] != text_of(Language::English, key)[0]);
        },
        Key::UpdateInstall => {
            reveal_strlit("Скачать и установить");
            reveal_strlit("Download and install");
            assert(text_of(Language::Russian, key)[0] != text_of(Language::English, key)[0]);
        },
        Key::UpdateRestart => {
            reveal_strlit("Перезапустить и обновить");
            reveal_strlit("Restart to update");
            assert(text_of(Language::Russian, key)[0] != text_of(Language::English, key)[0]);
        },
        Key::UpdateDownloading => {
            reveal_strlit("Загрузка обновления…");
            reveal_strlit("Downloading update…");
            assert(text_of(Language::Russian, key)[0] != text_of(Language::English, key)[0]);
        },
        Key::UpdateReady => {
            reveal_strlit("Обновление загружено и проверено.");
            reveal_strlit("The update is downloaded and verified.");
            assert(text_of(Language::Russian, key)[0] != text_of(Language::English, key)[0]);
        },
        Key::UpdateInstallFailed => {
            reveal_strlit("Не удалось установить обновление.");
            reveal_strlit("Could not install the update.");
            assert(text_of(Language::Russian, key)[0] != text_of(Language::English, key)[0]);
        },
    }
}

/// The refresh hint for a refresh interval: 500 ms and 2 s have their own
/// wording, every other interval reads as once a second.
pub open spec fn refresh_hint_of(language: Language, interval_ms: u64) -> Seq<char> {
    match language {
        Language::Russian => if interval_ms == 500 {
            "Обновление каждые 0,5 с · двойной клик показывает максимум"@
        } else if interval_ms == 2000 {
            "Обновление каждые 2 с · двойной клик показывает максимум"@
        } else {
            "Обновление раз в секунду · двойной клик показывает максимум"@
        },
        Language::English => if interval_ms == 500 {
            "Refreshes every 500 ms · double-click shows the maximum"@
        } else if interval_ms == 2000 {
            "Refreshes every 2 seconds · double-click shows the maximum"@
        } else {
            "Refreshes every second · double-click shows the maximum"@
        },
    }
}

/// Joins a fixed prefix and a detail.
fn prefixed(prefix: &str, detail: &str) -> (r: String)
    ensures
        r@ == prefix@ + detail@,
{
    let mut r = String::from_str(prefix);
    r.append(detail);
    r
}

impl Language {
    /// `Russian` when `russian` holds, otherwise `English`.
    pub fn from_russian(russian: bool) -> (r: Self)
        ensures
            r == (if russian {
                Language::Russian
            } else {
                Language::English
            }),
    {
        if russian {
            Language::Russian
        } else {
            Language::English
        }
    }

    /// The text for `key` in this language.
    pub fn text(self, key: Key) -> (r: &'static str)
        ensures
            r@ == text_of(self, key),
    {
        match (self, key) {
            (Language::Russian, Key::Sensors) => "ДАТЧИКИ",
            (Language::Russian, Key::Selected) => "ВЫБРАННЫЙ ДАТЧИК",
            (Language::Russian, Key::GpuActivity) => "АКТИВНОСТЬ GPU",
            (Language::Russian, Key::System) => "СИСТЕМА",
            (Language::Russian, Key::ChooseSensor) => "Выберите датчик",
            (Language::Russian, Key::ChooseSensorHint) => "Нажмите на значение, чтобы начать запись истории.",
            (Language::Russian, Key::History) => "ИСТОРИЯ",
            (Language::Russian, Key::Reset) => "СБРОС",
            (Language::Russian, Key::Max) => "МАКС",
            (Language::Russian, Key::Min) => "МИН",
            (Language::Russian, Key::Feedback) => "ОБРАТНАЯ СВЯЗЬ",
            (Language::Russian, Key::FeedbackPrivacy) => "В отчёт попадут только название GPU, публичные датчики и введённый вами текст.",
            (Language::Russian, Key::FeedbackContact) => "Контакт для ответа (необязательно):",
            (Language::Russian, Key::FeedbackDescription) => "Описание проблемы:",
            (Language::Russian, Key::FeedbackConsent) => "Я согласен отправить указанные данные на сервер обратной связи.",
            (Language::Russian, Key::FeedbackSending) => "ОТПРАВКА…",
            (Language::Russian, Key::FeedbackSubmit) => "ОТПРАВИТЬ ОТЧЁТ",
            (Language::Russian, Key::About) => "О ПРОГРАММЕ",
            (Language::Russian, Key::AboutTagline) => "Компактный монитор телеметрии GPU.",
            (Language::Russian, Key::AboutReadOnly) => "Только мониторинг. Управление оборудованием отсутствует.",
            (Language::Russian, Key::AboutLicense) => "Публичный GUI распространяется по лицензии Beerware.",
            (Language::Russian, Key::PerfCapDetail) => "Текущая причина ограничения производительности NVIDIA.",
            (Language::Russian, Key::PerfCapNoGraph) => "Категориальное состояние без числового графика.",
            (Language::Russian, Key::Back) => "НАЗАД",
            (Language::Russian, Key::Settings) => "НАСТРОЙКИ",
            (Language::Russian, Key::Beta) => "БЕТА",
            (Language::Russian, Key::UnknownGpu) => "Неизвестная видеокарта — отправьте отчёт через обратную связь.",
            (Language::Russian, Key::Unavailable) => "ТЕЛЕМЕТРИЯ НЕДОСТУПНА",
            (Language::Russian, Key::UpdateCheck) => "Проверить обновления",
            (Language::Russian, Key::UpdateChecking) => "Проверка обновлений…",
            (Language::Russian, Key::UpdateAvailable) => "Доступна новая версия:",
            (Language::Russian, Key::UpdateOpen) => "Открыть страницу загрузки",
            (Language::Russian, Key::UpdateUpToDate) => "У вас последняя версия.",
            (Language::Russian, Key::UpdateFailed) => "Не удалось проверить обновления.",
            (Language::Russian, Key::UpdateDisabled) => "Автопроверка обновлений отключена в настройках.",
            (Language::Russian, Key::UpdateInstall) => "Скачать и установить",
            (Language::Russian, Key::UpdateRestart) => "Перезапустить и обновить",
            (Language::Russian, Key::UpdateDownloading) => "Загрузка обновления…",
            (Language::Russian, Key::UpdateReady) => "Обновление загружено и проверено.",
            (Language::Russian, Key::UpdateInstallFailed) => "Не удалось установить обновление.",
            (Language::English, Key::Sensors) => "SENSORS",
            (Language::English, Key::Selected) => "SELECTED SENSOR",
            (Language::English, Key::GpuActivity) => "GPU ACTIVITY",
            (Language::English, Key::System) => "SYSTEM",
            (Language::English, Key::ChooseSensor) => "Choose a sensor",
            (Language::English, Key::ChooseSensorHint) => "Click a value to start its local history.",
            (Language::English, Key::History) => "HISTORY",
            (Language::English, Key::Reset) => "RESET",
            (Language::English, Key::Max) => "MAX",
            (Language::English, Key::Min) => "MIN",
            (Language::English, Key::Feedback) => "FEEDBACK",
            (Language::English, Key::FeedbackPrivacy) => "The report includes only the GPU name, public sensors, and the text you enter.",
            (Language::English, Key::FeedbackContact) => "Contact for a reply (optional):",
            (Language::English, Key::FeedbackDescription) => "Problem description:",
            (Language::English, Key::FeedbackConsent) => "I agree to send the listed data to the feedback server.",
            (Language::English, Key::FeedbackSending) => "SENDING…",
            (Language::English, Key::FeedbackSubmit) => "SEND REPORT",
            (Language::English, Key::About) => "ABOUT",
            (Language::English, Key::AboutTagline) => "A compact GPU telemetry monitor.",
            (Language::English, Key::AboutReadOnly) => "Monitoring only. No hardware controls are available.",
            (Language::English, Key::AboutLicense) => "The public GUI is distributed under the Beerware license.",
            (Language::English, Key::PerfCapDetail) => "Current NVIDIA performance-limit reason.",
            (Language::English, Key::PerfCapNoGraph) => "Categorical state without a numeric graph.",
            (Language::English, Key::Back) => "BACK",
            (Language::English, Key::Settings) => "SETTINGS",
            (Language::English, Key::Beta) => "BETA",
            (Language::English, Key::UnknownGpu) => "Unknown GPU — send a report through feedback.",
            (Language::English, Key::Unavailable) => "TELEMETRY UNAVAILABLE",
            (Language::English, Key::UpdateCheck) => "Check for updates",
            (Language::English, Key::UpdateChecking) => "Checking for updates…",
            (Language::English, Key::UpdateAvailable) => "New version available:",
            (Language::English, Key::UpdateOpen) => "Open the download page",
            (Language::English, Key::UpdateUpToDate) => "You have the latest version.",
            (Language::English, Key::UpdateFailed) => "Could not check for updates.",
            (Language::English, Key::UpdateDisabled) => "Automatic update checks are disabled in Settings.",
            (Language::English, Key::UpdateInstall) => "Download and install",
            (Language::English, Key::UpdateRestart) => "Restart to update",
            (Language::English, Key::UpdateDownloading) => "Downloading update…",
            (Language::English, Key::UpdateReady) => "The update is downloaded and verified.",
            (Language::English, Key::UpdateInstallFailed) => "Could not install the update.",
        }
    }

    /// The status-bar hint for the refresh interval.
    pub fn refresh_hint(self, interval_ms: u64) -> (r: String)
        ensures
            r@ == refresh_hint_of(self, interval_ms),
    {
        let text = match self {
            Language::Russian => if interval_ms == 500 {
                "Обновление каждые 0,5 с · двойной клик показывает максимум"
            } else if interval_ms == 2000 {
                "Обновление каждые 2 с · двойной клик показывает максимум"
            } else {
                "Обновление раз в секунду · двойной клик показывает максимум"
            },
            Language::English => if interval_ms == 500 {
                "Refreshes every 500 ms · double-click shows the maximum"
            } else if interval_ms == 2000 {
                "Refreshes every 2 seconds · double-click shows the maximum"
            } else {
                "Refreshes every second · double-click shows the maximum"
            },
        };
        String::from_str(text)
    }

    pub fn feedback_required(self) -> (r: &'static str)
        ensures
            r@ == (match self {
                Language::Russian => "Введите сообщение и подтвердите согласие на отправку."@,
                Language::English => "Enter a message and confirm consent to send it."@,
            }),
    {
        match self {
            Language::Russian => "Введите сообщение и подтвердите согласие на отправку.",
            Language::English => "Enter a message and confirm consent to send it.",
        }
    }

    pub fn feedback_sending_status(self) -> (r: &'static str)
        ensures
            r@ == (match self {
                Language::Russian => "Отправка…"@,
                Language::English => "Sending…"@,
            }),
    {
        match self {
            Language::Russian => "Отправка…",
            Language::English => "Sending…",
        }
    }

    pub fn feedback_accepted(self, report_id: &str) -> (r: String)
        ensures
            r@ == (match self {
                Language::Russian => "Отчёт принят. Номер: "@,
                Language::English => "Report accepted. ID: "@,
            }) + report_id@,
    {
        match self {
            Language::Russian => prefixed("Отчёт принят. Номер: ", report_id),
            Language::English => prefixed("Report accepted. ID: ", report_id),
        }
    }

    pub fn feedback_rejected(self, detail: &str) -> (r: String)
        ensures
            r@ == (match self {
                Language::Russian => "Отчёт отклонён: "@,
                Language::English => "Report rejected: "@,
            }) + detail@,
    {
        match self {
            Language::Russian => prefixed("Отчёт отклонён: ", detail),
            Language::English => prefixed("Report rejected: ", detail),
        }
    }

    pub fn feedback_payload_too_large(self) -> (r: &'static str)
        ensures
            r@ == (match self {
                Language::Russian => "Отчёт превышает 256 КБ (413)."@,
                Language::English => "The report exceeds 256 KB (413)."@,
            }),
    {
        match self {
            Language::Russian => "Отчёт превышает 256 КБ (413).",
            Language::English => "The report exceeds 256 KB (413).",
        }
    }

    pub fn feedback_rate_limited(self) -> (r: &'static str)
        ensures
            r@ == (match self {
                Language::Russian => "Лимит исчерпан. Попробуйте позднее (429)."@,
                Language::English => "Rate limit reached. Try again later (429)."@,
            }),
    {
        match self {
            Language::Russian => "Лимит исчерпан. Попробуйте позднее (429).",
            Language::English => "Rate limit reached. Try again later (429).",
        }
    }

    pub fn feedback_server_error(self) -> (r: &'static str)
        ensures
            r@ == (match self {
                Language::Russian => "Временная ошибка сервера. Попробуйте позднее."@,
                Language::English => "Temporary server error. Try again later."@,
            }),
    {
        match self {
            Language::Russian => "Временная ошибка сервера. Попробуйте позднее.",
            Language::English => "Temporary server error. Try again later.",
        }
    }

    pub fn feedback_network_error(self, error: &str) -> (r: String)
        ensures
            r@ == (match self {
                Language::Russian => "Ошибка сети: "@,
                Language::English => "Network error: "@,
            }) + error@,
    {
        match self {
            Language::Russian => prefixed("Ошибка сети: ", error),
            Language::English => prefixed("Network error: ", error),
        }
    }
}

} // verus!
