use gpu_shark::gui_i18n::{Key, Language};

#[test]
fn refresh_hint_matches_supported_intervals() {
    assert_eq!(
        Language::English.refresh_hint(500),
        "Refreshes every 500 ms · double-click shows the maximum"
    );
    assert_eq!(
        Language::Russian.refresh_hint(2_000),
        "Обновление каждые 2 с · двойной клик показывает максимум"
    );
}

#[test]
fn feedback_copy_is_fully_localized() {
    assert_eq!(
        Language::English.text(Key::FeedbackConsent),
        "I agree to send the listed data to the feedback server."
    );
    assert_eq!(
        Language::English.feedback_required(),
        "Enter a message and confirm consent to send it."
    );
    assert_eq!(
        Language::English.feedback_accepted("R-42"),
        "Report accepted. ID: R-42"
    );
    assert_eq!(
        Language::Russian.feedback_server_error(),
        "Временная ошибка сервера. Попробуйте позднее."
    );
    assert_eq!(Language::Russian.text(Key::About), "О ПРОГРАММЕ");
}

#[test]
fn language_follows_the_russian_flag() {
    assert_eq!(Language::from_russian(true), Language::Russian);
    assert_eq!(Language::from_russian(false), Language::English);
}

#[test]
fn parameterized_feedback_messages_carry_their_detail() {
    assert_eq!(
        Language::English.feedback_rejected("bad field"),
        "Report rejected: bad field"
    );
    assert_eq!(
        Language::Russian.feedback_network_error("timeout"),
        "Ошибка сети: timeout"
    );
    assert_eq!(
        Language::English.feedback_payload_too_large(),
        "The report exceeds 256 KB (413)."
    );
    assert_eq!(
        Language::English.feedback_rate_limited(),
        "Rate limit reached. Try again later (429)."
    );
    assert_eq!(Language::English.feedback_sending_status(), "Sending…");
}

#[test]
fn every_russian_text_is_translated() {
    let keys = [
        Key::Sensors, Key::Selected, Key::GpuActivity, Key::System, Key::ChooseSensor,
        Key::ChooseSensorHint, Key::History, Key::Reset, Key::Max, Key::Min, Key::Feedback,
        Key::FeedbackPrivacy, Key::FeedbackContact, Key::FeedbackDescription,
        Key::FeedbackConsent, Key::FeedbackSending, Key::FeedbackSubmit, Key::About,
        Key::AboutTagline, Key::AboutReadOnly, Key::AboutLicense, Key::PerfCapDetail,
        Key::PerfCapNoGraph, Key::Back, Key::Settings, Key::Beta, Key::UnknownGpu,
        Key::Unavailable, Key::UpdateCheck, Key::UpdateChecking, Key::UpdateAvailable,
        Key::UpdateOpen, Key::UpdateUpToDate, Key::UpdateFailed, Key::UpdateDisabled,
        Key::UpdateInstall, Key::UpdateRestart, Key::UpdateDownloading, Key::UpdateReady,
        Key::UpdateInstallFailed,
    ];
    for key in keys {
        let russian = Language::Russian.text(key);
        let english = Language::English.text(key);
        assert!(!russian.is_empty() && !english.is_empty());
        assert_ne!(russian, english);
    }
}
