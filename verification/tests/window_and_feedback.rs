use gpu_shark::bitmap::decode_bmp;
use gpu_shark::feedback::{
    build_report, check_payload_size, check_request, check_response_size, classify_response,
    clipped, confirmation, status_error, AcceptedResponse, FeedbackForm, FeedbackStatus,
    ResponseKind, SubmitError,
};
use gpu_shark::gui_i18n::Language;
use gpu_shark::gui_view::header_nav_layout;
use gpu_shark::main_window::{
    click_action, double_click_target, mouse_point, next_overlay, ClickAction, Overlay,
};
use gpu_shark::telemetry::{telemetry_text, TelemetryError};
use gpu_shark::{dll_library_path, SensorReading, SysInfo};

fn info(sensors: &[(&str, f32, &str)]) -> SysInfo<f32> {
    SysInfo {
        gpu_name: Some("Fixture".to_owned()),
        core: None,
        hotspot: None,
        vram_temp: None,
        vram_used: None,
        fan: None,
        cpu_temp: None,
        delta: None,
        sensors: sensors
            .iter()
            .map(|(name, value, unit)| SensorReading {
                name: (*name).to_owned(),
                value: *value,
                unit: (*unit).to_owned(),
            })
            .collect(),
        perfcap_reason: None,
        error: None,
    }
}

fn kind(action: &ClickAction<f32>) -> &'static str {
    match action {
        ClickAction::ShowFeedback => "feedback",
        ClickAction::ShowSettings => "settings",
        ClickAction::ShowAbout => "about",
        ClickAction::ToggleConsent => "consent",
        ClickAction::SubmitFeedback => "submit",
        ClickAction::CloseFeedback => "close feedback",
        ClickAction::CloseAbout => "close about",
        ClickAction::UpdateAction => "update",
        ClickAction::OpenReleasePage => "release page",
        ClickAction::ResetHistory => "reset",
        ClickAction::Select(_) => "select",
        ClickAction::Nothing => "nothing",
    }
}

#[test]
fn header_links_win_over_every_panel() {
    let nav = header_nav_layout(964, 119, 91, 139);
    let snapshot = info(&[("GPU Core", 60.0, "°C")]);
    for overlay in [Overlay::Dashboard, Overlay::Feedback, Overlay::About] {
        assert_eq!(kind(&click_action(overlay, &nav, Some(&snapshot), 880, 30)), "feedback");
        assert_eq!(kind(&click_action(overlay, &nav, Some(&snapshot), 740, 30)), "settings");
        assert_eq!(kind(&click_action(overlay, &nav, Some(&snapshot), 600, 54)), "about");
    }
    // Below the header band the links do not answer.
    assert_eq!(kind(&click_action(Overlay::About, &nav, None, 600, 55)), "nothing");
}

#[test]
fn overlays_take_their_own_clicks() {
    let nav = header_nav_layout(964, 119, 91, 139);
    assert_eq!(kind(&click_action::<f32>(Overlay::Feedback, &nav, None, 100, 450)), "consent");
    assert_eq!(kind(&click_action::<f32>(Overlay::Feedback, &nav, None, 100, 500)), "submit");
    assert_eq!(kind(&click_action::<f32>(Overlay::Feedback, &nav, None, 900, 100)), "close feedback");
    assert_eq!(kind(&click_action::<f32>(Overlay::About, &nav, None, 900, 170)), "close about");
    assert_eq!(kind(&click_action::<f32>(Overlay::About, &nav, None, 100, 450)), "nothing");
    assert_eq!(next_overlay(Overlay::Feedback, &ClickAction::<f32>::ShowAbout), Overlay::About);
    assert_eq!(next_overlay(Overlay::About, &ClickAction::<f32>::CloseAbout), Overlay::Dashboard);
    assert_eq!(next_overlay(Overlay::About, &ClickAction::<f32>::ShowSettings), Overlay::About);
}

#[test]
fn the_dashboard_selects_rows_and_resets_from_the_graph_corner() {
    let nav = header_nav_layout(964, 119, 91, 139);
    let snapshot = info(&[("GPU Core", 60.0, "°C"), ("Hot Spot", 74.0, "°C")]);
    match click_action(Overlay::Dashboard, &nav, Some(&snapshot), 100, 190) {
        ClickAction::Select(sensor) => assert_eq!(sensor.name, "GPU Core"),
        other => panic!("unexpected {}", kind(&other)),
    }
    assert_eq!(kind(&click_action(Overlay::Dashboard, &nav, Some(&snapshot), 900, 250)), "reset");
    assert_eq!(kind(&click_action(Overlay::Dashboard, &nav, Some(&snapshot), 700, 300)), "nothing");
    assert_eq!(kind(&click_action::<f32>(Overlay::Dashboard, &nav, None, 100, 190)), "nothing");
    assert_eq!(
        double_click_target(Overlay::Dashboard, Some(&snapshot), 100, 190).unwrap().name,
        "GPU Core"
    );
    assert!(double_click_target(Overlay::About, Some(&snapshot), 100, 190).is_none());
}

#[test]
fn mouse_coordinates_are_signed_words() {
    assert_eq!(mouse_point(0x0014_000a), (10, 20));
    assert_eq!(mouse_point(0xffff_fffe), (-2, -1));
}

#[test]
fn feedback_requests_need_a_message_consent_and_a_plausible_contact() {
    assert!(matches!(
        check_request("  ", None, true),
        Err(SubmitError::InvalidPayload(m)) if m == "message or consent is missing"
    ));
    assert!(matches!(
        check_request("hi", None, false),
        Err(SubmitError::InvalidPayload(m)) if m == "message or consent is missing"
    ));
    assert!(matches!(
        check_request("hi", Some("nobody"), true),
        Err(SubmitError::InvalidPayload(m)) if m == "contact must be a valid email or empty"
    ));
    let long = format!("{}@x.io", "a".repeat(250));
    assert!(check_request("hi", Some(&long), true).is_err());
    assert_eq!(check_request("hi", Some("  a@b.c "), true).unwrap(), Some("a@b.c".to_owned()));
    assert_eq!(check_request("hi", Some("   "), true).unwrap(), None);
}

#[test]
fn reports_are_bounded() {
    assert_eq!(clipped("abcdef", 3), "abc");
    assert_eq!(clipped("ab", 3), "ab");
    let sensors: Vec<SensorReading<f32>> = (0..130)
        .map(|i| SensorReading { name: format!("S{i}"), value: i as f32, unit: "%".repeat(30) })
        .collect();
    let report = build_report(
        &Some("G".repeat(300)),
        &None,
        &sensors,
        "  hello  ",
        Some("a@b.c".to_owned()),
        "en",
    );
    assert_eq!(report.sensors.len(), 128);
    assert_eq!(report.sensors[0].unit.len(), 24);
    assert_eq!(report.gpu_name.as_ref().unwrap().len(), 256);
    assert_eq!(report.message, "hello");
    assert_eq!(report.locale, "en");
    assert!(check_payload_size(256 * 1024).is_ok());
    assert!(matches!(check_payload_size(256 * 1024 + 1), Err(SubmitError::PayloadTooLarge)));
    assert!(check_response_size(65536).is_ok());
    assert!(matches!(check_response_size(65537), Err(SubmitError::Network(m)) if m == "Server response is too large"));
}

#[test]
fn server_answers_are_classified() {
    assert_eq!(classify_response(201), ResponseKind::Created);
    assert_eq!(classify_response(400), ResponseKind::Rejected);
    assert_eq!(classify_response(413), ResponseKind::TooLarge);
    assert_eq!(classify_response(429), ResponseKind::RateLimited);
    assert_eq!(classify_response(503), ResponseKind::ServerError);
    assert_eq!(classify_response(302), ResponseKind::Unexpected);
    assert!(matches!(status_error(599), SubmitError::Server));
    assert!(matches!(status_error(302), SubmitError::Network(m) if m == "Unexpected HTTP status 302"));
    let accepted = AcceptedResponse { report_id: "R-42".to_owned(), status: "accepted".to_owned() };
    assert_eq!(confirmation(Ok(accepted)).unwrap(), "R-42");
    let blank = AcceptedResponse { report_id: "  ".to_owned(), status: "accepted".to_owned() };
    assert!(matches!(confirmation(Ok(blank)), Err(SubmitError::Network(m)) if m == "Invalid report confirmation"));
    assert!(matches!(
        confirmation(Err("eof".to_owned())),
        Err(SubmitError::Network(m)) if m == "Invalid success response: eof"
    ));
}

#[test]
fn the_feedback_form_sends_one_report_at_a_time() {
    let mut form = FeedbackForm::new();
    assert!(!form.begin_submit("hello"));
    assert_eq!(
        form.status_line(Language::English),
        "Enter a message and confirm consent to send it."
    );
    form.toggle_consent();
    assert!(form.consent());
    assert!(!form.begin_submit("   "));
    assert!(form.begin_submit("hello"));
    assert_eq!(form.status_line(Language::English), "Sending…");
    assert!(!form.begin_submit("hello again"));
    form.finish_submit(Ok("R-7".to_owned()));
    assert_eq!(form.status_line(Language::English), "Report accepted. ID: R-7");
    assert!(form.begin_submit("hello"));
    form.finish_submit(Err(SubmitError::RateLimited));
    assert_eq!(
        form.status_line(Language::English),
        "Rate limit reached. Try again later (429)."
    );
    assert!(matches!(
        FeedbackStatus::from_outcome(Err(SubmitError::InvalidPayload("x".to_owned()))),
        FeedbackStatus::Rejected(d) if d == "x"
    ));
}

#[test]
fn telemetry_answers_must_fit_and_end_with_nul() {
    assert_eq!(dll_library_path(), "gs.dll");
    let mut buffer = [0u8; 16];
    buffer[..4].copy_from_slice(b"{}\0x");
    assert_eq!(telemetry_text(&buffer, 3).unwrap(), "{}");
    assert!(matches!(telemetry_text(&buffer, -1), Err(TelemetryError::DoesNotFit)));
    assert!(matches!(telemetry_text(&buffer, 16), Err(TelemetryError::DoesNotFit)));
    let full = [b'a'; 16];
    assert!(matches!(telemetry_text(&full, 15), Err(TelemetryError::MissingNul)));
    let bad = [0xffu8, 0xfe, 0];
    assert!(matches!(telemetry_text(&bad, 2), Err(TelemetryError::InvalidUtf8(_))));
}

fn bmp(width: i32, height: i32, pixels: &[[u8; 4]]) -> Vec<u8> {
    let mut d = vec![0u8; 54];
    d[0] = b'B';
    d[1] = b'M';
    d[10..14].copy_from_slice(&54u32.to_le_bytes());
    d[18..22].copy_from_slice(&width.to_le_bytes());
    d[22..26].copy_from_slice(&height.to_le_bytes());
    d[28..30].copy_from_slice(&32u16.to_le_bytes());
    for p in pixels {
        d.extend_from_slice(p);
    }
    d
}

#[test]
fn bitmaps_are_decoded_bottom_up_unless_height_is_negative() {
    // Stored bottom row first: blue, then the top row: red. BGRA bytes.
    let data = bmp(1, 2, &[[255, 0, 0, 0], [0, 0, 255, 0]]);
    let image = decode_bmp(&data).expect("valid bitmap");
    assert_eq!((image.width, image.height), (1, 2));
    // No alpha byte is set, so the image is opaque.
    assert_eq!(image.pixels, vec![(255, 0, 0, 255), (0, 0, 255, 255)]);

    let data = bmp(2, -1, &[[1, 2, 3, 4], [5, 6, 7, 0]]);
    let image = decode_bmp(&data).expect("top-down bitmap");
    assert_eq!(image.pixels, vec![(3, 2, 1, 4), (7, 6, 5, 0)]);
}

#[test]
fn malformed_bitmaps_are_refused() {
    assert!(decode_bmp(b"BM").is_none());
    let mut wrong_magic = bmp(1, 1, &[[0, 0, 0, 0]]);
    wrong_magic[0] = b'X';
    assert!(decode_bmp(&wrong_magic).is_none());
    let mut paletted = bmp(1, 1, &[[0, 0, 0, 0]]);
    paletted[28] = 8;
    assert!(decode_bmp(&paletted).is_none());
    assert!(decode_bmp(&bmp(0, 1, &[])).is_none());
    assert!(decode_bmp(&bmp(2, 2, &[[0, 0, 0, 0]])).is_none());
    let empty = decode_bmp(&bmp(3, 0, &[])).expect("no rows");
    assert!(empty.pixels.is_empty());
}

#[test]
fn the_about_panel_takes_update_clicks() {
    let nav = header_nav_layout(964, 119, 91, 139);
    assert_eq!(kind(&click_action::<f32>(Overlay::About, &nav, None, 300, 460)), "update");
    assert_eq!(kind(&click_action::<f32>(Overlay::About, &nav, None, 300, 500)), "release page");
    assert_eq!(kind(&click_action::<f32>(Overlay::About, &nav, None, 700, 460)), "nothing");
    assert_eq!(kind(&click_action::<f32>(Overlay::Dashboard, &nav, None, 300, 460)), "nothing");
}
