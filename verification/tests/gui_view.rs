use gpu_shark::gui_i18n::Language;
use gpu_shark::gui_view::{
    accent_color, brightened_accent, fit_to_width, graph_x, unavailable_message, window_heading, Snapshot, feedback_consent_hit, feedback_contact_edit,
    feedback_message_edit, feedback_submit_hit, group_title, header_link_contains,
    header_nav_layout, is_geforce_rtx_50_series, ordered_sensors, point_in_rect, refresh_label,
    rgb, sensor_at, sensor_at_point, sensor_label, AccentCell, Rect, HEADER_NAV_GAP, LIST_TOP,
};
use gpu_shark::sensor_model::{metadata, sensor_id, SensorGroup, SensorKind};
use gpu_shark::settings::{AccentTheme, UiLanguage};
use gpu_shark::{SensorReading, SysInfo};

fn info(sensors: &[(&str, f32, &str)], gpu_name: &str) -> SysInfo<f32> {
    SysInfo {
        gpu_name: Some(gpu_name.to_owned()),
        core: None,
        hotspot: None,
        vram_temp: None,
        vram_used: None,
        fan: None,
        cpu_temp: None,
        delta: None,
        sensors: sensors
            .iter()
            .map(|(name, value, unit)| SensorReading {
                name: (*name).to_owned(),
                value: *value,
                unit: (*unit).to_owned(),
            })
            .collect(),
        perfcap_reason: None,
        error: None,
    }
}

#[test]
fn ordered_rows_hide_memory_clock_and_keep_expected_groups() {
    let mut snapshot = info(
        &[
            ("CPU Package", 50.0, "°C"),
            ("Memory Clock", 10501.0, "MHz"),
            ("D3D 3D", 90.0, "%"),
            ("GPU Core", 60.0, "°C"),
            ("PerfCap", 1.0, "%"),
        ],
        "Visual fixture",
    );
    snapshot.perfcap_reason = Some("Pwr, VRel".to_owned());

    let rows = ordered_sensors(&snapshot);
    let names = rows.iter().map(|row| row.name.as_str()).collect::<Vec<_>>();
    assert_eq!(names, ["GPU Core", "PerfCap Reason", "D3D 3D", "CPU Package"]);
    let perfcap = rows
        .iter()
        .find(|sensor| metadata(*sensor).kind == SensorKind::PerfCap)
        .expect("categorical PerfCap row");
    assert_eq!(perfcap.unit, "Pwr, VRel");
    assert_eq!(
        rows.iter()
            .filter(|sensor| metadata(*sensor).kind == SensorKind::PerfCap)
            .count(),
        1
    );
}

#[test]
fn ordered_rows_preserve_visibility_and_perfcap_contract() {
    let mut snapshot = info(
        &[
            ("Memory Clock", 10_501.0, "MHz"),
            ("GPU Core", 60.0, "°C"),
            ("D3D 3D", 90.0, "%"),
        ],
        "egui fixture",
    );
    snapshot.perfcap_reason = Some("Pwr, VRel".into());
    let rows = ordered_sensors(&snapshot);
    assert_eq!(
        rows.iter().map(|row| row.name.as_str()).collect::<Vec<_>>(),
        ["GPU Core", "PerfCap Reason", "D3D 3D"]
    );
    assert_eq!(
        rows.iter()
            .find(|row| row.name == "PerfCap Reason")
            .unwrap()
            .unit,
        "Pwr, VRel"
    );
}

#[test]
fn rtx_50_hotspot_uses_a_localized_beta_label_without_changing_sensor_id() {
    let mut snapshot = info(&[("GPU Hot Spot", 72.0, "°C")], "Visual fixture");
    snapshot.gpu_name = Some("NVIDIA GeForce RTX 5050".to_owned());
    let hotspot = ordered_sensors(&snapshot)
        .into_iter()
        .next()
        .expect("visible HotSpot");

    assert_eq!(
        sensor_label(&hotspot, &snapshot, Language::English),
        "GPU Hot Spot (BETA)"
    );
    assert_eq!(
        sensor_label(&hotspot, &snapshot, Language::Russian),
        "GPU Hot Spot (БЕТА)"
    );
    assert_eq!(
        sensor_id(&hotspot),
        sensor_id(&SensorReading {
            name: "GPU Hot Spot".to_owned(),
            value: hotspot.value,
            unit: hotspot.unit.clone(),
        })
    );
}

#[test]
fn beta_label_is_not_applied_to_non_rtx_50_hotspots() {
    let snapshot = info(&[("GPU Hot Spot", 72.0, "°C")], "Visual fixture");
    let hotspot = ordered_sensors(&snapshot)
        .into_iter()
        .next()
        .expect("visible HotSpot");

    assert_eq!(
        sensor_label(&hotspot, &snapshot, Language::English),
        "GPU Hot Spot"
    );
}

#[test]
fn list_hit_testing_cannot_select_the_graph_panel() {
    let snapshot = info(&[("GPU Core", 60.0, "°C"), ("Hot Spot", 74.0, "°C")], "Visual fixture");

    assert_eq!(
        sensor_at_point(&snapshot, 100, 190)
            .expect("first visible sensor")
            .name,
        "GPU Core"
    );
    assert!(sensor_at_point(&snapshot, 700, 190).is_none());
}

#[test]
fn feedback_controls_leave_labels_and_each_other_visible() {
    assert!(feedback_contact_edit().top >= LIST_TOP + 116);
    assert!(feedback_message_edit().top >= LIST_TOP + 180);
    assert!(feedback_message_edit().top > feedback_contact_edit().bottom);
    assert!(feedback_consent_hit().top > feedback_message_edit().bottom);
    assert!(feedback_submit_hit().top > feedback_consent_hit().top);
}

#[test]
fn localized_header_navigation_keeps_fixed_gaps() {
    let layout = header_nav_layout(964, 119, 91, 139);
    assert_eq!(layout.settings.0 - layout.about.1, HEADER_NAV_GAP);
    assert_eq!(layout.feedback.0 - layout.settings.1, HEADER_NAV_GAP);
    assert!(layout.about.0 > 120);
    assert!(header_link_contains(layout.about, layout.about.0));
    assert!(!header_link_contains(layout.about, layout.settings.0));
}

#[test]
fn header_links_are_laid_out_from_the_right_edge() {
    let layout = header_nav_layout(964, 119, 91, 139);
    assert_eq!(layout.feedback, (809, 948));
    assert_eq!(layout.settings, (694, 785));
    assert_eq!(layout.about, (551, 670));
    assert!(header_link_contains(layout.about, 543));
    assert!(!header_link_contains(layout.about, 542));
}

#[test]
fn list_rows_follow_group_headings() {
    // Heading at 124 + 35 = 159 (22 px), first row 181..204, second 204..227;
    // the activity group gets its own heading before its row.
    let snapshot = info(
        &[("GPU Core", 60.0, "°C"), ("Hot Spot", 74.0, "°C"), ("D3D 3D", 90.0, "%")],
        "Visual fixture",
    );
    assert_eq!(sensor_at(&snapshot, 181).unwrap().name, "GPU Core");
    assert_eq!(sensor_at(&snapshot, 203).unwrap().name, "GPU Core");
    assert_eq!(sensor_at(&snapshot, 204).unwrap().name, "Hot Spot");
    assert!(sensor_at(&snapshot, 180).is_none());
    assert!(sensor_at(&snapshot, 230).is_none());
    assert_eq!(sensor_at(&snapshot, 249).unwrap().name, "D3D 3D");
}

#[test]
fn rtx_50_detection_reads_the_model_number() {
    assert!(is_geforce_rtx_50_series(Some("NVIDIA GeForce RTX 5090")));
    assert!(is_geforce_rtx_50_series(Some("geforce rtx 5060 ti")));
    assert!(!is_geforce_rtx_50_series(Some("NVIDIA GeForce RTX 4090")));
    assert!(!is_geforce_rtx_50_series(Some("NVIDIA RTX 5000 Ada")));
    assert!(!is_geforce_rtx_50_series(None));
}

#[test]
fn colours_pack_red_in_the_low_byte() {
    assert_eq!(rgb(1, 2, 3), 0x030201);
    assert_eq!(accent_color(AccentTheme::Green, None), rgb(87, 227, 137));
    assert_eq!(accent_color(AccentTheme::Windows, None), rgb(87, 227, 137));
    assert_eq!(accent_color(AccentTheme::Blue, Some(0)), rgb(96, 172, 255));
}

#[test]
fn dark_desktop_accents_are_brightened() {
    // Black halves toward white until its luminance reaches 145:
    // 0 -> 127 (lum 127) -> 191 (lum 191).
    assert_eq!(brightened_accent(0xff000000), rgb(191, 191, 191));
    // A bright colorization value stays as it is (ARGB: red 0xff, green 0xcc, blue 0x00).
    assert_eq!(brightened_accent(0x00ffcc00), rgb(0xff, 0xcc, 0x00));
    let mut cell = AccentCell::new();
    assert_eq!(cell.accent(), rgb(87, 227, 137));
    cell.apply_accent(AccentTheme::Windows, Some(0xff000000));
    assert_eq!(cell.accent(), rgb(191, 191, 191));
    cell.set_accent(7);
    assert_eq!(cell.accent(), 7);
}

#[test]
fn rectangles_include_their_edges() {
    let r = Rect { left: 1, top: 2, right: 3, bottom: 4 };
    assert!(point_in_rect(&r, 1, 2));
    assert!(point_in_rect(&r, 3, 4));
    assert!(!point_in_rect(&r, 4, 4));
}

#[test]
fn labels_and_titles() {
    assert_eq!(refresh_label(500), "500 ms");
    assert_eq!(refresh_label(2000), "2 s");
    assert_eq!(refresh_label(750), "1 s");
    assert_eq!(group_title(SensorGroup::Gpu, Language::Russian), "GPU");
}

#[test]
fn text_is_cut_with_an_ellipsis_to_fit() {
    let five = |s: String| s.chars().count() <= 5;
    assert_eq!(fit_to_width("abc", five).as_deref(), Some("abc"));
    assert_eq!(fit_to_width("abcdefgh", five).as_deref(), Some("abcd…"));
    assert_eq!(fit_to_width("Привет, мир", five).as_deref(), Some("Прив…"));
    assert_eq!(fit_to_width("abc", |_s: String| false), None);
}

#[test]
fn dashboard_messages_follow_the_snapshot() {
    let none: Option<Snapshot<f32>> = None;
    assert_eq!(
        unavailable_message(&none, UiLanguage::English).as_deref(),
        Some("Connecting to the local telemetry provider…")
    );
    assert_eq!(window_heading(&none), "GPU Shark");
    let failed: Option<Snapshot<f32>> = Some(Snapshot::LoadFailed("missing gsn.dll".to_owned()));
    assert_eq!(
        unavailable_message(&failed, UiLanguage::Russian).as_deref(),
        Some("Could not load gs.dll: missing gsn.dll")
    );
    let error: Option<Snapshot<f32>> = Some(Snapshot::FetchError("bad answer".to_owned()));
    assert_eq!(unavailable_message(&error, UiLanguage::English).as_deref(), Some("bad answer"));
    let mut data = info(&[("GPU Core", 60.0, "°C")], "RTX");
    data.gpu_name = None;
    let data = Some(Snapshot::Data(data));
    assert_eq!(unavailable_message(&data, UiLanguage::English), None);
    assert_eq!(window_heading(&data), "Unknown GPU");
}

#[test]
fn graph_points_spread_evenly_inside_the_margins() {
    assert_eq!(graph_x(100, 300, 0, 5), 108);
    assert_eq!(graph_x(100, 300, 1, 5), 154);
    assert_eq!(graph_x(100, 300, 4, 5), 292);
}
