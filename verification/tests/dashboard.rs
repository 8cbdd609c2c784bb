use gpu_shark::gui_i18n::Language;
use gpu_shark::gui_state::SensorHistory;
use gpu_shark::gui_view::{
    categorical_value, dashboard_rows, ordered_sensors, sensor_at_point, selected_panel,
    SelectedPanel, LIST_LEFT, LIST_TOP,
};
use gpu_shark::sensor_model::{sensor_id, SensorGroup};
use gpu_shark::{SensorReading, SysInfo};

type Summary = (f32, f32, f64);
type History = SensorHistory<f32, Summary>;

fn reading(name: &str, value: f32, unit: &str) -> SensorReading<f32> {
    SensorReading {
        name: name.to_owned(),
        value,
        unit: unit.to_owned(),
    }
}

fn snapshot(perfcap_reason: Option<&str>) -> SysInfo<f32> {
    SysInfo {
        gpu_name: Some("NVIDIA GeForce RTX 5080".to_owned()),
        core: None,
        hotspot: None,
        vram_temp: None,
        vram_used: None,
        fan: None,
        cpu_temp: None,
        delta: None,
        sensors: vec![
            reading("CPU Package", 50.0, "°C"),
            reading("D3D 3D", 90.0, "%"),
            reading("GPU Core", 60.0, "°C"),
            reading("Hot Spot", 71.0, "°C"),
            reading("PerfCap", 1.0, "%"),
        ],
        perfcap_reason: perfcap_reason.map(str::to_owned),
        error: None,
    }
}

#[test]
fn the_panel_asks_for_a_sensor_until_one_in_the_list_is_selected() {
    let info = snapshot(None);
    let mut history = History::new();
    assert!(matches!(selected_panel(&info, &history, Language::English), SelectedPanel::Choose));
    history.select(&reading("Memory Junction", 70.0, "°C"));
    assert!(matches!(selected_panel(&info, &history, Language::English), SelectedPanel::Choose));
}

#[test]
fn the_perfcap_reason_is_shown_as_text_without_a_graph() {
    let info = snapshot(Some("Pwr, VRel"));
    let mut history = History::new();
    history.select(&reading("PerfCap Reason", 0.0, "Pwr, VRel"));
    match selected_panel(&info, &history, Language::English) {
        SelectedPanel::Categorical { label, reading } => {
            assert_eq!(label, "PerfCap Reason");
            assert_eq!(categorical_value(&reading).as_deref(), Some("Pwr, VRel"));
        }
        other => panic!("expected the categorical view, got {other:?}"),
    }
}

#[test]
fn a_numeric_row_shows_its_maximum_only_while_tracked() {
    let info = snapshot(None);
    let mut history = History::new();
    let hot_spot = reading("Hot Spot", 71.0, "°C");
    history.select(&hot_spot);
    match selected_panel(&info, &history, Language::Russian) {
        SelectedPanel::Numeric { label, reading, shows_maximum } => {
            assert_eq!(label, "Hot Spot (БЕТА)");
            assert_eq!(reading.value, 71.0);
            assert!(!shows_maximum);
        }
        other => panic!("expected the numeric view, got {other:?}"),
    }
    history.select_maximum(&hot_spot);
    assert!(matches!(
        selected_panel(&info, &history, Language::English),
        SelectedPanel::Numeric { shows_maximum: true, .. }
    ));
}

#[test]
fn only_the_perfcap_reason_row_shows_text_for_its_value() {
    assert_eq!(
        categorical_value(&reading("  perfcap REASON ", 0.0, "Idle")).as_deref(),
        Some("Idle")
    );
    assert_eq!(categorical_value(&reading("PerfCap", 1.0, "%")), None);
    assert_eq!(categorical_value(&reading("GPU Core", 60.0, "°C")), None);
}

#[test]
fn drawn_rows_carry_headings_highlight_and_click_bands() {
    let info = snapshot(Some("Pwr, VRel"));
    let core = reading("GPU Core", 60.0, "°C");
    let selected = sensor_id(&core);
    let rows = dashboard_rows(&info, Some(&selected), Language::English);
    let names: Vec<&str> = rows.iter().map(|row| row.reading.name.as_str()).collect();
    assert_eq!(
        names,
        ["GPU Core", "Hot Spot", "PerfCap Reason", "D3D 3D", "CPU Package"]
    );
    let ordered = ordered_sensors(&info);
    assert_eq!(rows.len(), ordered.len());
    assert_eq!(rows[1].label, "Hot Spot (BETA)");
    let headings: Vec<Option<SensorGroup>> = rows.iter().map(|row| row.heading).collect();
    assert_eq!(
        headings,
        [
            Some(SensorGroup::Gpu),
            None,
            None,
            Some(SensorGroup::Activity),
            Some(SensorGroup::System)
        ]
    );
    let highlighted: Vec<bool> = rows.iter().map(|row| row.highlighted).collect();
    assert_eq!(highlighted, [true, false, false, false, false]);
    let tops: Vec<i32> = rows.iter().map(|row| row.top).collect();
    assert_eq!(
        tops,
        [
            LIST_TOP + 57,
            LIST_TOP + 80,
            LIST_TOP + 103,
            LIST_TOP + 148,
            LIST_TOP + 193
        ]
    );
    let text_lines: Vec<i32> = rows.iter().map(|row| row.text_y).collect();
    assert_eq!(
        text_lines,
        [
            LIST_TOP + 62,
            LIST_TOP + 85,
            LIST_TOP + 108,
            LIST_TOP + 154,
            LIST_TOP + 200
        ]
    );
    for row in &rows {
        for y in [row.top, row.top + 22] {
            let hit = sensor_at_point(&info, LIST_LEFT + 10, y).expect("a row");
            assert_eq!(hit.name, row.reading.name);
        }
    }
}

#[test]
fn table_clicks_toggle_selection_and_double_clicks_toggle_tracking() {
    let core = reading("GPU Core", 60.0, "°C");
    let id = sensor_id(&core);
    let mut history = History::new();
    history.click_row(&core, false);
    assert_eq!(history.selected_id(), Some(&id));
    history.click_row(&core, false);
    assert_eq!(history.selected_id(), None);
    history.click_row(&core, true);
    assert_eq!(history.selected_id(), Some(&id));
    assert!(history.is_tracked(&id));
    history.click_row(&core, true);
    assert!(!history.is_tracked(&id));
}

#[test]
fn the_perfcap_reason_is_never_tracked() {
    let perfcap = reading("PerfCap Reason", 0.0, "Pwr");
    let id = sensor_id(&perfcap);
    let mut history = History::new();
    history.select_maximum(&perfcap);
    assert_eq!(history.selected_id(), Some(&id));
    assert!(!history.is_tracked(&id));
    history.click_row(&perfcap, true);
    assert!(!history.is_tracked(&id));
}
