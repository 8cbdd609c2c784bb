use gpu_shark::gui_state::{RowStats, SensorHistory, ROW_SAMPLE_LIMIT};
use gpu_shark::sensor_model::sensor_id;
use gpu_shark::SensorReading;

/// Minimum, maximum and running sum of a row's samples.
type Summary = (f32, f32, f64);

fn fold(previous: Option<Summary>, value: f32) -> Summary {
    match previous {
        None => (value, value, f64::from(value)),
        Some((min, max, sum)) => (min.min(value), max.max(value), sum + f64::from(value)),
    }
}

fn min(stats: &RowStats<f32, Summary>) -> f32 {
    stats.summary.0
}

fn max(stats: &RowStats<f32, Summary>) -> f32 {
    stats.summary.1
}

fn avg(stats: &RowStats<f32, Summary>) -> f32 {
    (stats.summary.2 / stats.count as f64) as f32
}

fn reading(name: &str, value: f32) -> SensorReading<f32> {
    SensorReading {
        name: name.to_owned(),
        value,
        unit: "°C".to_owned(),
    }
}

fn perfcap_reading() -> SensorReading<f32> {
    SensorReading {
        name: "PerfCap Reason".to_owned(),
        value: 0.0,
        unit: "Pwr, VRel".to_owned(),
    }
}

fn fan(value: f32) -> SensorReading<f32> {
    SensorReading {
        name: "GPU Fan 1".to_owned(),
        value,
        unit: "RPM".to_owned(),
    }
}

#[test]
fn history_survives_a_known_provider_alias_change() {
    let mut history: SensorHistory<f32, Summary> = SensorHistory::default();
    history.record(&[reading("GPU Core", 40.0)], fold);
    history.record(&[reading("GPU Core Temperature", 52.0)], fold);

    let id = sensor_id(&reading("GPU Core", 40.0));
    let stats = history.row_stats(&id).expect("merged alias stats");
    assert_eq!(stats.current, 52.0);
    assert_eq!(min(&stats), 40.0);
    assert_eq!(max(&stats), 52.0);
    assert_eq!(avg(&stats), 46.0);
    assert_eq!(history.row_samples(&id), vec![40.0, 52.0]);
}

#[test]
fn per_sensor_history_persists_across_selection_changes() {
    let core = reading("GPU Core", 40.0);
    let fan = fan(1_000.0);
    let mut history: SensorHistory<f32, Summary> = SensorHistory::default();
    history.select(&core);
    history.record(&[core.clone(), fan.clone()], fold);
    history.record(&[reading("GPU Core", 41.0)], fold);
    history.select(&fan);

    assert_eq!(history.selected_id(), Some(&sensor_id(&fan)));
    assert_eq!(
        history.row_samples(&sensor_id(&core)),
        vec![40.0, 41.0],
        "switching selection must not clear another sensor's history"
    );
    assert_eq!(
        min(&history.row_stats(&sensor_id(&fan)).expect("fan stats")),
        1000.0
    );
}

#[test]
fn maximum_tracking_is_independent_of_selection() {
    let core = reading("GPU Core", 40.0);
    let fan = fan(1_000.0);
    let mut history: SensorHistory<f32, Summary> = SensorHistory::default();
    history.select_maximum(&core);
    history.record(&[core.clone()], fold);
    history.select(&fan);

    assert!(
        history.is_tracked(&sensor_id(&core)),
        "tracking must survive switching to another sensor"
    );
    assert_eq!(max(&history.row_stats(&sensor_id(&core)).unwrap()), 40.0);

    history.select_maximum(&fan);
    assert!(history.is_tracked(&sensor_id(&fan)));

    history.select_maximum(&core);
    assert!(
        !history.is_tracked(&sensor_id(&core)),
        "double-click on a tracked sensor removes its tracking"
    );
    assert!(history.is_tracked(&sensor_id(&fan)));
}

#[test]
fn categorical_perfcap_selection_has_no_numeric_history() {
    let perfcap = perfcap_reading();
    let mut history: SensorHistory<f32, Summary> = SensorHistory::default();

    history.select_maximum(&perfcap);
    history.record(std::slice::from_ref(&perfcap), fold);

    assert_eq!(history.selected_id(), Some(&sensor_id(&perfcap)));
    assert!(!history.is_tracked(&sensor_id(&perfcap)));
    assert!(history.row_stats(&sensor_id(&perfcap)).is_none());
    assert!(history.row_samples(&sensor_id(&perfcap)).is_empty());
}

#[test]
fn reset_clears_rows_and_tracking_but_keeps_selection() {
    let core = reading("GPU Core", 48.0);
    let mut history: SensorHistory<f32, Summary> = SensorHistory::default();
    history.select_maximum(&core);
    history.record(&[core.clone()], fold);

    history.reset();

    assert_eq!(history.selected_id(), Some(&sensor_id(&core)));
    assert!(!history.is_tracked(&sensor_id(&core)));
    assert!(history.row_stats(&sensor_id(&core)).is_none());
    assert!(history.row_samples(&sensor_id(&core)).is_empty());
}

#[test]
fn rows_keep_only_the_most_recent_samples_but_summarize_all() {
    let mut history: SensorHistory<f32, Summary> = SensorHistory::default();
    for step in 0..(ROW_SAMPLE_LIMIT + 5) {
        history.record(&[reading("GPU Core", step as f32)], fold);
    }
    let id = sensor_id(&reading("GPU Core", 0.0));
    let samples = history.row_samples(&id);
    assert_eq!(samples.len(), ROW_SAMPLE_LIMIT);
    assert_eq!(samples[0], 5.0);
    assert_eq!(*samples.last().unwrap(), (ROW_SAMPLE_LIMIT + 4) as f32);
    let stats = history.row_stats(&id).unwrap();
    assert_eq!(stats.count, (ROW_SAMPLE_LIMIT + 5) as u64);
    assert_eq!(min(&stats), 0.0);
}

#[test]
fn double_toggle_restores_tracking_and_track_all_adds_graphable_rows() {
    let core = reading("GPU Core", 40.0);
    let mut history: SensorHistory<f32, Summary> = SensorHistory::default();
    history.select_maximum(&core);
    history.select_maximum(&core);
    assert!(!history.is_tracked(&sensor_id(&core)));
    assert!(!history.shows_maximum());

    history.track_all(&[core.clone(), fan(900.0), perfcap_reading()]);
    assert!(history.is_tracked(&sensor_id(&core)));
    assert!(history.is_tracked(&sensor_id(&fan(0.0))));
    assert!(!history.is_tracked(&sensor_id(&perfcap_reading())));
    assert!(history.shows_maximum());
}

#[test]
fn selection_reads_the_selected_row() {
    let core = reading("GPU Core", 40.0);
    let mut history: SensorHistory<f32, Summary> = SensorHistory::new();
    assert!(history.stats().is_none());
    assert!(history.samples().is_empty());
    history.record(&[core.clone(), reading("GPU Core", 44.0)], fold);
    history.select(&core);
    assert_eq!(history.samples(), vec![40.0, 44.0]);
    assert_eq!(history.stats().unwrap().current, 44.0);
    history.clear_selection();
    assert!(history.selected_id().is_none());
    assert!(history.stats().is_none());
}

#[test]
fn snapshots_are_recorded_in_list_order() {
    let snapshot = gpu_shark::SysInfo {
        gpu_name: None,
        core: None,
        hotspot: None,
        vram_temp: None,
        vram_used: None,
        fan: None,
        cpu_temp: None,
        delta: None,
        sensors: vec![reading("CPU Package", 50.0), reading("GPU Core", 61.0), fan(800.0)],
        perfcap_reason: Some(" Pwr ".to_owned()),
        error: None,
    };
    let mut history: SensorHistory<f32, Summary> = SensorHistory::default();
    let rows = history.observe(&snapshot, false, fold);
    let names = rows.iter().map(|r| r.name.as_str()).collect::<Vec<_>>();
    assert_eq!(names, ["GPU Core", "GPU Fan 1", "PerfCap Reason", "CPU Package"]);
    assert!(!history.is_tracked(&sensor_id(&reading("GPU Core", 0.0))));
    assert_eq!(history.row_samples(&sensor_id(&fan(0.0))), vec![800.0]);
    assert!(history.row_samples(&sensor_id(&perfcap_reading())).is_empty());

    history.observe(&snapshot, true, fold);
    assert!(history.is_tracked(&sensor_id(&reading("GPU Core", 0.0))));
    assert!(!history.is_tracked(&sensor_id(&perfcap_reading())));
    assert_eq!(history.row_samples(&sensor_id(&fan(0.0))), vec![800.0, 800.0]);
}
