use gpu_shark::sensor_model::{metadata, sensor_id, SensorGroup, SensorKind};
use gpu_shark::SensorReading;

fn reading(name: &str, unit: &str) -> SensorReading<f32> {
    SensorReading {
        name: name.to_owned(),
        value: 42.0,
        unit: unit.to_owned(),
    }
}

#[test]
fn known_aliases_share_stable_ids() {
    assert_eq!(
        sensor_id(&reading("GPU Core", "°C")),
        sensor_id(&reading("GPU Core Temperature", "°C"))
    );
    assert_eq!(
        sensor_id(&reading("GPU Hot Spot", "°C")),
        sensor_id(&reading("Hotspot", "°C"))
    );
    assert_eq!(
        sensor_id(&reading("PerfCap", "%")),
        sensor_id(&reading("Performance Limit", "%"))
    );
    assert!(!metadata(&reading("PerfCap Reason", "Pwr")).graphable);
    assert!(metadata(&reading("GPU Core", "°C")).graphable);
}

#[test]
fn separate_fans_keep_separate_ids() {
    assert_ne!(
        sensor_id(&reading("GPU Fan 1", "RPM")),
        sensor_id(&reading("GPU Fan 2", "RPM"))
    );
}

#[test]
fn memory_clock_remains_hidden() {
    let item = metadata(&reading("Memory Clock", "MHz"));
    assert_eq!(item.kind, SensorKind::MemoryClock);
    assert!(!item.visible);
}

#[test]
fn names_do_not_override_explicit_units() {
    assert_eq!(metadata(&reading("GPU Core", "%")).kind, SensorKind::Other);
    assert_eq!(
        metadata(&reading("GPU Core Clock", "MHz")).kind,
        SensorKind::GpuClock
    );
}

#[test]
fn ids_are_normalized_text_with_the_unit() {
    let id = sensor_id(&reading("GPU Fan 1", "RPM"));
    assert_eq!(id.as_str(), "sensor.rpm.gpu.fan.1");
    let core = sensor_id(&reading("GPU Core", "°C"));
    assert_eq!(core.as_str(), "gpu.temperature.core");
    let odd = sensor_id(&reading("  Über  Load__X ", "%"));
    assert_eq!(odd.as_str(), "sensor..über.load.x");
}

#[test]
fn metadata_groups_and_priorities() {
    let core = metadata(&reading("GPU Core", "°C"));
    assert_eq!(core.group, SensorGroup::Gpu);
    assert_eq!(core.kind, SensorKind::GpuCoreTemperature);
    let cpu = metadata(&reading("CPU Package", "°C"));
    assert_eq!(cpu.group, SensorGroup::System);
    let load = metadata(&reading("D3D 3D", "%"));
    assert_eq!(load.group, SensorGroup::Activity);
}
