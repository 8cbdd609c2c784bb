//! GPU Shark: a read-only GPU telemetry monitor for Windows.
//!
//! This library holds the monitor's decisions, each with a contract: which
//! sensors are shown and in what order, their stable identities and
//! history, the dashboard's geometry and hit testing, the settings and how
//! they are stored, the feedback report and the update check. The window,
//! the runtime DLL, the network and the file system are driven by the
//! application around it, which hands the results back here.

pub mod autostart;
pub mod bitmap;
pub mod feedback;
pub mod gui_i18n;
pub mod gui_layout;
pub mod gui_settings;
pub mod gui_state;
pub mod gui_view;
pub mod main_window;
pub mod runtime_files;
pub mod sensor_model;
pub mod settings;
pub mod telemetry;
pub mod text;
pub mod updates;
pub mod version;

pub use telemetry::{dll_library_path, SensorReading, SysInfo};
