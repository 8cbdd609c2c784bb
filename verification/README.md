# GPU Shark

A read-only GPU telemetry monitor for Windows, with its logic written in
Verus and proved against its contracts.

- `src/` is the verified library: sensor identities, list order, the rows
  the dashboard draws and what the selected-sensor panel shows
  (`sensor_model`, `gui_view`), per-sensor history (`gui_state`), DPI
  scaling and hit testing (`gui_layout`, `main_window`), settings, their
  validation and atomic replacement on disk (`settings`, `gui_settings`),
  the feedback report (`feedback`), release checks, the decision to unpack a
  downloaded package and the steps of installing it (`version`, `updates`), the logon task (`autostart`), the runtime's raw
  answer and the runtime files' replacement (`telemetry`,
  `runtime_files`), the icon bitmap (`bitmap`) and the UI strings
  (`gui_i18n`). Laws that span several functions are public proof
  functions named `law_*`.
- `app/` is the Win32 front end: windows, GDI drawing, WinHTTP, the runtime
  DLL, JSON and the file system. It performs the I/O that the library's
  step functions ask for and draws what its view functions return.
- `tests/` runs the library on concrete values.

Sensor values are carried through the library as an opaque type; the front
end uses `f32` and does the floating-point work (formatting, the graph's
vertical scale, a row's minimum, maximum and mean) itself.
