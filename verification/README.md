# rianixia_thermalcore

A thermal governor daemon for Android devices: it watches the battery
temperature, chooses a target temperature from the device's activity, and
throttles the cooling devices with a PID controller.

- `src/` is the verified library. It holds the integer and text logic of the
  governor with Verus contracts: parsing of sysfs and `/proc/stat` contents
  (`text`, `cpu`), property values and the temperature window (`utils`),
  target selection (`learning`), charger/screen/power detection (`context`),
  thermal zones and the gradient alarm (`thermal_zones`), cooling-device and
  DVFSRC decisions (`cooling`, `dvfsrc`), and the scheduling and mode
  switching of the control loop (`monitor`).
- `app/` is the daemon around it: Android FFI for logging and properties,
  file and inotify I/O, the floating-point controller, smoothing and
  statistics, bincode persistence and the trace simulator.
- `tests/` exercises the library on concrete inputs.
