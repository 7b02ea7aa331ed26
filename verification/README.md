# lincstation_leds

Drive health and front-panel LED logic for the LincStation N2, verified with Verus.

- `src/text.rs` — whitespace, trimming, word splitting, integer parsing and decimal formatting over character sequences.
- `src/disk_status.rs` — the storage slots, drive health from sysfs status files, `/proc/diskstats` records.
- `src/led_controller.rs` — colors, bar and strip settings, the register map of the SMBus LED controller (address 0x26), the controller state, and how each command becomes state changes and register writes.
- `src/daemon.rs` — the LED that shows a drive's health, command-line options, rows of the status report.
- `app/` — the program: command line, file reads, I2C transfers, the JSON log.
- `tests/` — tests of the library.
