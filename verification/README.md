# Pinemonitor

Watches and controls Pinecil soldering irons (IronOS 2.21 and later) over Bluetooth Low Energy.

- `src/` is the library, verified with Verus: the live data frame (`pinecil`), the Bluetooth driver
  as a state machine (`protocol`, `driver`), the monitor's state (`monitor`), and what its screens
  say (`screens`, `panel`, `palette`). `protocol_laws`, `monitor_laws` and `system_laws` state and
  prove what holds of the driver, of the monitor, and of the two together.
- `app/` is the program around it: it performs the driver's actions with `btleplug` and lays the
  screens out with `gpui`.
- `tests/` exercises the library.

Readings are kept as the integers that the iron sends. They are shown and compared as
single-precision numbers; `single` does that in integer arithmetic.

Two functions are believed rather than proved: `uuid::Uuid::parse_str` (in `uuids`) and
`String::from_utf8_lossy` (in `text`).
