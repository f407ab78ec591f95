# fc-rusty

Flight controller firmware for a quadcopter on an STM32H743, with a verified core.

- `src/` is the library. Wire formats, sensor register protocols and the decisions
  that the firmware's tasks take on every tick are proved against their contracts
  with Verus. Nothing in it touches hardware or floating point: quantities that the
  firmware keeps as floats pass through as bit patterns, counts or exact ratios.
  - `drivers/`: motor frames (DShot, one-way and bidirectional), receivers (CRSF,
    NMEA, UBX), inertial, magnetic and pressure sensors.
  - `flight/`: mode selection and failsafes, position and attitude fusion gates,
    barometer recovery, the inner loop.
  - `persist/`: the configuration record and the flash sectors that hold it.
  - `motor_test`, `plant_capture`, `plant_log`, `mpc_bench`: bench builds.
- `app/` is the firmware around it: clocks, pins, DMA, async tasks, and the
  filters that are floating point throughout.
- `tests/` runs the library on concrete values.

The control laws, the attitude filter, arming and the status light are supplied to
`app/` at link time; `app/control.rs` declares what they provide.
