# Open Sesame

Verified control logic, and firmware around it, for an assistive sliding door
driven by an ESP32-S3, a DRV8874 H-bridge and a quadrature encoder.

- `src/` is the library. It takes measurements and messages as plain values and
  answers with plain values: which pins to write, what to publish, what to
  store. Every function in it is verified with Verus against its contract.
  - `door_controller`, `door_model`: the control loop and its state machine;
    `door_laws/` states what holds of it over many ticks.
  - `motor`, `encoder`, `action`: what is asked of the hardware.
  - `config`: tuning, and the configuration kept in non-volatile storage.
  - `captive_portal`, `form`, `pages`: provisioning.
  - `mqtt_client`: commands, state and Home Assistant discovery.
  - `control`: decisions of the boot sequence and of the main loop.
  - `text`, `number`, `json`: text routines.
- `app/` is the firmware: pins, network, storage, and the velocity filter, which
  uses floating point. `app/board.rs` holds the pin assignments and the tuning.
- `tests/` runs the library on the host.
