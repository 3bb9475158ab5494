# bldc_driver

Fixed-point core of a field-oriented BLDC motor driver, verified with Verus.

- `src/angle.rs` — `IntAngle<BITS>`, an angle counted in `1/2^BITS` of a turn.
- `src/pll.rs` — the type-II PLL observer (angle and velocity estimate), its
  parameter checks, and lemmas on what those checks guarantee.
- `src/controller.rs` — control-angle prediction and estimated-current FOC,
  producing a q/d voltage command.
- `src/encoder.rs` — decoding of the AS5048A encoder's SPI answer.
- `src/telemetry.rs` — telemetry records, their 32-byte serialisation, and the
  capture into a `heapless::Vec`.
- `src/flash.rs` — the page layout of captures in flash, as a list of erase and
  write operations, with the lemma that the pages hold the records in order.
- `src/hal.rs`, `src/sim.rs` — motor parameters, encoder readings, and the
  simulated motor.

`app/` holds what is not verified: the floating-point modulation stage
(inverse Park/Clarke with min-max injection), the async task loops over
embassy channels and timers, a NOR-flash back end that performs the planned
operations, and the host simulation harness that writes a CSV trace.
