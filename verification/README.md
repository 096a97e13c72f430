# crust

The verified core of a satellite ground station's terminal dashboard.

- `src/telemetry.rs`: the 18-byte telemetry frame (fields packed in order,
  multi-byte fields in the machine's byte order, as the C frame source
  writes them), its XOR checksum, and the readings derived from it.
- `src/endian.rs`: integers to and from bytes in the machine's byte order.
- `src/station.rs`: the dashboard's state and the decisions taken on each
  fetch, key press and tick.
- `src/display.rs`: colour tones and short texts the dashboard shows.
- `src/text.rs`: decimal and binary rendering of integers.
- `app/`: the terminal program (crossterm, ratatui) and the call into the C
  library `telemetry`, which supplies `telemetry_get_frame`. That library is
  built and linked outside this crate.
