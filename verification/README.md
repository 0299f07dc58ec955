# devicemapper (thin devices)

A verified library for device-mapper thin devices.

- `src/thindev.rs`: thin ids (24-bit, a type invariant), the thin target's table, the messages
  that create and delete a thin device in its pool, growing a thin device, and
  reading its status line. Laws on reading back what is written stand there.
- `src/text.rs`: decimal formatting and parsing of `u64`, splitting at a
  separator and prefix tests, each proved against a specification.
- `src/bindings.rs`: the data of the `<linux/dm-ioctl.h>` interface, with
  contracts; `app/bindings.rs` holds the same structures in their C layout.
- `src/types.rs`, `src/result.rs`: sectors, table lines and errors.
- `app/`: the device-mapper calls around the library (behind the `Dm` and
  `ThinPool` traits that the caller implements) and the serde form of ids.
