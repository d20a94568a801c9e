# uwb_network

An HRP UWB radio network stack for short-range networks with a dedicated
coordinator: a PHY abstraction, a DW3000 driver and the IEEE 802.15.4z frame
format of a beacon-enabled ranging MAC. The library is written in Verus and
its behaviour is stated in `requires` / `ensures` contracts that Verus proves.

## Layout

- `src/phy.rs`, `src/phy/time.rs`: PHY configuration, capabilities and their
  checks, frame durations, and the time types (durations and instants on a
  cyclic timestamp counter).
- `src/psdu.rs`: fixed-capacity PSDU storage.
- `src/mac/format/`: octet-level frame format — serializer, frame header,
  header / payload / nested information elements, the ranging descriptor,
  and the frame builder and parser.
- `src/dw3000/`: the DW3000 driver. `interface.rs` holds the SPI transaction
  framing and the `Interface` trait a board implements, with `Bus`, which
  records every operation handed to the interface and each one that succeeded; `ral.rs` and `ral/regs.rs` the
  registers; `otp.rs` the OTP reads; `device.rs` the device operations;
  `driver.rs` the PHY on top of it. Every operation that waits on the device
  is split at the wait into a `begin_` and a `finish_` step, so each step is
  a plain function whose effect on the device is stated as the operations it
  appends to the record.
- `app/`: the board side — the embedded-hal SPI implementation of
  `Interface`, the asynchronous sequences that wait between the verified
  steps, and the floating-point run statistics and received power
  estimates (from the channel values `Device::get_first_path_cia` and
  `Device::get_full_cia` read).
- `tests/`: tests of the library, including a recording mock of the
  interface.
