# k9_pad

The K9-Pad is a nine-key Bluetooth/USB keypad (nRF52840) with a 128x64 OLED
and a "data channel": a desktop application pushes texts, numbers and
progress values to the keypad's screen.

This crate is the verified core of both sides, written in Verus:

- `src/proto` — the data channel wire format (commands, data types, the
  4-byte header, pad configuration, device capabilities, packet builders)
  with round-trip laws.
- `src/client.rs`, `src/transport.rs` — the host's request packets, how it
  reads replies, USB HID framing, device selection, the BLE notification
  buffer.
- `src/console.rs`, `src/app_state.rs`, `src/providers.rs`,
  `src/ai_quota.rs` — the desktop application's state, texts and provider
  decisions.
- `src/firmware` — the keypad: display packet parsing and the slot cache,
  the flash settings log (append, compaction, commit plan), battery
  estimation, the menu key controller, the screen state machine, the home
  screen layout and the SH1107 frame buffer.
- `src/laws.rs` — laws across both sides: a reply the keypad sends is what
  the host reads back, and a value the host pushes is what the keypad shows.

`app/` holds the I/O around the library: the desktop application (BLE, USB
HID, HTTP, window) and the keypad's hardware tasks. `tests/` exercises the
library on concrete values.
