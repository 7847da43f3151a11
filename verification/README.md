# rmk

The decisions of a keyboard firmware, as a Verus library: every function of `src/`
states what it returns or changes, and Verus proves it.

- `src/keyboard`, `src/sticky.rs`: one-shot and sticky keys, deadlines.
- `src/input_device`, `src/matrix`: joysticks and the battery on one converter, direct
  pins.
- `src/ble`, `src/dongle`, `src/split`: bonds, battery reports, the wireless dongle, split
  halves and their firmware updates.
- `src/dfu`, `src/host`, `src/driver`, `src/crc32.rs`: firmware download, its lock, and
  the flash behind it.
- `src/protocol`: the bytes of the host protocol.
- `src/display`, `src/processor`: the screen's dirty box and the download LED.
- `src/codegen`, `src/config`: `keyboard.toml` to keymap, profiles and devices.

Tasks that wait are written as state machines: a function takes what happened and
says what to do next. `app/` does it, with timers, radios, buses and flash.

Calls into other crates stand behind small functions with a trusted contract; each
names the call it makes.
