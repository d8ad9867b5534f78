# firefly_main

Verified core of the Firefly Zero main-chip firmware (ESP32-S3 driving an
ILI9488 panel over an i8080 bus).

- `src/` is the library, checked by Verus:
  - `color`: 5-6-5 colours and the two inverted bytes the panel receives.
  - `commands`: the panel commands the firmware uses.
  - `display`: address windows, solid fills, the start-up commands.
  - `stream`: packing a stream of colours into doubled panel rows.
  - `writer`: the pool of two DMA buffers and who holds the bus.
  - `firmware`: version string, serial number, boot partition, runtime life
    cycle, UART fault messages.
- `app/` is the firmware around it: peripheral setup, the `embedded-graphics`
  draw target, and the hardware calls (DMA transfers, flash, PSRAM).
- `tests/` exercise the library.
