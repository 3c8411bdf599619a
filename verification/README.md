# femeter

Firmware library of a three-phase smart electricity meter (FM33 MCU,
RN8302B / RN8615V2 / ATT7022E metering chips, RS-485 DLMS/COSEM, infrared
IEC 62056-21, LoRaWAN and Cat.1 modules, segment LCD), written in Verus.

- `src/` — the verified library: metering state (energy registers across
  roll-over, tariffs, demand), event detection and its log, calibration
  protocol and records, HDLC and IEC 62056-21 framing, DLMS receiver and
  COSEM object table, AT-command composition and reply parsing, metering
  chip frames (CRC-8, sign extension, register reads), OTA bookkeeping and
  the bootloader's decisions, LCD rendering, key scanning, power
  management. Public functions state their results in `ensures`; the laws
  that span several calls are public proof functions next to the code they
  speak of. Code that works through a board trait (metering chips, OTA and
  boot flash, UARTs, keys, channels) states what it hands to the board and
  how its results follow from what came back. Where the trait's method
  changes the board (`&mut self`: SPI transfers, UART init/write/read,
  RS-485 direction, boot flash erase/program, channel publish/send/poll),
  the trait carries a spec record of those calls and its contract says
  what each call adds. The ATT7022E driver's transactions are read off
  that record; every entry the other drivers add to their own logs (`ops`,
  `io_log`, the bootloader's `BootDevice`, the channel manager's `log`) is
  proved against what the same call added to the record, for the
  bootloader and the channel manager as the invariant `wf`. Calls that
  only look (`&self` reads of a key level, a flash byte, a provider's
  readings, a connection state) and the OTA flash trait, whose functions
  take no receiver, are recorded in ghost logs written beside each call.
  `OtaManager::compute_flash_crc` states the chunked reads it makes and
  the CRC of what they gave. The AT-command parser's serial loops live in
  `app/`; each byte, line and clock reading is handed to a verified step
  function of `at_parser` that decides what it means.
- `tests/` — tests of the library on concrete values.
- `app/` — the firmware around it: register access, the UART/SPI/flash
  drivers, floating-point calibration of the chip readings, the serial loops
  of the communication modules, and the main loop.
