# hisiflash

A tool for flashing HiSilicon chips (WS63 today) over a serial line: it reads
FWPKG firmware packages, speaks the SEBOOT boot protocol and sends images with
YMODEM. The library in `src/` is written in Verus: every function carries a
`requires`/`ensures` contract that the verifier proves, and the properties that
span several calls are stated and proved as proof functions.

Layout:

- `src/` — the verified library
  - `bytes`, `crc` — little-endian fields and CRC16-XMODEM
  - `fwpkg` — the FWPKG package format (V1 and V2 headers, partition table)
  - `seboot`, `ws63` — boot protocol frames: building, parsing, ACK search
  - `ymodem` — the YMODEM sender as a step function from event to action
  - `flasher` — the WS63 flasher's decisions: handshake pacing, retries,
    what to reopen, erase sizes, which partitions to flash
  - `device`, `connection`, `reconnect`, `selection`, `port`, `web_port` —
    serial ports: classification by USB ids of a listing, picking one,
    finding a device again after it re-enumerated
  - `monitor` — serial monitor text handling, keys, reset checks
  - `cli`, `config`, `chip`, `firmware`, `shell`, `text`, `error`,
    `cancel` — command line parsing, configuration merging, chip families,
    firmware file ranking and labels, shells, error texts
- `app/` — the command line program: argument parsing, terminal prompts,
  files, the serial port itself and the listing of the machine's ports, and
  the loops that wait on the device
- `tests/` — tests of the library on concrete values
