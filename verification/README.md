# kesp_controller

Verified core of the configurator for the KeSp split keyboard.

`src/` is checked by Verus. It holds:

- `slip`, `bytes`, `bootloader`, `firmware`, `md5`: the ESP32-S3 ROM bootloader
  protocol used to flash firmware through the programming port — SLIP framing,
  command packets and payloads, reply scanning, image padding and 1 KB blocks,
  and MD5 (RFC 1321) of the image.
- `ota`: the over-the-air update through the keyboard's USB port: chunking,
  acknowledgements, and the sequence of steps (wait for `OTA_READY`, write each
  chunk, read its acknowledgement).
- `editor`, `entries`, `key_selector`, `keys`, `macros`, `advanced`, `models`:
  the editor state and what each pick in the key selector does to it, keycode
  builders (Mod-Tap, Layer-Tap), the key catalogue, macro and leader helpers.
- `config`: the configuration file records, built from what the keyboard reports
  and turned into the writes of an import.
- `stats`, `tools`, `query`, `context`: small decoders and mappings.
- `text`: text operations: comparison, trimming, lower-casing, UTF-8 and
  character search.

`app/` is a command-line front end: flashing over a serial port, the OTA update,
configuration and layout JSON files (serde), and the floating-point layout
geometry.

`tests/` runs the library on concrete values.
