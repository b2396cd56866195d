# niri Android monitor

Uses an Android device that is connected over USB as a low-latency secondary monitor for niri. A
recorder captures a virtual output and encodes it as H.264; the daemon forwards the stream to the
device and turns its touches into pointer events.

- `src/` is a library written in Verus. It holds everything that is decided or computed: splitting
  the encoder's stream, gathering access units, the wire format, the settings and the control
  requests, the steps of a session, and the pointer. Each function states in its contract what it
  returns; the proof functions whose names begin with `law_` state what holds across functions.
- `app/` is the daemon around it: files, sockets, processes, threads, clocks, and the few places
  where floating-point numbers are multiplied or divided.
- `tests/` exercises the library on concrete values.

## Capture and placement

The recorder encodes with low-latency x264 and never captures through DMA-BUF; the hardware encoder
is used only where the settings name `vaapi`. niri chooses where the output lies, unless the settings
give a logical position, which may be negative. Touches are sent through ydotool, which knows
relative motion only: pointer acceleration has to be off for its device.

## Protocol

The daemon sends a stream header of 20 bytes: `NAMD`, the version (2), flags, width, height, and the
frame rate in thousandths. Then it sends frames: a header of 24 bytes with the length, the time in
microseconds, the number and the key-frame flag, and an Annex-B access unit of that length. All
numbers are big-endian. The device sends messages of 16 bytes back over the same connection.

## What is trusted

Calls into `serde_json` (`src/json.rs`) and the byte order of the machine (`native_bytes` in
`src/pointer.rs`) are taken on trust, with the contracts that stand there.
