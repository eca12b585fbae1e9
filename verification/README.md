# purgedisk

Compliant data destruction for removable drives: a three-pass overwrite
(0x00, 0xFF, random bytes, after DoD 5220.22-M) of the whole raw device,
strict device filtering, serial-number confirmation and an HMAC-SHA256
signed audit log in JSON Lines.

## Layout

- `src/` is the library, verified with Verus. It holds every decision the
  tool makes:
  - `wipe/engine.rs`: the overwrite as a state machine. `WipeRun::step`
    takes what the device reported and answers with the next seek, write or
    flush; its invariant, progress and outcome are proved.
  - `device/`: which devices may be wiped, and how the descriptions given
    by Linux (`/sys/block`), macOS (`diskutil`) and Windows (storage
    descriptors) are read.
  - `audit/`: log entries, their JSON line, their signature, their order,
    and the proof that a line determines its entry.
  - `wipe/session.rs`: a command-line wipe from start to end as a state
    machine: the target, the serial-number confirmation, and the order in
    which the log is written and the device opened, wiped and reformatted.
  - `tui/app.rs`: the screens of the interactive interface and how keys move
    between them.
  - `session.rs`, `format.rs`, `text.rs`: what the command line decides and
    shows.
- `app/` is the program around the library: the command line, file and
  device I/O, the terminal drawing and the threads. It only performs what
  the library decides.
- `tests/` exercises the library on concrete values.

The tool has a command line and a terminal interface; there is no desktop
(graphical) front end.
