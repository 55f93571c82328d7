# alarm_daemon

The core of the Helm alarm daemon, verified with Verus: the armed/disarmed
state machine, the persisted-state byte format, sound-id validation and
resolution, the decisions behind each D-Bus method, and the decisions of the
audio output worker. Every public function in `src/` carries a contract that
Verus proves, and the library's laws (round trips, idempotence, when
`StateChanged` is sent, that a sound id never names a file outside its
directory) are stated as proof functions beside the code they speak of.

## Layout

- `src/` — the verified library.
  - `text.rs` — decimal rendering and parsing, string comparison and order.
  - `time.rs` — a nanosecond duration with `std::time::Duration`'s range.
  - `persistence.rs` — the stored record, its encoder and decoder, and
    startup recovery.
  - `daemon.rs` — alarm status, transitions and the daemon state machine.
  - `config.rs` — bus selection and the database path.
  - `logging.rs`, `systemd.rs` — log backend choice, watchdog timing.
  - `audio.rs` — audio errors, volume ramps, sound formats, decoded-layout
    checks.
  - `output.rs` — the audio output worker's per-turn decisions.
  - `sounds.rs` — listing installed sounds and resolving sound ids.
  - `control.rs` — the D-Bus methods as steps from state to next state plus
    the work to perform.
- `app/` — the daemon binary around the library: D-Bus (zbus), the redb
  database, the audio device (cpal) and decoder (symphonia), systemd
  notification and logging. It reads the environment, the clock and the file
  system and hands the library plain values.
- `tests/` — tests of the library on concrete values.
