# hyprwhspr-rs

The verified core of a dictation daemon. A recording is started by a keyboard
shortcut or by a command over a socket, and the audio is framed for a
transcription backend.

- `src/text.rs`: trimming and splitting of text, over sequences of characters.
- `src/control.rs`, `src/control_laws.rs`: the control protocol.
- `src/socket.rs`: how the daemon comes by its control socket.
- `src/keys.rs`, `src/keys_laws.rs`: the names of keys and shortcuts.
- `src/clock.rs`: points in time as integers, and a clock that never goes back.
- `src/shortcuts.rs`, `src/shortcuts_laws.rs`: the shortcut state machine.
- `src/audio.rs`, `src/audio_laws.rs`: WAV files, and what the encoder is handed.
- `app/`: the sockets, processes and devices around the library.

The contracts of the executable functions are stated over the specification
functions of their module. The `*_laws` modules hold what follows for several of
them together, as public proof functions.
