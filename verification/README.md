# warming

A local piano practice workspace: a library of music pieces read from MIDI
files, practice sessions on their arrangements, and the judging of what the
learner played against the score.

## Layout

- `src/` is the verified library (Verus).
  - `music.rs`, `learning.rs`: the domain values and entities, with views.
  - `judge.rs`: the choice of target notes of an exercise and the judging of
    a performance; `judge_laws.rs` proves what every judgement keeps.
  - `midi.rs`: a score from the bytes of a standard MIDI file (decoded by
    `midly`); `midi_laws.rs` proves what every such score keeps.
  - `music_commands.rs`, `learning_commands.rs`, `local_library.rs`: the
    decisions of the use cases, from what was read to what is written;
    `command_laws.rs` proves what they keep across calls.
  - `command_flow.rs`, `library_flow.rs`: each use case as a step from the
    reply of the last port call to the next call, so that the order of the
    calls (no call after a refusal, one write after the reads, the event
    after the write, the score read before the piece is created, a refresh
    that stops at its first failure) is proved; `app/` only performs the calls.
  - `order.rs`, `listing.rs`: stable sorting, and the order of listings.
  - `api.rs`, `demo.rs`, `keyboard.rs`: what the interface shows.
  - `text.rs`, `app_error.rs`: text helpers and the use cases' errors.
- `app/` is the program around it: the asynchronous loops that perform the
  port calls the steps ask for, in-memory repositories, the local MIDI file adapter (file
  system and `notify` watcher), the interface functions with serialisable
  copies of the interface values, and the floating-point placement of notes
  on the practice roll.
- `tests/` holds the tests of the library.

## Units

Positions and lengths in a score are whole ticks, counted in the score's own
`ticks_per_beat`; a score read from a MIDI file keeps the file's ticks and
ticks per beat, so nothing is rounded. A tempo is an exact fraction of beats
per minute (a MIDI tempo is 60 000 000 over its microseconds per beat). A
practice speed is in thousandths of the written tempo.
