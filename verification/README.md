# hypehouse_engine

The verified core of a two-deck DJ engine, and the application around it.

## Layout

- `src/` is the library. Verus verifies it, but for its trusted items: the
  functions marked `external_body`, which call into other crates, the types
  that hold what those crates own, and the spec functions without a body, which
  name what such a call returns.
  - `audio/` turns control events into commands for the audio thread
    (`translator`), carries them there (`batch`, `ring`), applies them when
    they are due (`schedule`, `mixer`), keeps the table of decoder slots
    (`slots`, `decode`, `decoder`, `samples`), pages remote media
    (`http_source`), and holds the settings and schedules of the stages that
    work on samples (`effects`, `limiter`, `pitch_tempo`, `wsola`, `perf`,
    `clock`, `io`).
  - `bridge/` answers JSON-RPC requests: authentication, rate limit, dispatch,
    the event log, notifications, and the calls that go on to the copilot
    service.
  - `channel`, `text`, `f32_bits` and `state` are shared by both.
- `app/` is ordinary Rust: sockets, files, threads, the audio device, JSON
  text, and the arithmetic on samples.
- `tests/` runs the library on concrete values.

## Floating point

The library never computes with floating-point numbers. It carries them as bit
patterns (`F32Bits`), whose order is an order of integers, and so can compare
and clamp them. The application converts at the border.

## Contracts

Where something outside decides, such as the other end of a channel, a server
or the clock, the library takes what came back as an argument and says what
follows from each value of it. The ends of rings, queues and channels carry a
history of what went through them, so that a contract can say what a function
offered or looked for, and what came of it. Both ends share one flow, of which
what goes in at the one end and what comes out at the other are parts, in
order. What is claimed of a call into another crate stands in the doc comment of
the function that makes it; it is trusted, not proved. Public proof functions
state the laws that relate several functions.
