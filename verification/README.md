# Tunefold

The interface and the playback logic of a music player for the terminal.

- `src/` is a library whose every function is verified with Verus. It holds the
  state of the interface and what keys, the mouse and the backend do to it, the
  decisions of the backend, the layout of the screens, the rows and texts that
  they show, the help, the colours drawn from a cover, and the points and bars of
  the scope.
- `app/` is ordinary Rust around it: it draws with ratatui, reads the terminal
  with crossterm, runs the loops on tokio, and computes with floating-point
  samples.
- `tests/` runs the library.

## How it fits together

Times are nanoseconds in a `u64`, and the time of day is always a parameter. The
interface is `app::App`: `on_ui` takes input, `on_backend` takes what the backend
tells, `take_commands` gives what is to be asked of it. The backend is
`backend::Backend`: a command or an event of the engine starts a job, which asks
for one `Action` at a time and goes on with the `Reply`.

Colours and the size of a cover are computed in single or double precision:
`float` holds that arithmetic as integers, with the rounding of every operation in
its contract. A fraction that comes from outside is the bit pattern of a
single-precision number.

The contracts are stated over spec functions next to the code (`*_step`,
`*_shown`, `*_text` and the like). What holds across functions stands in public
proof functions whose names begin with `law_`.

Two things are taken on trust: `String::push`, `pop` and `clear` of the standard
library, specified in `text`, and ratatui's `Layout::split`, wrapped in `areas`.
