# compositor_slint

The logic of a Wayland compositor with its shell, written and proved in Verus: what
becomes of clients' requests, how surfaces are composited, how windows are dragged,
snapped and resized, what keys and buttons do, how menus, dock, panel and calendar
behave, and how the theme fades.

- `src/` is the library. Every function has a contract; the properties that hold of
  several functions together are the public proof functions named `law_…`.
- `tests/` runs the library on concrete values.
- `app/` is the part around it: the Wayland server, the tray's bus service, files,
  the clock and what is computed with floating-point numbers. The window manager,
  which animates the windows, and the screen, which draws them, are its traits
  `host::WindowManager` and `host::Screen`.

Windows, surfaces and outputs are known by numbers. What needs a graphics stack or a
protocol object is returned as a value that says what to do.

Pointer coordinates come as the whole numbers on either side of them (`cursor::Coord`),
animation levels as fractions of `theme::FULL`.

Dates, times of day, JSON and some text functions come from `chrono`, `serde_json` and
the standard library. The functions that call them are marked
`#[verifier::external_body]`, and each says what it takes for granted.
