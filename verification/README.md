# conrod

The core of an immediate-mode 2D GUI library, written in Verus and verified.

- `src/` is the verified library: input events and input state (`events`, `event`, `input`),
  the state of the mouse and its simple click, drag and scroll events (`mouse`), the `Ui`'s
  handling of each raw input event, with its capture, click, double-click and drag decisions
  (`ui`), the state machines of the widgets (`slider`,
  `toggle`, `text_box`, `number_dialer`, `rectangle`, `mouse_state`), text cursor and line
  bookkeeping and the font map (`text`), image and texture maps, the widget graph, kept acyclic in a `daggy::Dag` (the
  map from widget identifiers to graph nodes, the caching of a widget before its update, parents,
  children and parent chains by edge kind, and picking the widget under the mouse; `graph`), positioning enums and utility functions. Each public function states its
  result in its contract; the `law_*` proof functions state properties that span calls.
- `app/` holds what stays outside verification: conversion of the window backend's input
  events, reading fonts from files, and the floating point geometry that decides where the mouse
  is, and the clock that stamps mouse button presses.
- `tests/` exercises the library on concrete values.
