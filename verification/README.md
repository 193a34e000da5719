# cmux

The core of a terminal multiplexer, verified with Verus: sessions and their
windows, the pane tree of each window, the coordinator that ties windows to
platform windows, the control-message vocabulary, and the interface settings
(theme, status bar, tab bar).

Layout:

- `src/session.rs`: sessions, windows and the session manager, with its
  invariant (names and sessions correspond one to one, windows belong to the
  session that lists them, at most one session is attached).
- `src/pane.rs`: the pane tree of a window: splitting, closing (a split
  collapses into the remaining half), directional navigation to the nearest
  pane, and the tree invariant. Layouts are fixed-point fractions of the
  window (`LAYOUT_ONE` is the whole extent).
- `src/multiplexer.rs`: the coordinator and its event handling.
- `src/control.rs`: control commands, the control messages they become, and
  responses. Floats travel as their bit patterns.
- `src/ui.rs`, `src/text.rs`: interface data and decimal formatting.
- `src/sys.rs`: the few standard-library calls the library makes, with the
  contracts the proofs rely on.
- `app/`: the program: platform event loop (winit), serialized forms of the
  control vocabulary (serde), the socket client, and the pixel geometry of
  the interface, which is floating point.
