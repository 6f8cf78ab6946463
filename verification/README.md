# wayland_extras

Pen tablets (`zwp_tablet_*` v2) and toplevel icons (`xdg-toplevel-icon-v1`) for a
Wayland client.

- `src/` is the library, verified with Verus: the state of seats and tools, the
  pen events that follow from what the compositor sends, the pixel data and the
  requests of an icon. It does no input or output. The calls into `ahash`, whose
  contracts are taken on trust, stand together in `src/maps.rs`.
- `app/` binds the globals, turns protocol objects into numbers and protocol events
  into values, sends requests, and computes what needs floating point.
- `tests/` runs the library on concrete values.
