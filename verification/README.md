# suinput

An action-based input system: applications declare actions in action sets,
bind them to the input components of devices through binding layouts, and
receive action events while device drivers feed input in.

## Layout

- `src/` — the library, verified with Verus: path interning, action and
  action-set registries, device types and interaction profiles, binding
  layout processing and priority hand-over between action sets, sticky
  boolean actions, input aggregation, raw keyboard and mouse decoding, and
  the front-end objects that tie a runtime's instances together. Every
  function states its behaviour in `requires`/`ensures`; laws that relate
  several functions are public proof functions.
- `tests/` — tests of the library on concrete values.
- `app/` — the parts around the library: loading the embedded runtime,
  drivers, error and serialisation types with their derives, persistence to
  disk, the floating-point stages of the binding engine, motion-sensor
  processing, and the session loop that drives them.
