# bevy_editor

The decisions of a scene editor for the Bevy engine, written in Verus and
proved against their contracts: what is selected, how panes and their tabs
behave, which components the properties pane lists and in what order, what
the scene tree saves and what a drop onto it does, how the asset browser and
the asset database treat files, which log events the output pane shows and
how it writes them, and the messages the inspector shows.

- `src/` is the verified library. Engine and UI calls stay outside it: the
  library takes plain values (entity ids, names, flags) and hands back what
  to do.
- `app/` holds the glue that cannot be verified: serde, thiserror and chrono
  copies of library types, preference files, the output pane's egui widget
  and the icon font.
- `tests/` runs the library on concrete values.
