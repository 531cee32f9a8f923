# bevy_rui

A widget toolkit for the Bevy engine: text boxes, a code editor with syntax highlighting,
menus, tabs, dropdowns, checkboxes, accordions, resizable docks, floating windows, a file
dialog and keyboard/gamepad navigation confined to the active window.

The crate is split in two.

- `src/` is the library, verified with Verus. It holds the widgets' state and every decision
  they take on input: the editing model of text boxes and the code editor (undo and redo,
  selections, auto-indentation, character limits), the window stack that scopes focus, the
  navigation step, the ordering and icons of the file dialog, menu and tab switching, collapse
  buttons, syntax highlighting by line. Each public function carries a contract; the laws that
  tie several calls together are proof functions named `law_*`.
- `app/` is the engine side: plugins, systems that read input and the pointer, hand plain values
  to the library and apply its answers to entities, and the functions that spawn the widgets.
  Geometry, colours and scrolling, which work in floating point, stay there.

The library reaches outside crates only through small trusted wrappers: `ropey` for the code
editor's text, `syntect` for highlighting and `arboard` for the system clipboard.
