# horizon-lattice widget logic

The state and behaviour of the Horizon Lattice widgets, written in Verus and proved
against their contracts: the styled document and its format runs, the text editor with
its cursor, selection and undo history, tab bars and tab widgets, the table view and
table widget with their selection model, the time editor, the time zone picker model,
tool bars, tool boxes, tool buttons, the formatting toolbar and the system tray model.

Layout:

- `src/` — the verified library. Each widget is a module; its state is modelled by a
  view (a value of spec types) and every public operation states, over that view, what it
  returns and how it changes the widget. Laws that span several operations are public
  proof functions whose names begin with `law_`.
- `tests/` — executable tests of the library on concrete values.
- `app/` — the unverified edge: the native tray icon, the process environment and file
  system, the wall clock, and the floating-point pixel geometry that turns pointer
  positions into the cells, tabs and text positions the library decides on.
