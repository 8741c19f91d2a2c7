# kagari_widgets

The interaction logic of the kagari widget set, written in Verus and proved against its
specifications: what each key press, click and drag does to a control's state, how the command
palette ranks commands, how lists reorder and tables sort, how a dock layout is walked and keyed,
and which colour roles and pixel metrics each control paints with.

Layout:

- `src/` is the verified library, one module per concern:
  - `keys`, `button`, `panel`, `nav`, `slider`, `number`: key maps and activation rules;
  - `grid`, `table`, `sort`, `reorder`, `toggle`: selection, stable sorting, list moves and the
    drag-and-drop preview;
  - `menu`, `dropdown`, `palette`, `text`: popup navigation, option filtering and fuzzy command
    ranking;
  - `tooltip`, `dock`, `field`, `control`, `paint`: the hover timer, dock layout paths and shape
    keys, field messages, the control size scale and the paint roles.
- `tests/` runs the library on concrete scenarios.
- `app/` holds the floating-point geometry (slider values, splitter ratios, dock weights, scroll
  offsets, number formatting) that calls into the library for each decision.
