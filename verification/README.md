# Guillotine

A user interface layout and painting core for small displays, verified with Verus.

Element trees are declared with builders (`row`, `column`, `div`, `text`), built into
fixed-capacity frame storage, laid out in a single pass (constraints go down, sizes come up,
positions go down) and painted onto a display, optionally through a framebuffer.

## Layout

- `src/` is the verified library:
  - `geometry`, `style`, `layout`: sizes, points, rectangles, insets, the box model and
    constraints.
  - `element`, `context`, `frame`, `tree`: declarations and how they are built into the node and
    text arenas of a frame.
  - `frame_tree`: the layout of a built frame, specified by `laid_out`.
  - `target`, `draw`, `theme`: painting a laid-out frame, specified as the log of operations it
    performs on a display target.
  - `buffer`: the framebuffer that composes a region of the display in a caller's pixel slice.
  - `render`: one frame from start to finish: build, lay out, paint.
- `app/` holds the parts that live on embedded-graphics: the `Ui` entry point, display targets
  (direct and buffered), default themes for the standard colors, and error types with `Display`.
- `tests/` exercises the library on concrete values.
