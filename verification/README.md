# glint_screenshot

The logic of a screenshot tool for Wayland desktops, verified with Verus: which
way to capture is tried next, how captured frames and PNG files become images,
what a pointer drag does to the selection, how annotations are drawn, undone and
rendered, where the toolbar goes, and how pinned images move and scale.

* `src/` is the library. Every function states what it returns or changes, and
  Verus proves it. The functions named `law_...` state what holds across
  functions.
* `tests/` runs the library on concrete values.
* `app/` is the GTK program around it. It talks to the compositor, to the portals
  and to PipeWire, and replays the library's display lists on Cairo.

| Module | What it holds |
|---|---|
| `units` | fixed-point coordinates, 1024 to the pixel |
| `image` | premultiplied images and views of pixel data |
| `png` | PNG files to images; the decoder is `zune-png` |
| `chunks`, `deflate` | PNG files that the decoder cannot be trusted with |
| `screencast` | streams, frames, and the stitched desktop |
| `capture` | the order in which ways to capture are tried |
| `cli`, `paths`, `text` | arguments, file names, labels |
| `desktop` | monitors, their place in the capture, the toolbar's place |
| `selection`, `drag` | the selection and what drags do to it |
| `tools`, `history` | annotations, undo and redo |
| `toolbar`, `selector` | the toolbar, and the session as a whole |
| `render`, `overlay`, `demo` | display lists |
| `pin_window` | pinned images |

What is taken on trust and not proved is the PNG decoder: that its samples and its
colour space depend on the file alone, that a decoded image has the size that the
file's first chunk gives and all of its samples, and that the decoder does not panic
on a file in which `chunks` finds no hazard. It can panic on others: on some
animation frames, and on compressed streams from which its inflater takes more bits
at once than it has. `chunks` and `deflate` look for both before the decoder is
called.
