# prism

The decision-making core of the Prism 3D editor, written in Verus and
proved against its contracts:

- `executor`, `history`: operators run transactionally. `begin` checks that
  an operator may run and snapshots the document; the host runs it; the
  matching `finish_*` records one undo step, routes the operator's requests,
  or rolls back. Undo, redo, modal operators, adjusting the last operation
  and dirty tracking live here, with laws such as "undo after a recorded
  step gives back the snapshot" and "a failed run leaves the document as it
  was".
- `registry`, `operator`, `builtin`: operators by id, the command palette's
  fuzzy ranking, and the operators that ship (their ids, labels, flags, and
  what the window and viewport operators ask of the UI). `builtin::select`
  holds mesh selection over a plain model of a mesh's topology: flushing
  between the vertex, edge and face domains, and box selection.
- `keymap`, `input`: key bindings grouped by context, resolved in context
  order against what each operator's poll says.
- `ui`: the screen's split tree (split, join, slot reuse), the context menu,
  named popups and what each frame does to an open one, the shell's routing
  of the pointer and of operators' requests, the window frame's resize
  zones, gizmo handles.
- `viewport`: viewport requests and the GPU flag packing.
- `png`, `inflate`: a PNG decoder with its own DEFLATE decoder, each proved
  equal to a specification of the format.

Documents, mesh geometry and everything measured in floating point are the host's:
the library is generic over the document type and hands decisions back as
plain values.

`app/` holds the pixel side of the UI (laying the split tree out, dragging
separators, measuring the pointer against the window frame). `tests/` runs
the library on concrete inputs.
