# starlight_editor

The verified core of the Starlight Ridge world editor: the state and rules
behind its map layers, pixel atlas editor, world placements, tile roles,
voxel panel kits and compositions, and worldgen bake, each with contracts
proved by Verus.

- `src/` is the library. Every operation states what it returns or changes
  over plain mathematical views (`Seq`, `Map`, integers), and the laws that
  relate operations (undo then redo, save then load, upsert then lookup, a
  nudge and its reverse) are public proof functions.
- The only outside calls are to the `image` crate, behind small trusted
  wrappers in `src/pixel_editor.rs`, and `String::push` in `src/text.rs`.
- `tests/` runs the library on concrete values.
- `app/` is a small command-line front end: file I/O, logging and argument
  handling around the library.

Paths are compared the way Unix paths are: by their `/`-separated
components, so repeated and trailing separators and inner `.` pieces make
no difference.
