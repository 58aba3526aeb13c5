# salon

The core of a non-destructive photo editor, verified with Verus.

- `src/` is the verified library:
  - `editor/`: edits, their compilation to a small image-processing IR
    (`ir_generator`), the undo/redo history of an edit session
    (`edit_context`), the editor's sessions per image (`editor`), and what the
    editor gathers from a run (`result`).
  - `ir/`: operations, masks, modules, and the well-formedness of a module
    (every operation reads only results computed before it).
  - `engine/`: which values of the previous run can be reused, the value
    store, histograms, the ring buffer of GPU buffers, workgroup counts.
  - `library/`: image identifiers, the catalog of images and albums kept in
    name order, saved state, the thumbnail location, the local library, and
    the image cache (files in a bounded LRU cache, temporary images always
    kept).
  - `runtime`: the Exif orientation of an image file and the transforms that
    put it upright.
  - `float`, `rectangle`: IEEE single-precision values held as bit patterns.
- `app/` holds what Verus does not see: files and folders, JSON, folder
  watching, the thumbnail thread, the images behind the cache's handles,
  the loop that hands a module's operations to GPU implementations (a trait,
  `OpImpls`; no implementation is part of this crate), and
  floating-point arithmetic.
- `tests/` exercise the library on concrete values.
