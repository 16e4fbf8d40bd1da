# secure_delete

Secure deletion of files: each file is overwritten (one pass, two passes, or
the 38 passes of the secure mode), renamed to a random name, and removed.

- `src/` is the library, verified with Verus:
  - `fill`: pattern fills of the write buffer;
  - `schedule`: the passes of each overwrite mode;
  - `overwrite`: the steps of an overwrite and the block-write decisions;
  - `random`: random buffers and random file names (through `rand`);
  - `unlink`: renaming to a free random name and removing;
  - `smash`: what to do with one target, step by step;
  - `wipe`: the inode wipe's name template and counters;
  - `cli`: the command line;
  - `session`: setting up and shutting down.
- `app/` is the program: it performs the file system work each step names.
- `tests/` runs the library on concrete values.
