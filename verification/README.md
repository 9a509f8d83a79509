# trueno_viz

A visualization and system-monitoring library whose core is specified and proved
with Verus.

- `src/` is the verified library: RGBA colors, the framebuffer (row-major RGBA rows
  padded to 64 bytes, the first pixel placed on a 64-byte boundary for AVX-512 loads),
  grammar-of-graphics enumerations, the bounded ring buffer, the
  parsers of `/proc` and `/sys` files (CPU, memory, disks, mounts, network, processes,
  batteries, CPU frequencies) and of the macOS `ps`, `netstat -ib` and `df -k` output, the
  layout presets and layout manager of the terminal monitor, key handling and the
  application's response to actions, the GPU bookkeeping, and the byte kernels. The
  functions carry contracts over mathematical models (`Seq`, `Map`, integers); the few
  that rest on what only the machine knows (the storage address behind
  `Framebuffer::is_aligned`) say so in their documentation. The laws of the library
  (what a read gives back of a write, that histories never exceed their capacity and
  keep the latest values, that framebuffer mutators keep its shape, that the row
  percentages of every layout preset add up to 100, ...) are stated as proof
  functions.
- Of the vectorised process collector only its process-state type is here; its
  `/proc/<pid>/stat` parsing would rest on an integer-scanning kernel this library does
  not have, and that file is parsed by the verified `parse_pid_stat`.
- `tests/` runs the library on concrete inputs.
- `app/` is the unverified glue: reading files, running `df`, the terminal user
  interface, YAML configuration files, and everything computed in floating point
  (percentages, rates, blending).
