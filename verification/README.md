# sysplay

Low-level system building blocks, specified and proved with Verus:

- `buddy`: a buddy allocator over a byte arena (split, merge, in-place
  resize) and a randomized workout that drives it;
- `segregated`: an allocator with one address-ordered free list per order;
- `arena`: a first-fit arena for closures and their result packets;
- `chacha`: the ChaCha20 block function and a generator built on it;
- `cpuid`: decoding of CPUID leaves into a processor report;
- `process`: the blocks a new process is created with (environment,
  parameter block, attribute list), the creation settings, and the errors;
- `sync`: the state words of a reader-writer lock and a mutex, with the
  decisions their lock and unlock paths take;
- `handles`: the handle, object type and module tables as a query fills
  them in, and the paths and names they hold;
- `text`, `cert`, `child`: UTF-16 decoding and number and list rendering,
  certificate thumbprints and errors, and child-process status mappings.

`src/` is the verified library. `tests/` runs it on concrete values.
`app/` is a command-line front end that reads the processor, runs the
allocators, the lock demo and a process layout, and prints what the
library computes.
