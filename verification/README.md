# consistent_hash_math

The computations behind an interactive article on consistent hashing: how
evenly `n` random hashes on a ring share it out, and how the share of a
server that owns `k` of the hashes is distributed.

- `src/` is the library, verified with Verus. A hash is a `u32` and the
  ring is `[0, u32::MAX]`; positions, arcs and segment lengths are exact
  integers in these units.
  - `random`: draws from the operating system's entropy source.
  - `ring`: sorting hashes, pinning the first at 0, closing the ring, arcs
    and the facts about their sums.
  - `segments`: rings cut by random points, produced in batches, groups of
    `k` adjacent segments and a sampler of their lengths.
  - `single_hash_demo`, `double_hash_demo`, `packed_hash_demo`,
    `kth_hash_demo`: options and the draws of the number-line demos.
  - `k_hash_pdf_demo`, `single_hash_pdf_demo`, `sampling`: options and sizes
    of the distribution demos.
  - `marbles_demo`: the two-marble experiment and its tally.
  - `text`, `messages`: labels and the routing of the page's messages.
- `app/` is the WebAssembly front end: it parses the options that the page
  sends, calls the library, and draws SVG charts; floating-point statistics
  and drawing live there.
- `tests/` runs the library on concrete values.
