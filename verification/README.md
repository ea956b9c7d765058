# rayon-gemm

Dense, row-major matrix products, computed by seven kernels and timed against
each other. The kernels, the benchmark plan and the sweep are verified with
Verus; the program around them parses arguments, opens files and takes the time.

- `src/matrix.rs`: the matrix and what it stands for.
- `src/element.rs`: what it means for a value to be a sum of products, added one
  after the other, without assuming anything of `+` and `*`.
- `src/kernels/`: the kernels. Each promises the same product, whatever its
  output held before. `laws.rs` says what follows: kernels agree to the last bit
  where every operation that a product performs has one result, and compute the
  product of the matrices where the operations are exact.
- `src/cli.rs`: options, their validation, and the plan they resolve to.
- `src/benchmark/`: what a plan measures, in which order and how often.
- `app/`: the program.

What is believed without proof is marked `external_body` or
`assume_specification`: the calls into Rayon that cut a slice into chunks, run a
closure on every thread of a pool or inside a pool, build a pool and count its
threads.

Metal Performance Shaders are used on macOS only; there the library decides
which precisions they support and how the buffers are laid out.
