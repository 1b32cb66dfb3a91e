# voxel_village

The rules of a small voxel village whose residents level and pave ground, farm, fish,
trade gifts, keep journals and talk to players, written in Verus with their contracts
proved.

- `src/` is the verified library: one module per village system (`voxel_farm`,
  `voxel_feed`, `voxel_directed_task`, …), plus shared text helpers (`text`), string-keyed
  association lists (`assoc`) and the block kinds (`voxel`). Each public function states
  its result in `ensures`; the laws that relate several functions are public proof
  functions named `lemma_…`.
- `tests/` runs the library on concrete values.
- `app/` is ordinary Rust around it: the JSON-lines files the ledgers live in, chance rolls
  and other floating-point decisions, each handing plain values to the library.
