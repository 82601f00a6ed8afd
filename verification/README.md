# pristine_grid

An endless-runner arcade game on a WebGPU grid, split into a verified
library and a browser front end.

- `src/` is the library, verified with Verus:
  - `game.rs`: modes, shields, score and waves of a run; what frames, keys
    and pointer presses do to them.
  - `pool.rs`: object pools that reuse free slots before growing.
  - `rng.rs`: the linear congruential generator that places spawned objects.
  - `text.rs`: the heads-up display's numbers and key-name comparison.
- `app/` is the browser side (wasm-bindgen, web-sys): WebGPU set-up and
  drawing, the page overlay, input events, the animation loop, and the
  floating-point world (positions, speeds, camera, geometry).
- `tests/` runs the library on concrete values.
