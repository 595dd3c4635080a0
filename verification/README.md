# nbody_sim

A window that draws the bodies of an n-body simulation with wgpu.

- `src/` is the verified library (Verus):
  - `app.rs`: the application shell; which action answers each window event.
  - `state.rs`: surface bookkeeping (size, configured flag), surface-format
    choice, the answer to each frame-acquisition outcome, the exit key.
  - `engine/model.rs`: the integer topology of the UV sphere (grid points and
    triangle list, with proofs that every index names a grid point and that
    each cell's triangles join its four corners), packed vertex-attribute
    offsets, and the GPU model handle.
- `app/` is the program around it: winit event loop, wgpu device and
  pipelines, the camera and all floating-point geometry.
- `tests/` runs the library on concrete inputs.
