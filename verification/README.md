# ballpit

Balls rain into a hole that vibrates while the player holds the space bar, a mouse button or a
finger on the screen. `src/` holds the game's logic with its contracts and proofs; `app/` holds the window,
GPU and floating-point code around it.

- `src/world.rs` — the balls, their rigid bodies, GPU records and light slots; dropping the dead
  balls keeps the three aligned.
- `src/sweep.rs` — the arrangement that swap-removal leaves, and what it keeps.
- `src/physics.rs` — the physics engine's world and the two calls the library makes into it.
- `src/input.rs` — held inputs, vibration, and what each window event asks for.
- `src/layout.rs` — the layout of the per-instance record in the instance buffer.
- `src/frame.rs` — surface size and what to do with each acquired frame.
- `src/mesh.rs` — model file format by name, triangle lists, default index lists.
- `src/pattern.rs` — ball patterns, their shader codes, and random choice among them.

`app/` holds the camera, instance records, light uniform, simulation step, event conversions
and pipeline creation. The event loop, the GPU state with its render passes, the egui overlay
(ball count, frame rate) and the texture and model loaders are not here: they rest on `model`
and `texture` modules and on shader and asset files that this project does not have.
