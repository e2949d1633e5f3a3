# compute_path_tracer

A GPU compute path tracer with an editor for signed-distance-field scenes.

- `src/` is the verified library (Verus): the scene tree and its compilation
  to the shader's GLSL `map` function, the data array that holds the scene's
  number fields, the editor's update cycle, a line-based GLSL `#include`
  preprocessor, input bookkeeping, the main loop's decisions and small
  utilities. Contracts and proofs live beside the code; `sdf_editor/layout.rs`
  shows that generated code does not depend on field values.
- `tests/` runs the library on concrete values.
- `app/` is the program around it: window and event loop (winit), GPU
  pipelines (wgpu), the egui editor windows, shader and scene files, and the
  saved image.
