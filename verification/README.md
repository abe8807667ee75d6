# xd_engine

A small 3D editor (winit + wgpu + egui) whose decision logic is a Verus-verified
library.

- `src/` — the verified library:
  - `json.rs`: the JSON value model the glTF loader reads, its parse from
    text (through `serde_json`), and the `v[key]`, `v[i]`, `as_u64` and
    `as_array` lookups;
  - `gltf.rs`: decoding the first primitive of a glTF document (positions,
    normals, indices) from the JSON text or model and the binary buffer, or
    the first thing wrong with the document;
  - `mesh.rs`: triangle index topology of boxes, cones, arrows, rings and
    frusta, with proofs that every index names an existing vertex;
  - `scene.rs`: the scene, its selection and its deletable camera;
  - `gizmo.rs`: gizmo axes, handles and the highlight rule;
  - `render.rs`: draw order and uniform-slot plans of the scene and game views
    (each kept in its own slot zone), and the uniform stride;
  - `input.rs`: the left-button protocol of the editor view.
- `tests/` — tests of the library on concrete values.
- `app/` — the program: window and event loop, GPU plumbing, egui panels,
  file reading, and all floating-point geometry.
