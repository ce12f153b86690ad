# wasmgame

A small WebGL game for the browser, built around a library whose logic is
verified with Verus.

- `src/` is the verified library:
  - `ecs`: entities, component containers (`Singleton`, `VecIndex`,
    `BTreeComponentMap`), the `World`, views and joins over it, and the
    `Runner` that executes systems in order;
  - `gl`: GPU object ids, binding-point tracking, vertex attribute layouts;
  - `time`: the frame loop's decisions and the frame-rate window;
  - `math`: the column-major layout of 4x4 matrices;
  - `mesh`: turning OBJ polygons into interleaved vertex data;
  - `hexatile`: the tile field and tile coordinates;
  - `pointer`: dragging the camera by mouse or touch.
- `app/` is the browser side: the WebGL context and objects, float vector and
  matrix arithmetic, the scene, shaders, event listeners and the frame loop.
- `tests/` exercise the library.
