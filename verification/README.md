# opengl_test

The logic of a small OpenGL shader-program wrapper, verified with Verus.

- `src/` — the verified library. `shaders` holds `ShaderError` and
  `linking_error` (what a failed link reports, from its info log), and
  `ProgramLinker`, which decides every GL call of building a program and the
  outcome of the build. The proof functions `law_*` state what whole builds do.
- `app/` — the unverified side: the GL calls themselves (`ShaderProgram`),
  and the glm matrix helpers, which compute on `f32`.
- `tests/` — runs of the library on concrete values.
