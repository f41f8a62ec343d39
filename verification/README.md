# Astronomore

A real-time solar-system viewer. The library crate holds the parts of the
viewer that are plain logic, each function with a contract proved by Verus:

- `calendar`: Gregorian dates and Julian day numbers, with both round trips
  proved for every date and every day number (proleptic Gregorian).
- `planets`: the table of the Sun, the planets and the Moon; every body's
  parent comes earlier in the table.
- `scene`: the body hierarchy of a scene, the one-pass world transform update
  and the ancestor walk, proved to agree for an associative composition.
- `view`, `input`, `frame`: view toggles, keyboard dispatch and held movement
  keys, and the draw steps of a frame.
- `mesh`, `grid`: sphere triangle indices and grid line vertices.
- `date_input`: the parser of `YYYY-MM-DD` date fields.
- `shader`: WGSL validation with naga and the mapping of its diagnostics, and
  which shaders a batch of file changes reloads.
- `texture`: image bytes decoded with the `image` crate into RGBA8 texture
  data, with the zero-size check and the row pitch of the GPU copy.
- `surface`: what a frame does with the surface status, the choice of the
  surface format, accepted window sizes and the arrow vertex cap.

`app/` is the windowed program around it: wgpu rendering, winit events, the
egui control panel, floating-point orbits and camera, and file watching.
