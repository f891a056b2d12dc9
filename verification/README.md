# mountain_render

A small 3D viewer: a cube, an icosphere or a Perlin-noise mountain, turned and
moved with the keyboard, lit and drawn with back-face culling.

- `src/` is the verified library (Verus). It builds the meshes as index meshes
  with exactly described vertices (`mesh`, `shapes`, `sphere`, `terrain`), with
  the orientation of their triangles proved (`geometry`); it picks the object
  from its name and holds the viewer's pose and the keyboard rules that move it
  (`scene`, `controls`), and decides how each triangle is shaded.
- `app/` is the program around it: command-line handling, the window and the
  keyboard (ggez), and all floating-point work: placing the vertices, the
  Perlin heights (noise), rotation, lighting and projection.
- `tests/` exercises the library on concrete values.
