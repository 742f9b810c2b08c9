# bevy_opengl

An OpenGL 2.1 / WebGL 1 renderer backend for Bevy, split in two:

- `src/` — the verified library. Everything the renderer decides is here, with
  contracts proved by Verus: the render phases and their passes, blend and cull state,
  vertex attribute types, which meshes share GPU buffers and where each mesh's indices
  land, which mesh buffer set is bound and when buffers are freed, where each mip level
  of an image is in its data, which texture a sampler binds, when a uniform value must
  be uploaded again, the shader program cache, the shader source text (includes,
  defines, platform preamble, the GLSL 3.30 rewrite used on macOS), the uniform
  declarations of uniform structs, and the integer packing of vertex data.
- `app/` — the Bevy plugins and systems and the OpenGL calls: it reads Bevy's data,
  hands the library plain values, and performs the GL work the library decides.
  Floating-point math (matrices, light parameters, quantization) stays here.
- `tests/` — tests of the library on concrete values.

Laws of the library are stated as public proof functions named `lemma_*` next to the
functions they are about.
