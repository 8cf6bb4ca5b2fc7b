# scene_renderer

A renderer for scenes of two-dimensional primitives (shadows, quads, paths, underlines, sprites,
painted surfaces, backdrop blurs and shader passes) on Metal, written in Verus.

The library computes what a frame asks of the GPU as a value: a list of commands, together with
the bytes that they put into the instance buffer. Everything about that list is decided, specified
and proved in `src/`. Allocating buffers, compiling shaders and running commands is left to
whoever holds the device; `app/` does it on Metal.

- `renderer`: what a renderer keeps between frames, and how each way of rendering begins.
- `rendering`: a rendering from its plan to the commands that are submitted.
- `frame`, `encoder`, `commands`, `slots`: a frame, batch by batch and command by command.
- `scene`, `geometry`, `packing`: the primitives of a frame, and where they lie in memory.
- `pool`, `shader_cache`, `device`, `descriptors`: instance buffers, compiled shaders, the choice
  of a device, and what is built on it.
- `readback`: pixels read back from the GPU.
- `assets`, `animation`: images, and the release of what they hold on the GPU.
- `error`, `text`: what can go wrong, in words.
- `replay`, `frame_laws`, `space`, `outcome`: what holds of every list of commands, every frame and
  every rendering.

Lengths in scaled pixels are held as the bit patterns of their floating-point values: the library
hands them on to the GPU and never computes with them. Where a rectangle has to be clipped or
joined with another, that happens in `app/`, before a scene reaches the library.
