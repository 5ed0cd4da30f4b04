# poshumim_hwscreen

A hardware screen-share engine: it captures a monitor, converts the picture to
I420, and publishes it as an H.264 track into a LiveKit room.

- `src/` holds the logic, verified with Verus: quality rungs, frame pacing, the
  session lifecycle, the engine's frame loop, colour conversion, the choice of a
  monitor, the reading of statistics, and what the probe programs compute.
- `tests/` runs the library on concrete values.
- `app/` carries out what the library decides: clocks, threads, the scripting
  surface, the graphics device and the room. The latter two are Windows-only.
- `extras/convert.hlsl` is the compute shader of the graphics device.
