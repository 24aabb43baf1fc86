# rust_video_devices

A camera preview application whose logic is a library verified with Verus.

- `src/` is the verified library. Frames arrive as `CapturedFrame` (size and
  raw bytes). `slint_renderer` and `frame_processor` turn them into display
  pixels (BGR/BGRA reordering proved byte by byte against `pixels`; compressed
  frames go through the `image` decoder). `buffer_pool` keeps scratch buffers
  per size. `nokhwa_camera` holds camera indices, the ring of recent frame
  times, the capture loop's pacing decisions and the stop handle.
  `camera_app` holds the application's decisions: screen-update throttling,
  frame-error counting and reporting, status lines, camera lookup.
  `windows_permissions` decides what permission probes mean and in which order
  access is sought. `graphics`, `codec` and `clock` hold the trusted wrappers
  around slint, image and the system clocks.
- `app/` is the program: the window (slint), camera capture (nokhwa), the
  capture thread, and the Windows permission calls. It hands plain values to
  the library and acts on what it decides.
- `tests/` runs the library on concrete frames and states.
