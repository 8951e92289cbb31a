# HookEcho

The decisions of a weather-radar map, as a library whose behaviour is stated in contracts and proved
by Verus.

- `src/render`, `src/render3d.rs`: which tiles stand in for missing ones, what a frame changes on the
  GPU, and in which order a pane is painted.
- `src/tiles`: basemap styles and their addresses, which tiles a view needs, which are fetched, which
  stay, and that the renderer holds exactly those.
- `src/serve`, `src/answers.rs`: the local server: who is let in, what is answered, what is proxied
  and for how long an answer is good.
- `src/settings`, `src/theme.rs`: what a user can set and what follows from it.
- `src/speech.rs`, `src/voice.rs`: what is said, in which order, and by which engine.
- `src/spaghetti.rs`, `src/source_health.rs`, `src/tgftp_provider.rs`, `src/storage.rs`: model
  guidance, feeds, the volume mirror and the caches.
- `src/text.rs`, `src/clock.rs`, `src/cloud.rs`, `src/secret.rs`: text, instants, query strings and
  the comparison of secrets.

Numbers that are floating point elsewhere are whole numbers here: tenths, thousandths,
ten-thousandths, or the bits of a float that is only carried through.

`app/` holds what surrounds the library: sockets, files, processes, windows, the GPU, and the
geometry of the camera in floating point. `tests/` runs the library on concrete values.
