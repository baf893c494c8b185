# niri shader and compositor-state core, verified

The decision logic of niri's post-process shader pipeline and of a few pieces of compositor
state, written in Verus with contracts proved for every input.

- `src/` — the verified library:
  - `global_shader`, `region_shader`, `window_shaders`, `output_shader_config`,
    `shader_presets`, `decoration_shader` — the shader configuration: merging, resolving a
    `source`/`path`/`pass` spec into its `(source, hyprland)` chain, the built-in colour filters,
    and focus-ring/border shader blocks with their content-addressed cache key.
  - `compositor` — redraw state, which shaders force redraws of an output, the
    `shader-animation-max-fps` throttle, the full set of chains a config compiles, and how a
    render draws the global and region shaders (captures, cursor region mode, draw order).
  - `global_chain` — compiling and installing the global pass chain (no partial chain), and
    sizing or resetting its per-pass state (feedback textures, sinks, offscreens).
  - `focus_ring` — the decisions of a focus-ring or border update: drawn, animating, custom
    program, hollow, light.
  - `output_shader` — the runtime toggle/cycle state of per-output colour filters.
  - `shaders`, `program_cache`, `program_install` — cache keys of compiled programs, the
    reconciliation of the program caches on a reload, and installing a reload's programs into
    the `HashMap` caches.
  - `pass_wiring` — which texture each sampler of a global pass reads in a frame.
  - `keyboard_focus` — which surface gets keyboard focus, and when a focused window is stamped
    for the recent-windows list.
  - `panel_source` — the published side of a carousel panel's ping-pong buffers.
  - `carousel` — ring order of the carousel's outputs.
  - `cli` — splitting `niri msg action` batches into words (through `shlex`).
  - `text` — string helpers with their specifications.
- `tests/` — unit tests of the library.
- `app/` — what stays outside the proofs: KDL decoding with `knuffel`, reading shader files,
  the reload and redraw paths that run the renderer's compiles, the wall clock, stdin, and the
  floating-point colour temperature, panel geometry and drag physics.

Numbers that the configuration gives with a fractional part are held in millionths of a unit in
the library; `app/` converts.
