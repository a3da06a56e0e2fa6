# xastge

The core of the XastGE game engine, written in Verus: the functions in
`src/` carry contracts that Verus proves. Trait methods that users of the
library implement (`System::execute`) and the few calls into outside
crates (type identifiers, image decoding and encoding) are stated, not
proved.

- `src/ecs/` — the archetype-based entity component store: component ids
  and layouts, component bit masks, byte columns, archetypes, and the world
  that spawns entities, applies component writes and answers queries.
  `ecs/laws.rs` proves what a read gives back after a spawn or a write and
  what a query returns.
- `src/input.rs` — keyboard and mouse button state driven by window events.
- `src/gamepad.rs` — gamepad button bindings and calibration of raw button
  codes.
- `src/render/` — GPU description types and the builders that number the
  bindings of shader resources; the game loop's decision about failed
  frames; resource handles and meshes.
- `src/utils.rs` — cutting cube map cross images into their six faces.
- `src/ui/`, `src/game.rs`, `src/scene.rs`, `src/window.rs` — the game's
  small data types, font atlas sizing and registration, and the result type
  of the scene tool.

`app/` is the command line scene tool and the glue that talks to the
outside world: files, images, the GPU and process-wide state. `tests/`
exercises the library on concrete values.
