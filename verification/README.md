# nova_protocol

The gameplay logic of the Nova Protocol space game, written in Verus and proved
against its contracts.

## Layout

- `src/` — the verified library.
  - `modding/events.rs` — the world-queue event system: handlers with filters and
    actions, the event queue and its processing, with laws on the order of events.
  - `modding/events/` — typed events dispatched to the handlers of their kind.
  - `mesh/` — the triangle-mesh builder, plane slicing of meshes, the octahedron
    sphere, mesh explosion and the gathering of an entity's fragments. Geometry on floating-point vectors (sides of a plane,
    crossing points, centres, spherical midpoints, random planes) is passed in as
    closures; the library proves how triangles, boundaries and fragments are arranged.
  - `states.rs`, `editor.rs`, `camera.rs`, `ui.rs`, `debug.rs`, `setup.rs` — the
    decisions of the game's states, editor, camera modes, status bar, debug toggle
    and application setup.
- `tests/` — tests of the library on concrete values.
- `app/` — the Bevy plugins and systems around the library: they read the ECS
  world, hand plain values to the library and apply its answers. Floating-point
  modules (health, interpolation, spherical coordinates, timers, transforms) live
  there whole.

## Not covered

The game's gameplay crate is not part of this repository, so what is built from its
types is not here: the scenarios (the asteroid field), the catalogue of spaceship
sections, the spawning of sections and spaceships in the editor, the HUD, and the
wiring of the physics, particle, input and rendering plugins. The editor's
decisions (which section a click places, the thruster's key, the previews, the
buttons) are verified here; the spawning they lead to is not. The status-bar and
editor widgets, the skybox and post-processing are left out of `app/` together with
Bevy's UI and rendering stack.
