# kestrel_engine

The rules of a small 2D/3D game engine as a library whose behaviour is stated in contracts and
proved by Verus: animation of sprites, clips and skeletons, particles, contacts and spatial
indexes, scenes and their hierarchy, registries of meshes, materials and environments, image
based lighting, input, cameras and timing of the GPU.

## Layout

- `src/` is the library. Every item in it is verified.
  - `scalar.rs`, `vectors.rs`: numbers and vectors. The rules are generic over `Scalar`; `Fixed`
    is a fixed-point number that implements it. Callers bring single precision numbers.
  - `clip*.rs`, `skeleton.rs`, `sprite*.rs`, `animation_time.rs`, `anim_stats.rs`: animation.
  - `particles.rs`, `motion.rs`, `collisions.rs`, `contacts.rs`, `spatial*.rs`, `picking.rs`: what
    moves and meets.
  - `components.rs`, `entity.rs`, `hierarchy.rs`, `transform.rs`, `scene*.rs`, `world_edit.rs`,
    `draw.rs`, `info.rs`, `events.rs`: what a world is made of, and scenes.
  - `mesh*.rs`, `material_registry.rs`, `environment.rs`, `ibl.rs`, `light_maps.rs`,
    `preview_assets.rs`: what is loaded, who uses it, and how it is lit.
  - `camera.rs`, `gizmo.rs`, `input.rs`, `profiler.rs`, `gpu_baseline.rs`: steering and timing.
  - `text*.rs`, `paths.rs`, `small_list.rs`, `counts.rs`, `stopwatch.rs`: what the rest is written
    with. Times are measured by a clock that the caller hands in.
- `tests/` runs the library, with fixed-point and with single precision numbers.
- `app/` is the program around it: files, the physics engine, the entity store, the window's
  events and the GPU.

## What is taken on trust

Calls out of the library stand behind small wrappers, each with a comment that says what is
claimed of the call: `text.rs` (a character put at the end of a string), `input.rs` (lower
case), `small_list.rs` (the small vector), `material_registry.rs` (the alignment of
rows in uploads) and `world_edit.rs` (a random choice).
