# grin

Game logic of GRIN, a time-rewinding shooter built on Bevy, written in Verus with its
behaviour stated in contracts and proved.

- `src/` is the verified library. Entities are 64-bit ids and durations are nanoseconds.
  - `rewind`: per-entity component histories, recorded frame by frame, and rewind ticks that
    walk them backwards and say what the world must do (insert, remove, despawn).
  - `time_hierarchy`: time parents and children, and which entities a rewind reaches.
  - `combo`, `firing`, `fist`: combo stacks, shot cooldowns, semi- and fully automatic fire,
    and the fist's punch combo.
  - `equip`, `aim`, `hierarchy`: equip slots and model attachments, aim clips, and searches
    up the entity hierarchy.
  - `collision`, `hitbox`: collision groups and GLTF hitbox generation.
  - `material`, `sketch`: material effect bookkeeping and sketch pipeline keys.
  - `keys`, `query`, `scene`, `map`: input, query, scene and map loading helpers.
- `tests/` runs the library on concrete values.
- `app/` runs the library in a headless Bevy app: queries read the world into plain values and
  systems apply what the library returns. Floating-point time scaling lives there.

Verify with Verus on `src/lib.rs`.
