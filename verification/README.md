# bevy_roguelike

The rules of a turn-based roguelike, verified with Verus: grid maps and their
generators, inventories and equipment, attributes and the combat arithmetic built on
them, item quality, and the per-actor bookkeeping of action and hit points.

- `src/` is the verified library. Every function states its result in its contract;
  the laws that relate several calls are public proof functions (`lemma_*`).
  Randomness comes from `rand` through a few trusted wrappers in `src/rng.rs`.
- `app/` is the engine side: the `f32` formulas, the generator loops that run until
  chance delivers, and the ECS systems that feed the library.
- `tests/` exercises the library on concrete values.
