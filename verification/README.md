# neat_cars

The rules of an arena in which voxel cars, driven by NEAT-evolved neural
networks, fight with sixteen kinds of weapon, play football and throw
discuses. The library in `src/` holds those rules, each function with a
contract proved by Verus; `app/` is the game program around it (engine,
physics, rendering, input), which Verus does not see.

Quantities the engine keeps as real numbers are fixed point here:
lengths in millimetres, durations in milliseconds, and health, damage,
rewards, fractions and network weights in thousandths.

- `voxel` — block kinds, the 10 x 10 x 10 grid, face connectivity,
  building a body from a genome, splash damage, loose parts, deformation.
- `ai` — NEAT genomes and their operators, compiled networks, the
  population with its innovation records and evolution, the driver's
  reward bookkeeping and commands.
- `weapons` — weapon kinds and cooldowns, what each trigger pull does,
  targeting, mines, projectiles, sticky bombs and drills.
- `battle` — the Reset / Build / Battle cycle, spawning and retiring cars,
  reward platforms, damage rewards and penalties, football and discus.
- `physics`, `ui`, `camera`, `arena`, `assets_loader` — nitro and drive
  plans, the car builder and HUD bookkeeping, camera cycling, trail and
  spark upkeep, asset file tables.
- `random` — the one call into `rand`.

The tests under `tests/` run the library on concrete values.
