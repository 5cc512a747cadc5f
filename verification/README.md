# wizard_survivors

The rules of a top-down survivor game, verified with Verus.

* `src/` is the verified library: timers (in nanoseconds, advanced by the
  engine's own timer code), the player's animation cycle and sprite frame
  stepping, damage-number text, items and inventories, experience, ability
  cooldowns, spell casting and projectile bookkeeping, enemy attack decisions,
  and wave pacing. Every public function states its result in `ensures`;
  the laws that relate several calls are public proof functions (`lemma_*`).
* `tests/` runs the library against the real engine and random-number crates.
* `app/` is the engine glue: the float-valued stats, item rules, damage rolls
  and knockback, the wave data, and ECS systems that feed the rules with the
  frame time and events.
