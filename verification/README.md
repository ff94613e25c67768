# Geofront

The rules of a turn-based mecha skirmish on an 8×8 street grid — move
points, one action per turn, facing, AT Field charges, the enemy phase
planner, city protection, pilot drama beats and the battle HUD's orders —
written in Rust and proved correct with Verus.

## Layout

- `src/` — the verified library.
  - `units.rs`: grid positions, facing, teams, alien archetypes and the
    tactical state of a mech (turn refresh, AT Field, attack range).
  - `combat.rs`: the mission — order legality, orders, strikes (AT Field,
    core strikes on Angels), the pilot's one-shot refusal, the enemy
    planner, the turn cycle and the drama beats the rules log.
  - `characters.rs`: drama lines, HUD banners and portrait placeholders.
  - `ui.rs`: HUD requests and the orders they stand for, control state,
    city alert levels and combat-log tones.
  - `render.rs`: view modes, animation clip slots, mech models and the
    surface block's building plan.
  - `text.rs`: decimal formatting, whitespace, ASCII case and substring
    search used by the log lines.
- `app/` — a headless driver. It keeps what the library does not model in
  integers: limb hit points, pilot sync / stress / loyalty ratios, damage
  rolls and presentation math, all in floating point, and hands the rules
  the plain facts they read (move points a refresh grants, whether the arms
  are spent, the pilot's mood, the damage text).
- `tests/` — scenario tests run against the compiled library.

`app` runs the skirmish to a result (`--smoke` runs the smoke scenario) and
prints the combat log.
