# Carré

Carré is a 2D space shooter. This crate holds its game rules as a library
verified with Verus, and the Bevy program that runs them.

## Layout

- `src/` — the rules, each with its contract and proofs:
  - `levels`, `timeline` — the level registry and the scripted level
    timeline (which steps fire when, skipping ahead);
  - `enemy_pool`, `waves`, `chaos`, `arena`, `spawn_requests` — what
    enemies spawn and when: weighted draws within a budget, wave templates
    by weight, chaos tiers, arena rotation, the script's spawn requests and
    continuous spawners;
  - `campaign`, `experience`, `cards`, `items` — level selection, campaign
    progress, experience thresholds, level-up cards, bombs;
  - `phases`, `turret`, `anim`, `sounds`, `mine`, `octopus`, `shooter`,
    `combat`, `frames` — boss and mothership phases, gatling patterns and
    shots, sprite animations, scheduled sounds, mine beeps, octopus
    telegraphs, saucer bursts, projectile hits, frame files;
  - `behaviors`, `phase_graph`, `mothership` — the state machines of the
    boss, the green UFO and the octopus, death detection, the data-driven
    phase graph and the boss defined in it, and the plan of the next
    mothership to enter;
  - `order` — the stable ranking shared by the sorts;
  - `rng` — the random draws and string comparison the rules rely on.
- `app/` — the Bevy program: its systems keep the timers, read the input
  and the clock, call the library, spawn the entities it plans and announce
  what it decides as messages. Drawing sprites and playing sounds from
  those messages is not part of this crate.
- `tests/` — tests of the library on concrete values.
