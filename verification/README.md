# AGI Adventure

A small creature-battle RPG. The rules of the game form a library verified
with Verus; a macroquad program drives it.

- `src/` — the verified library (`agi_adventure`):
  - `combat` — damage, battle turns, status effects, items and capture, with
    the battle laws (HP never exceeds its maximum, a capture only in the wild,
    at most one item per step, the move selection stays in the grid);
  - `creature`, `data`, `inventory`, `npc`, `player`, `world`, `save` — the
    game's data and their rules;
  - `text` — word wrapping and UTF-8 lengths;
  - `game` — the screens' decisions: title, map, dialogue, menus, warps,
    battles started and ended, game over;
  - `dice` — the random draws, through `rand`.
- `app/` — the window, keyboard, drawing, map files (`tiled`) and save files
  (`serde_json`); it asks the library what each frame leads to.
- `tests/` — tests of the library on concrete values.
