# deepblue_engine

A battle engine for Pokémon singles: the battle state, one turn of the
simulator, determinization of the opponent's hidden information, and the
integer parts of the position evaluation, each with a contract proved by
Verus.

- `src/state.rs`: flag sets, Pokémon/player/battle state and their defaults.
- `src/data.rs`: game tables (pokedex, moves, type chart, number indices) and
  their lookups.
- `src/simulator.rs`: speed, move order, damage factors, switches and hits;
  the damage formula itself is passed in by the caller.
- `src/search.rs`: filling unknown items and moves of the opponent's team.
- `src/heuristic.rs`: hazard penalty and the HP shares of the evaluation.
- `src/engine.rs`: the reply text of a search.
- `app/`: Python bindings, loading JSON data, the floating-point evaluation
  and damage formula, and the threaded, timed search.
