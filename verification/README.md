# fuzz_envs

Environments for a reinforcement-learning fuzzer, with their rules verified in Verus.

- `src/alchemist.rs`: the alchemy lab (three flasks, four reactions, a transmutation
  that melts the core on 9999, 2, 1), its observation, its translator and oracle.
- `src/marauder.rs`: the same lab observed through slots shuffled at random on each
  reset (`rand`).
- `src/game.rs`: the poisoned-creature game: the poison and death rules, the frame
  summary, the action masks, and the bookkeeping of the environment around the world.
- `src/outcome.rs`: step results and oracle verdicts.
- `app/`: the Bevy world and systems, the float observations, and the wiring to the
  fuzzing engine.
