# crystalline

A pet battle library verified with Verus.

- `src/battle`: pets, teams and the turn engine. `model.rs` states what one
  turn does over views of the battle; `engine.rs` is proved to follow it;
  `laws.rs` proves what every turn keeps (the roster, hit points that never
  rise, the winner report, who moves first, when a turn is defined).
- `src/bestiary`: species, the in-memory catalog and its queries, and the
  assembly of a catalog from the rows of the NRC data bundle.
- `src/adapter`: how a species becomes a battle pet and which moves it takes.
- `src/demo.rs`: two species picked by name fight one turn.
- `src/export.rs`: the data behind the bestiary web page.
- `src/pets.rs`: the checks a saved pet must pass.
- `src/text.rs`, `src/order.rs`: decimal rendering, trimming, path joining
  and sorting texts by character code.
- `app/`: the command line (battle demo, site export, pet loading): reading
  the SQLite bundle and files, and writing JSON.
