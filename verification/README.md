# sunscatter

The rules of the Sunscatter space-colony game, verified with Verus.

- `src/` is the verified library:
  - `colony/resources.rs`, `colony/buildings.rs`: resource, building and
    factory recipe tables, colony capacities and the best mass driver.
  - `colony/tech.rs`: the research tree (unlocking, efficiency lines, recipe
    gates) and the discovery milestones.
  - `colony/transfer.rs`: the body hierarchy, transfer types and route
    categories, and blueprint crew and parachute checks.
  - `colony/contracts.rs`: contract destinations, milestones, the contract
    board and its bookkeeping.
  - `colony/trade.rs`: the trade fleet: ids, routes, launches, arrivals and
    what becomes of arrived ships, route automation and hangars.
  - `editor/state.rs`: staging in the vessel editor, deleting parts, and the
    parts connected to the root part.
  - `text.rs`: string helpers (decimal notation, concatenation).
- `app/` holds what stays outside the proofs: save-game and data-file formats
  (serde, RON), the floating-point economy tables and payload masses, the
  body hierarchy built from the solar system, and the fleet's tick (route
  automation, arrivals) driven by the library's decisions.
- `tests/` exercises the library on concrete values.
