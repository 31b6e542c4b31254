# am4

Core logic of the Airline Manager 4 route planner, verified with Verus.

- `src/` — the verified library:
  - `matrix`: the flattened strictly upper triangular layout of the per-route
    demand and distance tables (one slot per unordered airport pair);
  - `aircraft`: modifier sets, engine priorities and modification codes;
  - `ci`, `config`, `ticket`, `schedule`: cost index, configuration algorithm
    names, scheduling strategies and the trips-per-day / aircraft search;
  - `stopover`: the choice of an intermediate stop, on distances carried as
    order keys;
  - `form`, `settings`, `picker`, `query`, `paging`, `console`, `format`: the
    decisions and text handling of the web front end.
- `app/` — the parts written in `f32` (route metrics, the leg distances of
  stopovers, ferry searches, CSV rows) and the rkyv archives of the tables.
- `tests/` — tests of the library on concrete values.
