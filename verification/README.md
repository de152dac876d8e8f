# bicischools-core

Planning "bike buses" (cycle trains) to school: street graph construction from
OpenStreetMap data, routing every student origin to the school, aggregating the
routes into a corridor network, picking candidate bike bus corridors and
writing stop timetables.

## Layout

- `src/` — the verified core, written in Verus:
  - `text.rs`: whitespace, tokens, decimal digits;
  - `clock.rs`: reading `HH:MM` arrival times and writing clock times;
  - `osm.rs`, `cost.rs`: OSM tag lookup, street classification and the
    cycling quietness score;
  - `graph.rs`: graph nodes, street segments, directed edges, adjacency;
  - `router.rs`: reverse adjacency and reading routes off the shortest-path tree;
  - `overline.rs`: which routes use which street edge;
  - `timetable.rs`, `synthetic.rs`, `config.rs`: stop labels and ids,
    synthetic origin helpers, configuration defaults.
- `app/` — the command-line program and the floating-point side of the
  engine (haversine geometry, edge costs, the shortest-path search, corridor
  scoring, stop placement and timing, the Go Dutch uptake model), plus the
  WebAssembly bindings, built only for `wasm32`.
- `tests/` — tests of the verified core.
