# cheese

The rules of a small real-time strategy game about mice and cheese, written in Verus.

- `src/` is the verified library: units and buildings, abilities and their hotkeys, command
  queues, the mouse button state machine, keyboard and selection controls, control groups, the
  economy and recruitment queues, scenario objectives, menus, the navigation-mesh corridor,
  model scene graphs, the bookkeeping of growing GPU buffers, and the loading of the buffers of
  model files. Positions and entity handles are type parameters, so the rules hold whatever the
  host uses for them.
- `tests/` runs the library on concrete values.
- `app/` is a headless simulation around the library: it keeps the entities in a `legion`
  world, does the floating-point geometry and path finding on a constrained Delaunay
  triangulation, plays one of the scenarios and prints the outcome.

Run the simulation with a scenario name (`one`, `two`, `three` or `sandbox`) and, optionally, the
number of seconds to simulate.
