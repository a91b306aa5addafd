# space_router

The logic of a satellite-network simulation: a 48-satellite constellation in
six orbital planes around a planet with one ground station, routed by
terrestrial OSPF or by SATNET-OSPF with four optimisations that build on each
other (point-to-point mapping, low-footprint topology, hardware link lock,
predictive rerouting).

The library (`src/`) is verified with Verus. Scene quantities are held in
fixed point (thousandths of a scene unit, millionths of a second, microradians)
so that every rule can be stated and proved exactly.

- `geometry`: points, squared distances and the line-of-sight test against the planet.
- `routing`: the breadth-first relay search from the ground station.
- `handover`: route following to the ground and predictive rerouting.
- `metrics`: the per-frame health step of a satellite (memory, CPU, status).
- `network`: one frame of the whole network.
- `constellation`: the initial scene and orbital motion.
- `visuals`, `gui`, `text`: colours, control-panel decisions and labels.

`app/` holds the renderer and window loop around the library.
