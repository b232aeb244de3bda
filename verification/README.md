# hermes_optimizer

The route-editing core of a vehicle routing solver, verified with Verus.

A solution is a list of routes; a route is the ordered list of the activities
that one vehicle performs (services, and the pickups and deliveries of
shipments), with the bound that its vehicle sets on their number. The library
holds:

- `problem::job`: job indices and activity identifiers.
- `solver::solution`: routes and solutions, with their reads and edits.
- `solver::ls`: the local-search moves (2-opt, relocate, swap, or-opt, mixed
  exchange, SWAP\*, and the inter-route relocate, swap, or-opt, 2-opt\*,
  cross exchange, mixed exchange and reverse 2-opt), the enumeration of the
  candidate moves of each operator, and `LocalSearchMove`, which gathers them.
  `ls::laws` states what the moves keep: no activity is lost or duplicated,
  and some moves undo themselves when applied twice.
- `solver::intensify`: the moves of the intensification phase.
- `solver::insertion` and `solver::insertion_context`: where a job may enter a
  route, and the activities that an insertion changes.
- `solver::ruin`: string removal (SISR), with its random choices drawn from
  `rand`, and radial removal of the jobs nearest to a location.
- `solver::recreate`, `solver::constraints`: strategy and constraint
  descriptions, their names and score levels.

Each operation is specified over a mathematical view of the solution
(`Seq<Seq<ActivityId>>`): `apply` states the routes after the move, and each
`generate_moves` states exactly which moves it lists and in which order.
Costs, scores and everything else that is computed in floating point stay out
of the library.

`tests/` runs the operators on concrete routes.
