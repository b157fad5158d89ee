# rusty-routes-transformer

Preprocesses OpenStreetMap PBF files for routing: a first pass keeps the ways
and relations that matter for routing and marks the nodes they reference, a
second pass filters, removes metadata and unwanted tags, adds country codes and
elevation to nodes, and writes the result.

## Layout

- `src/` is the library, verified with Verus: the element model, the handler
  chain and its handlers (counters, printers, filters, id collectors, metadata
  removal), the buffering of nodes for elevation lookups, the country grid,
  the PMTiles lookup bookkeeping, the plan of the two passes, file checks and
  the text reports.
- `app/` is the command-line program around it: argument parsing, logging,
  reading and writing PBF files, GeoTiff and projection work, the geometry of
  the country index, and the floating-point percentages of the summary.
- `tests/` holds the tests of the library.

Coordinates are held in the library as integers in units of 1e-7 degrees, the
resolution a PBF file stores; `app/` converts to and from degrees.
