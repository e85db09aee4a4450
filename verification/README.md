# duckdb_raster

S2 geography and GeoTIFF raster functions for DuckDB, with their behaviour stated and proved in
Verus.

- `src/` is the library. Cell identifiers are 64-bit integers; doubles are carried as their bit
  patterns. `cell`, `token` and `union_query` hold the arithmetic of S2 cells and what is called
  of the `s2` crate, `double` the order of bit patterns and exact widening, `text` what is done
  with strings. `s2_impl`, `s2_scalar`, `s2_table` and `cell_union` are the S2 functions,
  `raster`, `raster_scalar` and `raster_table` the raster functions. Each SQL function is a struct
  whose methods state what it computes for each row.
- `app/` is the DuckDB extension: it registers the functions, reads files, and does what needs
  floating point.
- `tests/` runs the library with the outside crates linked.
