[package]
name = "duckdb_raster"
version = "0.1.0"
edition = "2021"
publish = false

[dependencies]
arrow = "*"
dashmap = "*"
duckdb = { version = "*", features = ["loadable-extension", "vscalar", "vscalar-arrow", "vtab", "vtab-loadable", "vtab-arrow"] }
geo = "*"
s2 = "*"
tiff = "*"
wkt = "*"
