//! S2 geography and GeoTIFF raster functions for DuckDB.
//!
//! Cell identifiers are 64-bit integers, floating-point values are carried as their
//! IEEE-754 bit patterns, and each SQL function is a struct whose methods say what the
//! function computes row by row.

pub mod cell;
pub mod cell_union;
pub mod columns;
pub mod double;
pub mod raster;
pub mod raster_call_laws;
pub mod raster_laws;
pub mod raster_scalar;
pub mod raster_table;
pub mod s2_call_laws;
pub mod s2_impl;
pub mod s2_scalar;
pub mod s2_table;
pub mod text;
pub mod token;
pub mod union_query;

pub use raster_scalar::RsValue;
pub use raster_table::RsMetadataVTab;
pub use s2_scalar::{S2Area, S2CellId, S2Contains, S2Distance, S2Parent};
