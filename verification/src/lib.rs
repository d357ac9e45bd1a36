//! A verified converter between the WGS84 and GCJ02 coordinate datums for
//! GeoJSON documents.
//!
//! The library models a JSON document as the [`json::Json`] tree, locates
//! every coordinate pair that the GeoJSON grammar places inside a geometry,
//! and rewrites each pair with a caller-supplied pair transform, leaving every
//! other part of the document untouched. Datum-pair dispatch decides whether
//! the forward transform, the inverse transform, or no transform at all
//! applies.

pub mod convert;
pub mod datum;
pub mod json;
