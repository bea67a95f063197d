//! An asset-driven scene spawner's extension pipeline.
//!
//! An asset (a 3D scene bundle) is loaded asynchronously by the host's asset
//! loader. This library holds the decisions of the pipeline that waits for the
//! load, picks the scene to materialize, cross-references the loaded asset's
//! named-material table against the raw source document to recover emissive
//! strengths the importer drops, and applies the recomputed emissive colors to
//! the live material store. The host (an engine scheduler) performs the actual
//! loading and world mutation and hands the results back each tick.

pub mod apply;
pub mod asset;
pub mod extract;
pub mod registry;
pub mod store;
