//! Data carried by a loaded asset, modeled as plain values.
//!
//! Emissive quantities are fixed-point fractions: a channel of an emissive
//! factor and an emissive strength are numerators at a scale the host picks
//! (the same scale for every value it hands in). A computed emissive color
//! channel is the exact product of a factor channel and a strength, so it is
//! carried at the product of the two scales, with no rounding anywhere.

use vstd::prelude::*;

verus! {

/// Load state of an asynchronously loading asset, as the host's asset loader
/// reports it when polled.
#[derive(Clone, Copy, PartialEq, Eq, Structural, Debug)]
pub enum LoadState {
    /// The load has neither finished nor failed yet.
    Pending,
    /// The asset finished loading and a snapshot can be fetched.
    Loaded,
    /// The load failed; no snapshot will ever be available.
    Failed,
}

/// A base emissive factor: three fixed-point color channels.
#[derive(Clone, Copy, PartialEq, Eq, Structural, Debug)]
pub struct EmissiveFactor {
    pub r: u32,
    pub g: u32,
    pub b: u32,
}

/// A computed emissive color: three channels at product scale, each the exact
/// product of a factor channel and an emissive strength.
#[derive(Clone, Copy, PartialEq, Eq, Structural, Debug)]
pub struct EmissiveColor {
    pub r: u64,
    pub g: u64,
    pub b: u64,
}

/// One material entry of the raw source document: an optional name, a base
/// emissive factor, and an optional emissive-strength multiplier that the
/// importer's material representation does not retain.
pub struct RawMaterialEntry {
    pub name: Option<String>,
    pub emissive_factor: EmissiveFactor,
    pub emissive_strength: Option<u32>,
}

/// One row of the importer's named-material table: a material name bound to
/// the identity of a live material instance.
pub struct NamedMaterial {
    pub name: String,
    pub identity: u64,
}

/// The in-memory result of a completed asset load: the scene list, the
/// named-material table, and the raw source document's material list.
pub struct LoadedAsset {
    pub scenes: Vec<u64>,
    pub named_materials: Vec<NamedMaterial>,
    pub raw_materials: Vec<RawMaterialEntry>,
}

/// A pending spawn-asset marker wrapping the handle of one loading asset.
#[derive(Clone, Copy, PartialEq, Eq, Structural, Debug)]
pub struct SpawnRequest {
    pub handle: u64,
}

/// An extension record: the identity of a live material instance together
/// with the emissive color recomputed from the raw source document.
#[derive(Clone, Copy, PartialEq, Eq, Structural, Debug)]
pub struct ExtensionRecord {
    pub identity: u64,
    pub color: EmissiveColor,
}

} // verus!
