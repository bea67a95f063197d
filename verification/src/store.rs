//! The store of live material instances.
//!
//! Live materials are keyed by an opaque material identity. The pipeline
//! mutates a material only through `set_emissive`, which overwrites the
//! emissive field of an existing material and never creates one.

use std::collections::HashMap;

use vstd::prelude::*;

use crate::asset::EmissiveColor;

verus! {

broadcast use vstd::std_specs::hash::group_hash_axioms;

/// A live material instance; only the emissive field matters here.
#[derive(Clone, Copy, PartialEq, Eq, Structural, Debug)]
pub struct Material {
    pub emissive: EmissiveColor,
}

/// The live material store: material identity to material instance.
pub struct MaterialStore {
    map: HashMap<u64, Material>,
}

impl View for MaterialStore {
    type V = Map<u64, Material>;

    closed spec fn view(&self) -> Map<u64, Material> {
        self.map@
    }
}

impl MaterialStore {
    /// An empty store.
    pub fn new() -> (s: Self)
        ensures
            s@ == Map::<u64, Material>::empty(),
    {
        MaterialStore { map: HashMap::new() }
    }

    /// Put a material into the store under `identity`, replacing any
    /// material already held under it.
    pub fn insert(&mut self, identity: u64, material: Material)
        ensures
            final(self)@ == old(self)@.insert(identity, material),
    {
        self.map.insert(identity, material);
    }

    /// Does `identity` resolve to a live material?
    pub fn contains(&self, identity: u64) -> (found: bool)
        ensures
            found == self@.contains_key(identity),
    {
        self.map.contains_key(&identity)
    }

    /// The emissive color of the material under `identity`, if it resolves.
    pub fn emissive_of(&self, identity: u64) -> (color: Option<EmissiveColor>)
        ensures
            match color {
                Some(c) => self@.contains_key(identity) && self@[identity].emissive == c,
                None => !self@.contains_key(identity),
            },
    {
        match self.map.get(&identity) {
            Some(material) => Some(material.emissive),
            None => None,
        }
    }

    /// Overwrite the emissive field of the material under `identity`, if it
    /// resolves; a store without the identity is left unchanged.
    pub fn set_emissive(&mut self, identity: u64, color: EmissiveColor) -> (found: bool)
        ensures
            found == old(self)@.contains_key(identity),
            found ==> final(self)@ == old(self)@.insert(identity, (Material { emissive: color })),
            !found ==> final(self)@ == old(self)@,
    {
        if self.map.contains_key(&identity) {
            self.map.insert(identity, Material { emissive: color });
            true
        } else {
            false
        }
    }

    /// How many live materials the store holds.
    pub fn len(&self) -> (n: usize)
        ensures
            n == self@.len(),
    {
        self.map.len()
    }
}

} // verus!
