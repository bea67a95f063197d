//! Extension Applier.
//!
//! Runs once over a batch of outstanding extension records. For each record,
//! in order, the material under the record's identity gets its emissive field
//! overwritten; a record whose identity does not resolve in the store is
//! silently dropped. The batch is consumed by the pass, so every record is
//! applied at most once, whether or not its lookup succeeded.

use vstd::prelude::*;

use crate::asset::ExtensionRecord;
use crate::store::{Material, MaterialStore};

verus! {

/// The material store after one applier pass over `records`, in order: each
/// record overwrites the emissive field of the material under its identity,
/// or is dropped when the identity does not resolve. Later records win over
/// earlier ones aimed at the same identity.
pub open spec fn applied(
    store: Map<u64, Material>,
    records: Seq<ExtensionRecord>,
) -> Map<u64, Material>
    decreases records.len(),
{
    if records.len() == 0 {
        store
    } else {
        let prev = applied(store, records.drop_last());
        let r = records.last();
        if prev.contains_key(r.identity) {
            prev.insert(r.identity, Material { emissive: r.color })
        } else {
            prev
        }
    }
}

/// Law: an applier pass never creates or removes a material; it only ever
/// overwrites the emissive field of materials that are already live.
pub proof fn lemma_apply_preserves_identities(
    store: Map<u64, Material>,
    records: Seq<ExtensionRecord>,
)
    ensures
        applied(store, records).dom() =~= store.dom(),
    decreases records.len(),
{
    if records.len() > 0 {
        lemma_apply_preserves_identities(store, records.drop_last());
    }
}

/// Law: records whose identities do not resolve in the store leave the store
/// unchanged.
pub proof fn lemma_apply_absent_identities(store: Map<u64, Material>, records: Seq<ExtensionRecord>)
    requires
        forall|k: int|
            0 <= k < records.len() ==> !store.contains_key(#[trigger] records[k].identity),
    ensures
        applied(store, records) == store,
    decreases records.len(),
{
    if records.len() > 0 {
        assert(forall|k: int|
            0 <= k < records.len() - 1 ==> records.drop_last()[k] == records[k]);
        lemma_apply_absent_identities(store, records.drop_last());
    }
}

/// Extension Applier: one pass over `records` against the live store. The
/// records are consumed: after the pass none of them exists any more,
/// whatever its lookup found.
pub fn apply(records: Vec<ExtensionRecord>, store: &mut MaterialStore)
    ensures
        final(store)@ == applied(old(store)@, records@),
{
    let n = records.len();
    for i in 0..n
        invariant
            n == records@.len(),
            store@ == applied(old(store)@, records@.take(i as int)),
    {
        let r = records[i];
        store.set_emissive(r.identity, r.color);
        proof {
            assert(records@.take(i + 1 as int).drop_last() =~= records@.take(i as int));
            assert(records@.take(i + 1 as int).last() == records@[i as int]);
        }
    }
    proof {
        assert(records@.take(n as int) =~= records@);
    }
}

} // verus!
