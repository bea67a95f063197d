//! Material Metadata Extractor.
//!
//! Cross-references the loaded asset's named-material table against the raw
//! source document's material list: for each named material, the first raw
//! entry carrying the same name (exact, case-sensitive; first match wins) is
//! consulted, and if it declares an emissive strength, an extension record
//! with the exactly scaled emissive color is produced. A missing match or a
//! missing strength produces no record: absence is a legitimate content state.

use vstd::prelude::*;

use crate::asset::{EmissiveColor, EmissiveFactor, ExtensionRecord, LoadedAsset, NamedMaterial,
    RawMaterialEntry};

verus! {

/// Does `entry` carry `name` as its (optional) material name?
pub open spec fn entry_has_name(entry: RawMaterialEntry, name: Seq<char>) -> bool {
    match entry.name {
        Some(s) => s@ == name,
        None => false,
    }
}

/// The first entry of `entries` named `name`, if any: duplicates are neither
/// deduplicated nor reported, the earliest entry wins.
pub open spec fn first_match(entries: Seq<RawMaterialEntry>, name: Seq<char>) -> Option<
    RawMaterialEntry,
>
    decreases entries.len(),
{
    if entries.len() == 0 {
        None
    } else if entry_has_name(entries[0], name) {
        Some(entries[0])
    } else {
        first_match(entries.drop_first(), name)
    }
}

/// The emissive color scaled channel by channel: each channel is the product
/// of the base factor channel and the strength, which always fits in 64 bits.
pub open spec fn scaled_color(factor: EmissiveFactor, strength: u32) -> EmissiveColor {
    EmissiveColor {
        r: (factor.r * strength) as u64,
        g: (factor.g * strength) as u64,
        b: (factor.b * strength) as u64,
    }
}

/// The product of two 32-bit channel values never truncates in 64 bits.
pub proof fn lemma_scaled_color_exact(factor: EmissiveFactor, strength: u32)
    ensures
        scaled_color(factor, strength).r == factor.r * strength,
        scaled_color(factor, strength).g == factor.g * strength,
        scaled_color(factor, strength).b == factor.b * strength,
{
    assert(factor.r * strength <= 0xffff_ffff * 0xffff_ffff) by (nonlinear_arith)
        requires
            factor.r <= 0xffff_ffffu32,
            strength <= 0xffff_ffffu32,
    ;
    assert(factor.g * strength <= 0xffff_ffff * 0xffff_ffff) by (nonlinear_arith)
        requires
            factor.g <= 0xffff_ffffu32,
            strength <= 0xffff_ffffu32,
    ;
    assert(factor.b * strength <= 0xffff_ffff * 0xffff_ffff) by (nonlinear_arith)
        requires
            factor.b <= 0xffff_ffffu32,
            strength <= 0xffff_ffffu32,
    ;
}

/// The extension record for the named material `m`, if the raw document
/// yields one: the first raw entry named like `m` must declare an emissive
/// strength.
pub open spec fn record_for(entries: Seq<RawMaterialEntry>, m: NamedMaterial) -> Option<
    ExtensionRecord,
> {
    match first_match(entries, m.name@) {
        Some(e) => match e.emissive_strength {
            Some(s) => Some(
                ExtensionRecord { identity: m.identity, color: scaled_color(e.emissive_factor, s) },
            ),
            None => None,
        },
        None => None,
    }
}

/// Every extension record the raw document yields for the named materials
/// `mats`, in table order.
pub open spec fn extracted_from(
    entries: Seq<RawMaterialEntry>,
    mats: Seq<NamedMaterial>,
) -> Seq<ExtensionRecord>
    decreases mats.len(),
{
    if mats.len() == 0 {
        Seq::empty()
    } else {
        let prev = extracted_from(entries, mats.drop_last());
        match record_for(entries, mats.last()) {
            Some(r) => prev.push(r),
            None => prev,
        }
    }
}

/// Every extension record extracted from a loaded asset.
pub open spec fn extracted(asset: LoadedAsset) -> Seq<ExtensionRecord> {
    extracted_from(asset.raw_materials@, asset.named_materials@)
}

/// `first_match` returns the entry at the earliest matching index.
pub proof fn lemma_first_match_at(entries: Seq<RawMaterialEntry>, name: Seq<char>, i: int)
    requires
        0 <= i < entries.len(),
        entry_has_name(entries[i], name),
        forall|j: int| 0 <= j < i ==> !entry_has_name(#[trigger] entries[j], name),
    ensures
        first_match(entries, name) == Some(entries[i]),
    decreases i,
{
    if i > 0 {
        assert(!entry_has_name(entries[0], name));
        lemma_first_match_at(entries.drop_first(), name, i - 1);
    }
}

/// `first_match` finds nothing when no entry carries the name.
pub proof fn lemma_first_match_none(entries: Seq<RawMaterialEntry>, name: Seq<char>)
    requires
        forall|j: int| 0 <= j < entries.len() ==> !entry_has_name(#[trigger] entries[j], name),
    ensures
        first_match(entries, name) is None,
    decreases entries.len(),
{
    if entries.len() > 0 {
        lemma_first_match_none(entries.drop_first(), name);
    }
}

/// Law: a raw entry that is the first match for a named material and declares
/// emissive strength `s` over factor `(r, g, b)` yields exactly the record
/// whose color is `(r * s, g * s, b * s)`.
pub proof fn lemma_record_color_exact(
    entries: Seq<RawMaterialEntry>,
    m: NamedMaterial,
    i: int,
    s: u32,
)
    requires
        0 <= i < entries.len(),
        entry_has_name(entries[i], m.name@),
        forall|j: int| 0 <= j < i ==> !entry_has_name(#[trigger] entries[j], m.name@),
        entries[i].emissive_strength == Some(s),
    ensures
        record_for(entries, m) is Some,
        record_for(entries, m).unwrap().identity == m.identity,
        record_for(entries, m).unwrap().color.r == entries[i].emissive_factor.r * s,
        record_for(entries, m).unwrap().color.g == entries[i].emissive_factor.g * s,
        record_for(entries, m).unwrap().color.b == entries[i].emissive_factor.b * s,
{
    lemma_first_match_at(entries, m.name@, i);
    lemma_scaled_color_exact(entries[i].emissive_factor, s);
}

/// Law: a named material with no matching raw entry yields no record.
pub proof fn lemma_no_match_no_record(entries: Seq<RawMaterialEntry>, m: NamedMaterial)
    requires
        forall|j: int| 0 <= j < entries.len() ==> !entry_has_name(#[trigger] entries[j], m.name@),
    ensures
        record_for(entries, m) is None,
{
    lemma_first_match_none(entries, m.name@);
}

/// Law: a named material whose first matching raw entry declares no emissive
/// strength yields no record.
pub proof fn lemma_no_strength_no_record(entries: Seq<RawMaterialEntry>, m: NamedMaterial, i: int)
    requires
        0 <= i < entries.len(),
        entry_has_name(entries[i], m.name@),
        forall|j: int| 0 <= j < i ==> !entry_has_name(#[trigger] entries[j], m.name@),
        entries[i].emissive_strength is None,
    ensures
        record_for(entries, m) is None,
{
    lemma_first_match_at(entries, m.name@, i);
}

/// Law: the extracted records are exactly those the named-material rows
/// yield: a record is extracted precisely when some row yields it, so rows
/// that yield none, because no raw entry matches or the matching entry
/// declares no strength, contribute nothing.
pub proof fn lemma_extracted_membership(
    entries: Seq<RawMaterialEntry>,
    mats: Seq<NamedMaterial>,
    r: ExtensionRecord,
)
    ensures
        extracted_from(entries, mats).contains(r) <==> exists|i: int|
            0 <= i < mats.len() && record_for(entries, #[trigger] mats[i]) == Some(r),
    decreases mats.len(),
{
    if mats.len() > 0 {
        lemma_extracted_membership(entries, mats.drop_last(), r);
        let prev = extracted_from(entries, mats.drop_last());
        let whole = extracted_from(entries, mats);
        assert(forall|i: int| 0 <= i < mats.len() - 1 ==> mats.drop_last()[i] == mats[i]);
        if whole.contains(r) {
            let k = choose|k: int| 0 <= k < whole.len() && whole[k] == r;
            if k < prev.len() {
                assert(prev[k] == r);
                assert(prev.contains(r));
            } else {
                assert(record_for(entries, mats[mats.len() - 1]) == Some(r));
            }
        }
        if exists|i: int| 0 <= i < mats.len() && record_for(entries, #[trigger] mats[i]) == Some(r) {
            let i = choose|i: int|
                0 <= i < mats.len() && record_for(entries, #[trigger] mats[i]) == Some(r);
            if i < mats.len() - 1 {
                assert(record_for(entries, mats.drop_last()[i]) == Some(r));
                let k = choose|k: int| 0 <= k < prev.len() && prev[k] == r;
                assert(whole[k] == r);
                assert(whole.contains(r));
            } else {
                assert(whole.last() == r);
                assert(whole.contains(r));
            }
        }
    }
}

/// Law: extraction is a pure function of the loaded asset, so any two record
/// sequences extracted from the same unchanged asset are equal.
pub proof fn lemma_extract_deterministic(
    asset: LoadedAsset,
    first: Seq<ExtensionRecord>,
    second: Seq<ExtensionRecord>,
)
    requires
        first == extracted(asset),
        second == extracted(asset),
    ensures
        first == second,
{
}

/// The index of the first entry of `entries` named `name`, if any.
fn find_first_match(entries: &Vec<RawMaterialEntry>, name: &String) -> (r: Option<usize>)
    ensures
        match r {
            Some(i) => i < entries@.len() && entry_has_name(entries@[i as int], name@) && forall|
                j: int,
            | 0 <= j < i ==> !entry_has_name(#[trigger] entries@[j], name@),
            None => forall|j: int|
                0 <= j < entries@.len() ==> !entry_has_name(#[trigger] entries@[j], name@),
        },
{
    let n = entries.len();
    for i in 0..n
        invariant
            n == entries@.len(),
            forall|j: int| 0 <= j < i ==> !entry_has_name(#[trigger] entries@[j], name@),
    {
        match &entries[i].name {
            Some(entry_name) => {
                if *entry_name == *name {
                    return Some(i);
                }
            },
            None => {},
        }
    }
    None
}

/// The exactly scaled emissive color of `factor` under `strength`.
fn scale_color(factor: EmissiveFactor, strength: u32) -> (c: EmissiveColor)
    ensures
        c == scaled_color(factor, strength),
{
    proof {
        lemma_scaled_color_exact(factor, strength);
    }
    EmissiveColor {
        r: (factor.r as u64) * (strength as u64),
        g: (factor.g as u64) * (strength as u64),
        b: (factor.b as u64) * (strength as u64),
    }
}

/// Material Metadata Extractor: every extension record the loaded asset
/// yields, in named-material table order. A pure function of the asset
/// snapshot; nothing is cached across calls.
pub fn extract(asset: &LoadedAsset) -> (records: Vec<ExtensionRecord>)
    ensures
        records@ == extracted(*asset),
{
    let mut records: Vec<ExtensionRecord> = Vec::new();
    let mats = &asset.named_materials;
    let entries = &asset.raw_materials;
    let n = mats.len();
    for k in 0..n
        invariant
            n == mats@.len(),
            records@ == extracted_from(entries@, mats@.take(k as int)),
    {
        let m = &mats[k];
        match find_first_match(entries, &m.name) {
            Some(i) => {
                match entries[i].emissive_strength {
                    Some(s) => {
                        let color = scale_color(entries[i].emissive_factor, s);
                        proof {
                            lemma_first_match_at(entries@, m.name@, i as int);
                        }
                        records.push(ExtensionRecord { identity: m.identity, color });
                    },
                    None => {
                        proof {
                            lemma_first_match_at(entries@, m.name@, i as int);
                        }
                    },
                }
            },
            None => {
                proof {
                    lemma_first_match_none(entries@, m.name@);
                }
            },
        }
        proof {
            assert(mats@.take(k + 1 as int).drop_last() =~= mats@.take(k as int));
            assert(mats@.take(k + 1 as int).last() == mats@[k as int]);
        }
    }
    proof {
        assert(mats@.take(n as int) =~= mats@);
    }
    records
}

} // verus!
