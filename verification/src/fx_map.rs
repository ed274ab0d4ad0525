//! The hash maps of `fxhash`, keyed by probe id, behind a small interface
//! whose contracts speak of what each map holds.

use fxhash::{FxHashMap, FxHasher};
use std::hash::BuildHasherDefault;
use vstd::prelude::*;

verus! {

/// `fxhash::FxHasher`, the hasher of an `FxHashMap`.
#[verifier::external_type_specification]
#[verifier::external_body]
pub struct ExFxHasher(FxHasher);

/// `std::hash::BuildHasherDefault`, which builds an `FxHashMap`'s hashers.
#[verifier::external_type_specification]
#[verifier::external_body]
#[verifier::reject_recursive_types(H)]
pub struct ExBuildHasherDefault<H>(BuildHasherDefault<H>);

/// A map from probe id to the number of the partition that holds its payloads.
pub type PartitionMap = FxHashMap<String, u64>;

/// A map from probe id to its latest payload.
pub type PayloadMap = FxHashMap<String, String>;

/// What a map from probe id to partition number holds, by the characters of
/// each probe id.
pub uninterp spec fn partition_map_contents(m: PartitionMap) -> Map<Seq<char>, u64>;

/// What a map from probe id to payload holds, by the characters of each
/// probe id and payload.
pub uninterp spec fn payload_map_contents(m: PayloadMap) -> Map<Seq<char>, Seq<char>>;

/// The contents of an empty map from probe id to partition number.
pub open spec fn empty_partition_map() -> Map<Seq<char>, u64> {
    Map::empty()
}

/// The contents of an empty map from probe id to payload.
pub open spec fn empty_payload_map() -> Map<Seq<char>, Seq<char>> {
    Map::empty()
}

/// `FxHashMap::default()`: an empty map.
#[verifier::external_body]
pub(crate) fn partition_map_new() -> (r: PartitionMap)
    ensures
        partition_map_contents(r) == empty_partition_map(),
{
    FxHashMap::default()
}

/// `HashMap::get`, copied out: the partition number stored for a probe id
/// equal to `key`, if any. `String` keys are equal when their characters
/// are, and the map finds a key by that equality.
#[verifier::external_body]
pub(crate) fn partition_map_get(m: &PartitionMap, key: &String) -> (r: Option<u64>)
    ensures
        r == if partition_map_contents(*m).contains_key(key@) {
            Some(partition_map_contents(*m)[key@])
        } else {
            None::<u64>
        },
{
    m.get(key).copied()
}

/// `HashMap::insert`: afterwards `key` maps to `value` and every other key
/// maps to what it did before.
#[verifier::external_body]
pub(crate) fn partition_map_insert(m: &mut PartitionMap, key: String, value: u64)
    ensures
        partition_map_contents(*final(m)) == partition_map_contents(*old(m)).insert(key@, value),
{
    m.insert(key, value);
}

/// `FxHashMap::default()`: an empty map.
#[verifier::external_body]
pub(crate) fn payload_map_new() -> (r: PayloadMap)
    ensures
        payload_map_contents(r) == empty_payload_map(),
{
    FxHashMap::default()
}

/// `HashMap::get`, cloned out: a copy of the payload stored for a probe id
/// equal to `key`, if any.
#[verifier::external_body]
pub(crate) fn payload_map_get(m: &PayloadMap, key: &String) -> (r: Option<String>)
    ensures
        match r {
            Some(v) => payload_map_contents(*m).contains_key(key@) && v@ == payload_map_contents(
                *m,
            )[key@],
            None => !payload_map_contents(*m).contains_key(key@),
        },
{
    m.get(key).cloned()
}

/// `HashMap::insert`: afterwards `key` maps to `value` and every other key
/// maps to what it did before.
#[verifier::external_body]
pub(crate) fn payload_map_insert(m: &mut PayloadMap, key: String, value: String)
    ensures
        payload_map_contents(*final(m)) == payload_map_contents(*old(m)).insert(key@, value@),
{
    m.insert(key, value);
}

} // verus!
