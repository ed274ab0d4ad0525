//! The probe index: which partition holds each probe, and which partitions
//! are still vacant. A write for a probe goes to its partition; a probe seen
//! for the first time takes the first vacant partition; when none is left the
//! write is dropped.

use crate::fx_map::{
    partition_map_contents, partition_map_get, partition_map_insert, partition_map_new,
    PartitionMap,
};
use crate::messages::WriteRequested;
use crate::indexed_file_handle::{decode_preface, decode_value};
use crate::partition::PARTITION_SIZE;
use crate::partition_laws::{apply_write, key_fits, value_fits_after_key};
use crate::transactor::{
    lemma_accepted_store_reads_back, partition_agrees, planned_write, store_accepts, Transactor,
};
use vstd::utf8::encode_utf8;
use std::collections::VecDeque;
use vstd::prelude::*;

verus! {

/// Well-formedness of an index: finitely many probes; no partition is vacant
/// twice; no assigned partition is vacant; no two probes share a partition.
pub open spec fn index_wf(by_key: Map<Seq<char>, u64>, vacant: Seq<u64>) -> bool {
    &&& by_key.dom().finite()
    &&& vacant.no_duplicates()
    &&& forall|k: Seq<char>| #[trigger] by_key.contains_key(k) ==> !vacant.contains(by_key[k])
    &&& forall|k1: Seq<char>, k2: Seq<char>|
        #![trigger by_key[k1], by_key[k2]]
        by_key.contains_key(k1) && by_key.contains_key(k2) && k1 != k2 ==> by_key[k1]
            != by_key[k2]
}

/// The partition that a write for `key` goes to: the probe's own, else the
/// first vacant one, else none.
pub open spec fn put_target(by_key: Map<Seq<char>, u64>, vacant: Seq<u64>, key: Seq<char>) -> Option<
    u64,
> {
    if by_key.contains_key(key) {
        Some(by_key[key])
    } else if vacant.len() > 0 {
        Some(vacant[0])
    } else {
        None
    }
}

/// The assignment of partitions after a write for `key`.
pub open spec fn by_key_after_put(
    by_key: Map<Seq<char>, u64>,
    vacant: Seq<u64>,
    key: Seq<char>,
) -> Map<Seq<char>, u64> {
    if !by_key.contains_key(key) && vacant.len() > 0 {
        by_key.insert(key, vacant[0])
    } else {
        by_key
    }
}

/// The vacant partitions after a write for `key`.
pub open spec fn vacant_after_put(
    by_key: Map<Seq<char>, u64>,
    vacant: Seq<u64>,
    key: Seq<char>,
) -> Seq<u64> {
    if !by_key.contains_key(key) && vacant.len() > 0 {
        vacant.drop_first()
    } else {
        vacant
    }
}

/// The assignment that the owners' states give, partition `i` owned by the
/// `i`-th state: each key to the last partition that holds it.
pub open spec fn by_key_of_states(states: Seq<Option<(Seq<char>, u64)>>) -> Map<Seq<char>, u64>
    decreases states.len(),
{
    if states.len() == 0 {
        Map::empty()
    } else {
        let before = by_key_of_states(states.drop_last());
        match states.last() {
            Some((k, _)) => before.insert(k, (states.len() - 1) as u64),
            None => before,
        }
    }
}

/// The vacant partitions that the owners' states give, in order.
pub open spec fn vacant_of_states(states: Seq<Option<(Seq<char>, u64)>>) -> Seq<u64>
    decreases states.len(),
{
    if states.len() == 0 {
        Seq::empty()
    } else {
        let before = vacant_of_states(states.drop_last());
        match states.last() {
            Some(_) => before,
            None => before.push((states.len() - 1) as u64),
        }
    }
}

/// Whether an owner's state holds the probe `key`.
pub open spec fn holds_key(state: Option<(Seq<char>, u64)>, key: Seq<char>) -> bool {
    state matches Some((k, _)) && k == key
}

/// The states of a sequence of partition owners.
pub open spec fn states_of(transactors: Seq<Transactor>) -> Seq<Option<(Seq<char>, u64)>> {
    transactors.map_values(|t: Transactor| t.spec_state())
}

/// The probe index.
pub struct Tenken {
    transactors_by_key: PartitionMap,
    vacant_spots: VecDeque<u64>,
}

impl Tenken {
    /// The partition of each probe.
    pub closed spec fn spec_by_key(&self) -> Map<Seq<char>, u64> {
        partition_map_contents(self.transactors_by_key)
    }

    /// The vacant partitions, first to be taken first.
    pub closed spec fn spec_vacant(&self) -> Seq<u64> {
        self.vacant_spots@
    }

    pub open spec fn wf(&self) -> bool {
        index_wf(self.spec_by_key(), self.spec_vacant())
    }

    /// The index of the partitions that `transactors` own, the `i`-th owning
    /// partition `i`: occupied partitions by their key, vacant ones in order.
    pub fn new(transactors: &Vec<Transactor>) -> (r: Self)
        ensures
            r.wf(),
            r.spec_by_key() == by_key_of_states(states_of(transactors@)),
            r.spec_vacant() == vacant_of_states(states_of(transactors@)),
    {
        let mut transactors_by_key = partition_map_new();
        let mut vacant_spots: VecDeque<u64> = VecDeque::new();
        let n = transactors.len();
        let ghost states = states_of(transactors@);
        let mut i: usize = 0;
        while i < n
            invariant
                n == transactors@.len(),
                states == states_of(transactors@),
                i <= n,
                partition_map_contents(transactors_by_key) == by_key_of_states(
                    states.take(i as int),
                ),
                vacant_spots@ == vacant_of_states(states.take(i as int)),
                index_wf(partition_map_contents(transactors_by_key), vacant_spots@),
                forall|k: Seq<char>|
                    #[trigger] partition_map_contents(transactors_by_key).contains_key(k)
                        ==> partition_map_contents(transactors_by_key)[k] < i,
                forall|j: int| 0 <= j < vacant_spots@.len() ==> #[trigger] vacant_spots@[j] < i,
            decreases n - i,
        {
            let ghost before_map = partition_map_contents(transactors_by_key);
            let ghost before_vacant = vacant_spots@;
            assert(states.take(i as int + 1).drop_last() == states.take(i as int));
            assert(states.take(i as int + 1).last() == transactors@[i as int].spec_state());
            match transactors[i].state() {
                None => {
                    vacant_spots.push_back(i as u64);
                    assert forall|j: int, l: int|
                        0 <= j < vacant_spots@.len() && 0 <= l < vacant_spots@.len() && j != l
                        implies vacant_spots@[j] != vacant_spots@[l] by {
                        if j < before_vacant.len() && l < before_vacant.len() {
                            assert(before_vacant[j] != before_vacant[l]);
                        }
                    }
                    assert forall|k: Seq<char>| #[trigger] before_map.contains_key(k)
                        implies !vacant_spots@.contains(before_map[k]) by {
                        if vacant_spots@.contains(before_map[k]) {
                            let j = choose|j: int|
                                0 <= j < vacant_spots@.len() && vacant_spots@[j] == before_map[k];
                            if j < before_vacant.len() {
                                assert(before_vacant.contains(before_map[k]));
                            }
                        }
                    }
                },
                Some((key, _)) => {
                    partition_map_insert(&mut transactors_by_key, key.clone(), i as u64);
                    let ghost after_map = partition_map_contents(transactors_by_key);
                    assert forall|k: Seq<char>| #[trigger] after_map.contains_key(k)
                        implies !vacant_spots@.contains(after_map[k]) by {
                        if k != key@ {
                            assert(before_map.contains_key(k));
                        } else {
                            if vacant_spots@.contains(i as u64) {
                                let j = choose|j: int|
                                    0 <= j < vacant_spots@.len() && vacant_spots@[j] == i as u64;
                                assert(vacant_spots@[j] < i);
                            }
                        }
                    }
                    assert forall|k1: Seq<char>, k2: Seq<char>|
                        after_map.contains_key(k1) && after_map.contains_key(k2) && k1 != k2
                        implies #[trigger] after_map[k1] != #[trigger] after_map[k2] by {
                        if k1 != key@ && k2 != key@ {
                            assert(before_map[k1] != before_map[k2]);
                        } else if k1 == key@ {
                            assert(before_map.contains_key(k2));
                        } else {
                            assert(before_map.contains_key(k1));
                        }
                    }
                },
            }
            i = i + 1;
        }
        assert(states.take(n as int) == states);
        Tenken { transactors_by_key, vacant_spots }
    }

    /// The number of vacant partitions.
    pub fn vacant_count(&self) -> (r: usize)
        ensures
            r == self.spec_vacant().len(),
    {
        self.vacant_spots.len()
    }

    /// The partition that holds the probe `key`, if any.
    pub fn get(&self, key: String) -> (r: Option<u64>)
        ensures
            r == if self.spec_by_key().contains_key(key@) {
                Some(self.spec_by_key()[key@])
            } else {
                None::<u64>
            },
    {
        partition_map_get(&self.transactors_by_key, &key)
    }

    /// Routes a write of `value` for the probe `key`: to the probe's
    /// partition, or to the first vacant one, which the probe then owns; the
    /// result is the partition and the request to send it, or `None` where
    /// the probe has no partition and none is vacant (the write is dropped).
    pub fn put(&mut self, key: String, value: String) -> (r: Option<(u64, WriteRequested)>)
        requires
            old(self).wf(),
        ensures
            final(self).wf(),
            final(self).spec_by_key() == by_key_after_put(
                old(self).spec_by_key(),
                old(self).spec_vacant(),
                key@,
            ),
            final(self).spec_vacant() == vacant_after_put(
                old(self).spec_by_key(),
                old(self).spec_vacant(),
                key@,
            ),
            match r {
                Some((p, msg)) => put_target(
                    old(self).spec_by_key(),
                    old(self).spec_vacant(),
                    key@,
                ) == Some(p) && msg.key@ == key@ && msg.value@ == value@,
                None => put_target(old(self).spec_by_key(), old(self).spec_vacant(), key@) is None,
            },
    {
        proof {
            lemma_put_keeps_wf(self.spec_by_key(), self.spec_vacant(), key@);
        }
        match partition_map_get(&self.transactors_by_key, &key) {
            None => match self.vacant_spots.pop_front() {
                None => None,
                Some(p) => {
                    partition_map_insert(&mut self.transactors_by_key, key.clone(), p);
                    Some((p, WriteRequested { key, value }))
                },
            },
            Some(p) => Some((p, WriteRequested { key, value })),
        }
    }
}

/// Every write keeps an index well-formed.
pub proof fn lemma_put_keeps_wf(by_key: Map<Seq<char>, u64>, vacant: Seq<u64>, key: Seq<char>)
    requires
        index_wf(by_key, vacant),
    ensures
        index_wf(
            by_key_after_put(by_key, vacant, key),
            vacant_after_put(by_key, vacant, key),
        ),
{
    if !by_key.contains_key(key) && vacant.len() > 0 {
        let p = vacant[0];
        let m = by_key.insert(key, p);
        let v = vacant.drop_first();
        assert forall|j: int, l: int| 0 <= j < v.len() && 0 <= l < v.len() && j != l implies v[j]
            != v[l] by {
            assert(vacant[j + 1] != vacant[l + 1]);
        }
        assert forall|k: Seq<char>| #[trigger] m.contains_key(k) implies !v.contains(m[k]) by {
            if v.contains(m[k]) {
                let j = choose|j: int| 0 <= j < v.len() && v[j] == m[k];
                assert(vacant[j + 1] == m[k]);
                if k == key {
                    assert(vacant[0] == vacant[j + 1]);
                } else {
                    assert(vacant.contains(by_key[k]));
                }
            }
        }
        assert forall|k1: Seq<char>, k2: Seq<char>|
            m.contains_key(k1) && m.contains_key(k2) && k1 != k2 implies #[trigger] m[k1]
            != #[trigger] m[k2] by {
            if k1 != key && k2 != key {
                assert(by_key[k1] != by_key[k2]);
            } else if k1 == key {
                assert(vacant.contains(p));
                assert(by_key.contains_key(k2));
            } else {
                assert(vacant.contains(p));
                assert(by_key.contains_key(k1));
            }
        }
    }
}

/// Read after write: once a write for `key` has been routed to a partition,
/// the index answers `key` with that partition.
pub proof fn lemma_put_then_get(by_key: Map<Seq<char>, u64>, vacant: Seq<u64>, key: Seq<char>)
    requires
        put_target(by_key, vacant, key) is Some,
    ensures
        by_key_after_put(by_key, vacant, key).contains_key(key),
        by_key_after_put(by_key, vacant, key)[key] == put_target(by_key, vacant, key).unwrap(),
{
}

/// A probe keeps its partition: no write, for it or for any other probe,
/// moves it elsewhere.
pub proof fn lemma_partition_is_kept(
    by_key: Map<Seq<char>, u64>,
    vacant: Seq<u64>,
    key: Seq<char>,
    probe: Seq<char>,
)
    requires
        by_key.contains_key(probe),
    ensures
        by_key_after_put(by_key, vacant, key).contains_key(probe),
        by_key_after_put(by_key, vacant, key)[probe] == by_key[probe],
        put_target(by_key, vacant, probe) == Some(by_key[probe]),
{
}

/// When the database is full, a write for a new probe is dropped and the
/// index is unchanged.
pub proof fn lemma_full_index_drops_new_probe(
    by_key: Map<Seq<char>, u64>,
    vacant: Seq<u64>,
    key: Seq<char>,
)
    requires
        !by_key.contains_key(key),
        vacant.len() == 0,
    ensures
        put_target(by_key, vacant, key) is None,
        by_key_after_put(by_key, vacant, key) == by_key,
        vacant_after_put(by_key, vacant, key) == vacant,
{
}

/// A write never creates or loses a partition: the assigned and the vacant
/// partitions together stay as many as before.
pub proof fn lemma_put_conserves_partitions(
    by_key: Map<Seq<char>, u64>,
    vacant: Seq<u64>,
    key: Seq<char>,
)
    requires
        index_wf(by_key, vacant),
    ensures
        by_key_after_put(by_key, vacant, key).dom().len() + vacant_after_put(
            by_key,
            vacant,
            key,
        ).len() == by_key.dom().len() + vacant.len(),
{
    if !by_key.contains_key(key) && vacant.len() > 0 {
        assert(by_key.insert(key, vacant[0]).dom() == by_key.dom().insert(key));
    }
}

/// At start-up, a partition is vacant exactly when its owner holds nothing.
pub proof fn lemma_vacant_of_states(states: Seq<Option<(Seq<char>, u64)>>, i: int)
    requires
        0 <= i < states.len(),
        states.len() <= u64::MAX + 1,
    ensures
        vacant_of_states(states).contains(i as u64) <==> states[i] is None,
    decreases states.len(),
{
    let n = states.len() as int;
    let before = states.drop_last();
    lemma_vacant_of_states_bound(before);
    if i < n - 1 {
        lemma_vacant_of_states(before, i);
        assert(before[i] == states[i]);
        match states.last() {
            Some(_) => {},
            None => {
                let v = vacant_of_states(before).push((n - 1) as u64);
                if v.contains(i as u64) {
                    let j = choose|j: int| 0 <= j < v.len() && v[j] == i as u64;
                    if j < v.len() - 1 {
                        assert(vacant_of_states(before).contains(i as u64));
                    }
                }
                if vacant_of_states(before).contains(i as u64) {
                    let j = choose|j: int|
                        0 <= j < vacant_of_states(before).len() && vacant_of_states(before)[j]
                            == i as u64;
                    assert(v[j] == i as u64);
                }
            },
        }
    } else {
        match states.last() {
            Some(_) => {
                if vacant_of_states(before).contains(i as u64) {
                    let j = choose|j: int|
                        0 <= j < vacant_of_states(before).len() && vacant_of_states(before)[j]
                            == i as u64;
                    assert(vacant_of_states(before)[j] < n - 1);
                }
            },
            None => {
                let v = vacant_of_states(before).push((n - 1) as u64);
                assert(v[v.len() - 1] == i as u64);
            },
        }
    }
}

proof fn lemma_vacant_of_states_bound(states: Seq<Option<(Seq<char>, u64)>>)
    requires
        states.len() <= u64::MAX + 1,
    ensures
        forall|j: int|
            0 <= j < vacant_of_states(states).len() ==> #[trigger] vacant_of_states(states)[j]
                < states.len(),
    decreases states.len(),
{
    if states.len() > 0 {
        let before = states.drop_last();
        lemma_vacant_of_states_bound(before);
        let v = vacant_of_states(states);
        assert forall|j: int| 0 <= j < v.len() implies #[trigger] v[j] < states.len() by {
            if j < vacant_of_states(before).len() {
                assert(v[j] == vacant_of_states(before)[j]);
            }
        }
    }
}

/// At start-up, a probe is indexed exactly when some partition's owner holds
/// it, and it is indexed at a partition whose owner holds it.
pub proof fn lemma_by_key_of_states(states: Seq<Option<(Seq<char>, u64)>>, key: Seq<char>)
    requires
        states.len() <= u64::MAX + 1,
    ensures
        by_key_of_states(states).contains_key(key) <==> exists|i: int|
            0 <= i < states.len() && holds_key(#[trigger] states[i], key),
        by_key_of_states(states).contains_key(key) ==> {
            let p = by_key_of_states(states)[key] as int;
            &&& 0 <= p < states.len()
            &&& holds_key(states[p], key)
        },
    decreases states.len(),
{
    if states.len() > 0 {
        let before = states.drop_last();
        let n = states.len() as int;
        lemma_by_key_of_states(before, key);
        if by_key_of_states(before).contains_key(key) {
            let i = choose|i: int|
                0 <= i < before.len() && holds_key(#[trigger] before[i], key);
            assert(states[i] == before[i]);
        }
        if exists|i: int| 0 <= i < states.len() && holds_key(#[trigger] states[i], key) {
            let i = choose|i: int|
                0 <= i < states.len() && holds_key(#[trigger] states[i], key);
            if i < n - 1 {
                assert(before[i] == states[i]);
            }
        }
        if by_key_of_states(before).contains_key(key) {
            let p = by_key_of_states(before)[key] as int;
            assert(before[p] == states[p]);
        }
    }
}

/// From a routed write to a read: once a write for `key` is routed to a
/// partition, the index answers `key` with that partition; and once the
/// partition's owner has accepted the payload and its write is applied to a
/// partition that agrees with the owner, the partition reads back the key,
/// the timestamp and the payload.
pub proof fn lemma_routed_write_reads_back(
    by_key: Map<Seq<char>, u64>,
    vacant: Seq<u64>,
    key: Seq<char>,
    image: Seq<u8>,
    state: Option<(Seq<char>, u64)>,
    key_size: Option<u8>,
    timestamp: u64,
    value: Seq<char>,
)
    requires
        put_target(by_key, vacant, key) is Some,
        image.len() == PARTITION_SIZE,
        partition_agrees(image, state, key_size),
        store_accepts(state, key, timestamp),
        key_fits(key),
        value_fits_after_key(encode_utf8(key).len() as int, value),
    ensures
        by_key_after_put(by_key, vacant, key).contains_key(key),
        by_key_after_put(by_key, vacant, key)[key] == put_target(by_key, vacant, key).unwrap(),
        ({
            let (at, data) = planned_write(state, key_size, key, timestamp, value);
            let after = apply_write(image, at, data);
            &&& decode_preface(after) == Some((key, timestamp))
            &&& decode_value(after, encode_utf8(key).len() as int) == Some(value)
        }),
{
    lemma_put_then_get(by_key, vacant, key);
    lemma_accepted_store_reads_back(image, state, key_size, key, timestamp, value);
}

/// Whether no two owners' states hold the same key.
pub open spec fn distinct_keys(states: Seq<Option<(Seq<char>, u64)>>) -> bool {
    forall|i: int, j: int|
        #![trigger states[i], states[j]]
        0 <= i < j < states.len() && states[i] is Some && states[j] is Some ==> states[i].unwrap().0
            != states[j].unwrap().0
}

/// At start-up, when no two partitions hold the same key, every partition is
/// accounted for once: the indexed probes and the vacant partitions together
/// number exactly the partitions.
pub proof fn lemma_startup_accounts_for_partitions(states: Seq<Option<(Seq<char>, u64)>>)
    requires
        states.len() <= u64::MAX + 1,
        distinct_keys(states),
    ensures
        by_key_of_states(states).dom().finite(),
        by_key_of_states(states).dom().len() + vacant_of_states(states).len() == states.len(),
    decreases states.len(),
{
    if states.len() > 0 {
        let n = states.len() as int;
        let before = states.drop_last();
        assert forall|i: int, j: int|
            0 <= i < j < before.len() && before[i] is Some && before[j] is Some implies #[trigger] before[i].unwrap().0
            != #[trigger] before[j].unwrap().0 by {
            assert(before[i] == states[i] && before[j] == states[j]);
        }
        lemma_startup_accounts_for_partitions(before);
        match states.last() {
            Some((k, t)) => {
                lemma_by_key_of_states(before, k);
                if by_key_of_states(before).contains_key(k) {
                    let i = choose|i: int| 0 <= i < before.len() && holds_key(#[trigger] before[i], k);
                    assert(before[i] == states[i]);
                    assert(states[n - 1] == Some((k, t)));
                    assert(states[i].unwrap().0 != states[n - 1].unwrap().0);
                }
                assert(by_key_of_states(states).dom() == by_key_of_states(before).dom().insert(k));
            },
            None => {},
        }
    }
}

} // verus!
