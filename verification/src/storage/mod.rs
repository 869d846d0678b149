//! What storage tells the rest of the service: the index at which the replay
//! of each retained slot starts, and the size on disk.
pub mod replay;
pub mod replay_state;

use vstd::prelude::*;
use solana_clock::Slot;
use std::collections::BTreeMap;
use vstd::std_specs::iter::IteratorSpec;

verus! {

/// Replay start metadata exposed for each retained slot.
#[derive(Debug, Clone, Copy)]
pub struct SlotIndexValue {
    pub finalized: bool,
    pub head: u64,
}

/// What the storage catalog records of a retained slot: whether it is
/// finalized and the storage index of its first message.
#[derive(Debug, Clone, Copy)]
pub struct SlotMeta {
    pub finalized: bool,
    pub first_index: u64,
}

impl SlotMeta {
    /// Where a replay of this slot starts.
    pub open spec fn index_value(self) -> SlotIndexValue {
        SlotIndexValue { finalized: self.finalized, head: self.first_index }
    }
}

/// The replay start of every slot in the catalog, keyed by slot.
pub fn read_slots(catalog: &BTreeMap<Slot, SlotMeta>) -> (r: BTreeMap<Slot, SlotIndexValue>)
    ensures
        r@ == catalog@.map_values(|meta: SlotMeta| meta.index_value()),
{
    let mut out: BTreeMap<Slot, SlotIndexValue> = BTreeMap::new();
    for entry in it: catalog.iter()
        invariant
            it.seq() == vstd::std_specs::btree::spec_btree_map_iter(catalog).remaining(),
            forall|j: int|
                0 <= j < it.index() ==> out@.contains_key(*(#[trigger] it.seq()[j]).0),
            forall|k: Slot|
                #[trigger] out@.contains_key(k) ==> catalog@.contains_key(k) && out@[k]
                    == catalog@[k].index_value(),
    {
        let (slot, meta) = entry;
        out.insert(*slot, SlotIndexValue { finalized: meta.finalized, head: meta.first_index });
    }
    assert(out@ =~= catalog@.map_values(|meta: SlotMeta| meta.index_value()));
    out
}

/// The sum of `sizes`.
pub open spec fn sum_sizes(sizes: Seq<u64>) -> nat
    decreases sizes.len(),
{
    if sizes.len() == 0 {
        0
    } else {
        sum_sizes(sizes.drop_last()) + sizes.last() as nat
    }
}

/// The total of `sizes` in bytes (the files of a directory and the totals of
/// its subdirectories, or the sizes of the metadata and the segments), or
/// `None` when it does not fit in a `u64`.
pub fn total_size(sizes: &[u64]) -> (r: Option<u64>)
    ensures
        r == (if sum_sizes(sizes@) <= u64::MAX {
            Some(sum_sizes(sizes@) as u64)
        } else {
            None::<u64>
        }),
{
    let mut total: u64 = 0;
    let mut i: usize = 0;
    while i < sizes.len()
        invariant
            i <= sizes@.len(),
            total == sum_sizes(sizes@.take(i as int)),
        decreases sizes@.len() - i,
    {
        assert(sizes@.take(i + 1).drop_last() =~= sizes@.take(i as int));
        match total.checked_add(sizes[i]) {
            Some(t) => {
                total = t;
            },
            None => {
                proof {
                    lemma_sum_sizes_prefix(sizes@, i + 1);
                }
                return None;
            },
        }
        i = i + 1;
    }
    assert(sizes@.take(sizes@.len() as int) =~= sizes@);
    Some(total)
}

/// A prefix of the sizes never sums to more than all of them.
proof fn lemma_sum_sizes_prefix(sizes: Seq<u64>, n: int)
    requires
        0 <= n <= sizes.len(),
    ensures
        sum_sizes(sizes.take(n)) <= sum_sizes(sizes),
    decreases sizes.len() - n,
{
    if n < sizes.len() {
        lemma_sum_sizes_prefix(sizes, n + 1);
        assert(sizes.take(n + 1).drop_last() =~= sizes.take(n));
    } else {
        assert(sizes.take(n) =~= sizes);
    }
}

/// The total counts every size once: nothing for no size, a size added at
/// the end adds exactly itself, and the total of two lists is the sum of
/// their totals; no size is ever left out of it.
pub proof fn lemma_sum_sizes_adds_each_once(sizes: Seq<u64>, more: Seq<u64>, x: u64)
    ensures
        sum_sizes(Seq::<u64>::empty()) == 0,
        sum_sizes(sizes.push(x)) == sum_sizes(sizes) + x,
        sum_sizes(sizes + more) == sum_sizes(sizes) + sum_sizes(more),
        forall|i: int| 0 <= i < sizes.len() ==> sizes[i] <= sum_sizes(sizes),
    decreases more.len(),
{
    assert(sizes.push(x).drop_last() =~= sizes);
    if more.len() == 0 {
        assert(sizes + more =~= sizes);
    } else {
        lemma_sum_sizes_adds_each_once(sizes, more.drop_last(), x);
        assert((sizes + more).drop_last() =~= sizes + more.drop_last());
    }
    assert forall|i: int| 0 <= i < sizes.len() implies sizes[i] <= sum_sizes(sizes) by {
        lemma_sum_sizes_split(sizes, i);
    }
}

proof fn lemma_sum_sizes_split(sizes: Seq<u64>, i: int)
    requires
        0 <= i < sizes.len(),
    ensures
        sizes[i] <= sum_sizes(sizes),
    decreases sizes.len(),
{
    if i < sizes.len() - 1 {
        lemma_sum_sizes_split(sizes.drop_last(), i);
    }
}

} // verus!
