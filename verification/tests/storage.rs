use richat_storage::storage::{read_slots, total_size, SlotIndexValue, SlotMeta};
use std::collections::BTreeMap;

#[test]
fn read_slots_maps_every_slot() {
    let mut catalog = BTreeMap::new();
    catalog.insert(10u64, SlotMeta { finalized: true, first_index: 100 });
    catalog.insert(11u64, SlotMeta { finalized: false, first_index: 150 });
    catalog.insert(13u64, SlotMeta { finalized: false, first_index: 151 });
    let slots = read_slots(&catalog);
    let got: Vec<(u64, bool, u64)> =
        slots.iter().map(|(slot, SlotIndexValue { finalized, head })| (*slot, *finalized, *head)).collect();
    assert_eq!(got, vec![(10, true, 100), (11, false, 150), (13, false, 151)]);
}

#[test]
fn read_slots_of_empty_catalog() {
    let catalog: BTreeMap<u64, SlotMeta> = BTreeMap::new();
    assert!(read_slots(&catalog).is_empty());
}

#[test]
fn total_size_sums() {
    assert_eq!(total_size(&[]), Some(0));
    assert_eq!(total_size(&[1, 2, 3]), Some(6));
    assert_eq!(total_size(&[4096, 0, 512, 1 << 40]), Some(4096 + 512 + (1 << 40)));
    assert_eq!(total_size(&[u64::MAX]), Some(u64::MAX));
    assert_eq!(total_size(&[u64::MAX - 1, 1]), Some(u64::MAX));
}

#[test]
fn total_size_overflow() {
    assert_eq!(total_size(&[u64::MAX, 1]), None);
    assert_eq!(total_size(&[1 << 63, 1 << 63]), None);
    assert_eq!(total_size(&[1 << 63, 1 << 62, 1 << 62, 0]), None);
}
