use frozen_map::decide::{
    count_decision, dead_decision, flag_decision, live_decision, revive_decision, show_decision,
    CountStep,
};
use frozen_map::{
    AtomicNoKeys, AtomicStore, AtomicWithKeys, Bits, ErrorKind, KeyStorage, NoKeys, Store,
    SyncStore, ValueStruct, WithKeys,
};

#[test]
fn bits_repeat_get_set() {
    let mut bits = Bits::repeat(false, 70).unwrap();
    assert_eq!(bits.len(), 70);
    assert_eq!(bits.get(0), Some(false));
    assert_eq!(bits.get(69), Some(false));
    assert_eq!(bits.get(70), None);
    assert!(bits.set(65, true));
    assert_eq!(bits.get(65), Some(true));
    assert_eq!(bits.get(64), Some(false));
    assert_eq!(bits.get(66), Some(false));
    assert!(bits.set(65, false));
    assert_eq!(bits.get(65), Some(false));
    assert!(!bits.set(70, true));
    assert_eq!(bits.len(), 70);
    let ones = Bits::repeat(true, 3).unwrap();
    assert_eq!(ones.get(0), Some(true));
    assert_eq!(ones.get(2), Some(true));
    assert_eq!(Bits::repeat(true, 0).unwrap().len(), 0);
}

#[test]
fn bits_repeat_refuses_what_cannot_be_held() {
    assert!(Bits::repeat(false, usize::MAX).is_none());
    assert!(Bits::repeat(false, usize::MAX / 8 + 1).is_none());
}

#[test]
fn sync_store_update_get_remove() {
    let present = Bits::repeat(false, 3).unwrap();
    let mut store: SyncStore<String> = SyncStore::new(vec![None, None, None], present);
    assert_eq!(store.len(), 3);
    assert_eq!(store.get_value(1), None);
    store.update(1, "one".to_string());
    assert_eq!(store.get_value(1), Some(&"one".to_string()));
    assert_eq!(store.get_value(0), None);
    store.update(1, "uno".to_string());
    assert_eq!(store.get_value(1), Some(&"uno".to_string()));
    store.remove_value(1);
    assert_eq!(store.get_value(1), None);
    store.remove_value(1);
    assert_eq!(store.get_value(1), None);
}

#[test]
fn sync_store_adopts_present_bits() {
    let mut present = Bits::repeat(false, 3).unwrap();
    assert!(present.set(0, true));
    assert!(present.set(2, true));
    let mut store: Store<u8> = Store::new(vec![Some(5), None, Some(7)], present);
    assert_eq!(store.get_value(0), Some(&5));
    assert_eq!(store.get_value(1), None);
    assert_eq!(store.get_value(2), Some(&7));
    assert_eq!(store.get_values(), vec![Some(5), None, Some(7)]);
    match store.get_mut_value(2) {
        Some(value) => *value = 8,
        None => panic!("slot 2 is present"),
    }
    assert!(store.get_mut_value(1).is_none());
    assert_eq!(store.get_values(), vec![Some(5), None, Some(8)]);
}

#[test]
fn sync_store_hides_a_slot_whose_bit_is_clear() {
    let present = Bits::repeat(false, 2).unwrap();
    let store: SyncStore<u8> = SyncStore::new(vec![Some(1), None], present);
    assert_eq!(store.get_value(0), None);
    assert_eq!(store.get_values(), vec![None, None]);
}

#[test]
fn value_struct_adopts_slots() {
    let _slots: ValueStruct<u8> = ValueStruct::new(vec![Some(1), None]);
}

#[test]
fn atomic_store_update_get_remove() {
    let store: AtomicStore<u32> = AtomicStore::new(3);
    assert_eq!(store.len(), 3);
    assert!(store.get_value(0).is_none());
    store.update(0, 11);
    assert_eq!(store.get_value(0).map(|share| *share), Some(11));
    assert!(store.get_value(1).is_none());
    store.update(0, 12);
    assert_eq!(store.get_value(0).map(|share| *share), Some(12));
    store.remove_value(0);
    assert!(store.get_value(0).is_none());
    store.remove_value(0);
    assert!(store.get_value(0).is_none());
    assert_eq!(AtomicStore::<u32>::new(0).len(), 0);
}

#[test]
fn no_keys_counts_what_is_alive() {
    let mut storage = NoKeys::new(5);
    assert_eq!(storage.len(), 5);
    assert!(!storage.dead_key(3));
    storage.kill(3);
    assert!(storage.dead_key(3));
    assert_eq!(storage.len(), 4);
    storage.kill(3);
    assert_eq!(storage.len(), 4);
    storage.rehydrate(3);
    assert!(!storage.dead_key(3));
    assert_eq!(storage.len(), 5);
    storage.rehydrate(3);
    assert_eq!(storage.len(), 5);
    assert_eq!(NoKeys::new(0).len(), 0);
}

#[test]
fn with_keys_keeps_keys_and_counts() {
    let mut storage = WithKeys::new(vec!["x".to_string(), "y".to_string()]);
    assert_eq!(storage.len(), 2);
    assert_eq!(storage.get(0), "x");
    assert_eq!(storage.get(1), "y");
    storage.kill(0);
    assert!(storage.dead_key(0));
    assert!(!storage.dead_key(1));
    assert_eq!(storage.get(0), "x");
    assert_eq!(storage.len(), 1);
    storage.rehydrate(0);
    assert_eq!(storage.len(), 2);
}

#[test]
fn atomic_key_storage_counts_flips_only() {
    let storage = AtomicNoKeys::new(4);
    assert_eq!(storage.len(), 4);
    storage.kill(2);
    storage.kill(2);
    assert!(storage.dead_key(2));
    assert_eq!(storage.len(), 3);
    storage.rehydrate(2);
    storage.rehydrate(2);
    assert!(!storage.dead_key(2));
    assert_eq!(storage.len(), 4);
    let keyed = AtomicWithKeys::new(vec!["p".to_string(), "q".to_string()]);
    assert_eq!(keyed.get(1), "q");
    assert_eq!(keyed.len(), 2);
    keyed.kill(1);
    keyed.kill(1);
    assert!(keyed.dead_key(1));
    assert!(!keyed.dead_key(0));
    assert_eq!(keyed.len(), 1);
    keyed.rehydrate(1);
    assert_eq!(keyed.len(), 2);
}

#[test]
fn decisions_report_the_slot_first() {
    assert_eq!(live_decision(true, true), Err(ErrorKind::KeyDead));
    assert_eq!(live_decision(true, false), Err(ErrorKind::KeyDead));
    assert_eq!(live_decision(false, false), Err(ErrorKind::KeyUnknown));
    assert_eq!(live_decision(false, true), Ok(()));
    assert_eq!(revive_decision(false, true), Err(ErrorKind::KeyAlive));
    assert_eq!(revive_decision(false, false), Err(ErrorKind::KeyAlive));
    assert_eq!(revive_decision(true, false), Err(ErrorKind::KeyUnknown));
    assert_eq!(revive_decision(true, true), Ok(()));
}

#[test]
fn the_count_follows_only_a_flag_that_changes() {
    assert!(!flag_decision(true));
    assert!(flag_decision(false));
    assert!(dead_decision(flag_decision(true)));
    assert!(!dead_decision(flag_decision(false)));
    assert_eq!(count_decision(true, false), CountStep::Down);
    assert_eq!(count_decision(false, true), CountStep::Up);
    assert_eq!(count_decision(true, true), CountStep::Stay);
    assert_eq!(count_decision(false, false), CountStep::Stay);
}

#[test]
fn a_slot_is_shown_only_alive_and_under_its_key() {
    assert!(dead_decision(false));
    assert!(!dead_decision(true));
    assert!(show_decision(false, true));
    assert!(!show_decision(false, false));
    assert!(!show_decision(true, true));
    assert!(!show_decision(true, false));
}

fn slot_ordered(keys: &[String], function: &ph::fmph::Function) -> Vec<String> {
    let mut sorted = vec![String::new(); keys.len()];
    for key in keys {
        let slot = function.get(key).unwrap() as usize;
        assert!(sorted[slot].is_empty());
        sorted[slot] = key.clone();
    }
    sorted
}

#[test]
fn frozen_index_finds_slots_and_keys() {
    let keys: Vec<String> = (0..100u32).map(|n| format!("entry-{}", n)).collect();
    let function = ph::fmph::Function::from(&keys[..]);
    let sorted = slot_ordered(&keys, &function);
    let mut index = frozen_map::VerifiedIndex::new(function, WithKeys::new(sorted.clone()));
    assert_eq!(index.len(), 100);
    assert_eq!(index.capacity(), 100);
    for (slot, key) in sorted.iter().enumerate() {
        assert_eq!(index.get_index(key), slot);
        assert_eq!(index.find(key), Some(slot));
        assert_eq!(index.key(slot), key);
        assert!(index.contains_key(key));
        assert!(!index.dead_key(slot));
    }
    for n in 0..1000u32 {
        let stranger = format!("stranger-{}", n);
        assert!(!index.contains_key(&stranger));
        let slot = index.get_index(&stranger);
        assert!(slot < 100);
        assert_eq!(index.get_index(&stranger.clone()), slot);
        assert_eq!(index.find(&stranger), Some(slot));
    }
    let slot = index.get_index(&keys[5]);
    index.kill(slot);
    assert!(index.dead_key(slot));
    assert!(!index.contains_key(&keys[5]));
    assert_eq!(index.len(), 99);
    index.rehydrate(slot);
    assert!(index.contains_key(&keys[5]));
    assert_eq!(index.len(), 100);
}

#[test]
fn unverified_index_has_slots_and_no_keys() {
    let keys: Vec<String> = (0..10u32).map(|n| format!("entry-{}", n)).collect();
    let function = ph::fmph::Function::from(&keys[..]);
    let mut index: frozen_map::UnverifiedIndex = frozen_map::FrozenIndex::new(function, NoKeys::new(10));
    let mut seen = vec![false; 10];
    for key in keys.iter() {
        let slot = index.get_index(key);
        assert!(!seen[slot]);
        seen[slot] = true;
    }
    assert!(seen.iter().all(|hit| *hit));
    index.kill(0);
    index.kill(0);
    assert_eq!(index.len(), 9);
}

#[test]
fn with_keys_from_filled_slots_keeps_slot_order() {
    let slots = vec![Some("x".to_string()), Some("y".to_string()), Some("z".to_string())];
    let mut storage = WithKeys::new_from_uninit(slots);
    assert_eq!(storage.len(), 3);
    assert_eq!(storage.get(0), "x");
    assert_eq!(storage.get(1), "y");
    assert_eq!(storage.get(2), "z");
    assert!(!storage.dead_key(1));
    storage.kill(1);
    assert_eq!(storage.len(), 2);
    assert_eq!(WithKeys::new_from_uninit(Vec::new()).len(), 0);
}

#[test]
fn an_index_over_no_keys_has_no_slot() {
    let keys: Vec<String> = Vec::new();
    let function = ph::fmph::Function::from(&keys[..]);
    let index = frozen_map::VerifiedIndex::new(function, WithKeys::new(Vec::new()));
    assert_eq!(index.capacity(), 0);
    assert_eq!(index.len(), 0);
    assert_eq!(index.find(&"x".to_string()), None);
    assert!(!index.contains_key(&"x".to_string()));
}
