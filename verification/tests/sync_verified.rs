use frozen_map::{ErrorKind, FrozenMap, SyncVerifiedFrozenMap};
use std::cell::Cell;
use std::rc::Rc;

fn key(text: &str) -> String {
    text.to_string()
}

fn greek() -> Vec<String> {
    vec![key("gamma"), key("delta"), key("void"), key("bump")]
}

#[test]
fn upsert_then_get_and_contains() {
    let mut map: FrozenMap<u32> = FrozenMap::from_vec(greek()).unwrap();
    assert_eq!(map.upsert(key("gamma"), 0), Ok(()));
    assert_eq!(map.get(&key("gamma")), Some(&0));
    assert!(map.contains(&key("gamma")));
    assert_eq!(map.len(), 4);
}

#[test]
fn fresh_map_has_keys_and_no_values() {
    let map: FrozenMap<u32> = FrozenMap::from_vec(greek()).unwrap();
    for name in greek() {
        assert!(map.contains(&name));
        assert_eq!(map.get(&name), None);
        assert!(!map.contains_value(&name));
    }
    assert_eq!(map.len(), 4);
    assert!(map.iter().is_empty());
}

#[test]
fn drop_value_then_upsert_again() {
    let mut map: FrozenMap<u32> = FrozenMap::from_vec(greek()).unwrap();
    assert_eq!(map.upsert(key("gamma"), 0), Ok(()));
    assert_eq!(map.drop_value(&key("gamma")), Ok(()));
    assert_eq!(map.get(&key("gamma")), None);
    assert!(!map.contains_value(&key("gamma")));
    assert!(map.contains(&key("gamma")));
    assert_eq!(map.upsert(key("gamma"), 4), Ok(()));
    assert_eq!(map.get(&key("gamma")), Some(&4));
    assert!(map.contains_value(&key("gamma")));
}

#[test]
fn reap_hides_and_rehydrate_restores() {
    let mut map: FrozenMap<u32> = FrozenMap::from_vec(greek()).unwrap();
    assert_eq!(map.upsert(key("gamma"), 4), Ok(()));
    assert_eq!(map.upsert(key("delta"), 7), Ok(()));
    assert_eq!(map.reap_key(&key("gamma")), Ok(()));
    assert_eq!(map.get(&key("gamma")), None);
    assert!(!map.contains(&key("gamma")));
    assert_eq!(map.len(), 3);
    let entries = map.iter();
    assert_eq!(entries, vec![(key("delta"), 7)]);
    let mut keys = map.iter_keys();
    keys.sort();
    assert_eq!(keys, vec![key("bump"), key("delta"), key("gamma"), key("void")]);
    assert_eq!(map.rehydrate_key(&key("gamma")), Ok(()));
    assert_eq!(map.get(&key("gamma")), Some(&4));
    assert_eq!(map.len(), 4);
    let mut entries = map.iter();
    entries.sort();
    assert_eq!(entries, vec![(key("delta"), 7), (key("gamma"), 4)]);
}

#[test]
fn rehydrated_key_without_value_stays_out_of_iter() {
    let mut map: FrozenMap<u32> = FrozenMap::from_vec(greek()).unwrap();
    assert_eq!(map.reap_key(&key("void")), Ok(()));
    assert_eq!(map.rehydrate_key(&key("void")), Ok(()));
    assert!(map.iter().is_empty());
    assert_eq!(map.upsert(key("void"), 1), Ok(()));
    assert_eq!(map.iter(), vec![(key("void"), 1)]);
}

#[test]
fn unsafe_init_scatters_values() {
    let keys = vec![key("a"), key("b"), key("c")];
    let map: SyncVerifiedFrozenMap<u32> = FrozenMap::unsafe_init(keys, vec![10, 20, 30]).unwrap();
    assert_eq!(map.get(&key("b")), Some(&20));
    assert_eq!(map.get(&key("a")), Some(&10));
    assert_eq!(map.get(&key("c")), Some(&30));
    assert_eq!(map.len(), 3);
    let mut entries = map.iter();
    entries.sort();
    assert_eq!(entries, vec![(key("a"), 10), (key("b"), 20), (key("c"), 30)]);
}

#[test]
fn unsafe_init_refuses_unequal_lengths() {
    let built: Result<FrozenMap<u32>, ErrorKind> = FrozenMap::unsafe_init(vec![key("a")], vec![1, 2]);
    assert!(matches!(built, Err(ErrorKind::LengthMismatch)));
}

#[test]
fn duplicate_keys_fail_the_build() {
    let built: Result<FrozenMap<u32>, ErrorKind> =
        FrozenMap::from_vec(vec![key("a"), key("b"), key("a")]);
    assert!(matches!(built, Err(ErrorKind::BuildFailed)));
    let built: Result<FrozenMap<u32>, ErrorKind> =
        FrozenMap::unsafe_init(vec![key("a"), key("a")], vec![1, 2]);
    assert!(matches!(built, Err(ErrorKind::BuildFailed)));
}

#[test]
fn missing_function_fails_the_build() {
    let built: Result<FrozenMap<u32>, ErrorKind> = FrozenMap::from_built(greek(), None);
    assert!(matches!(built, Err(ErrorKind::BuildFailed)));
    let built: Result<FrozenMap<u32>, ErrorKind> =
        FrozenMap::init_built(vec![key("a")], vec![1], None);
    assert!(matches!(built, Err(ErrorKind::BuildFailed)));
}

#[test]
fn empty_map_holds_nothing() {
    let mut map: FrozenMap<u32> = FrozenMap::from_vec(Vec::new()).unwrap();
    assert_eq!(map.len(), 0);
    assert_eq!(map.get(&key("x")), None);
    assert!(!map.contains(&key("x")));
    assert_eq!(map.upsert(key("x"), 1), Err(ErrorKind::KeyUnknown));
    assert!(map.iter_keys().is_empty());
}

#[test]
fn foreign_keys_are_rejected() {
    let mut map: FrozenMap<u32> = FrozenMap::from_vec(greek()).unwrap();
    for name in greek() {
        assert_eq!(map.upsert(name, 1), Ok(()));
    }
    for n in 0..200u32 {
        let stranger = format!("stranger-{}", n);
        assert_eq!(map.get(&stranger), None);
        assert!(!map.contains(&stranger));
        assert_eq!(map.upsert(stranger.clone(), 9), Err(ErrorKind::KeyUnknown));
        assert_eq!(map.drop_value(&stranger), Err(ErrorKind::KeyUnknown));
        assert_eq!(map.reap_key(&stranger), Err(ErrorKind::KeyUnknown));
        assert_eq!(map.rehydrate_key(&stranger), Err(ErrorKind::KeyAlive));
    }
    for name in greek() {
        assert_eq!(map.get(&name), Some(&1));
    }
    assert_eq!(map.len(), 4);
}

#[test]
fn reaping_twice_and_rehydrating_twice() {
    let mut map: FrozenMap<u32> = FrozenMap::from_vec(greek()).unwrap();
    assert_eq!(map.rehydrate_key(&key("bump")), Err(ErrorKind::KeyAlive));
    assert_eq!(map.reap_key(&key("bump")), Ok(()));
    assert_eq!(map.reap_key(&key("bump")), Err(ErrorKind::KeyDead));
    assert_eq!(map.upsert(key("bump"), 3), Err(ErrorKind::KeyDead));
    assert_eq!(map.get(&key("bump")), None);
    assert_eq!(map.len(), 3);
    assert_eq!(map.rehydrate_key(&key("bump")), Ok(()));
    assert_eq!(map.rehydrate_key(&key("bump")), Err(ErrorKind::KeyAlive));
    assert_eq!(map.len(), 4);
}

#[test]
fn drop_value_works_on_a_reaped_key() {
    let mut map: FrozenMap<u32> = FrozenMap::from_vec(greek()).unwrap();
    assert_eq!(map.upsert(key("delta"), 8), Ok(()));
    assert_eq!(map.reap_key(&key("delta")), Ok(()));
    assert!(map.contains_value(&key("delta")));
    assert_eq!(map.drop_value(&key("delta")), Ok(()));
    assert!(!map.contains_value(&key("delta")));
    assert_eq!(map.rehydrate_key(&key("delta")), Ok(()));
    assert_eq!(map.get(&key("delta")), None);
}

#[test]
fn overwrite_keeps_the_second_value() {
    let mut map: FrozenMap<u32> = FrozenMap::from_vec(greek()).unwrap();
    assert_eq!(map.upsert(key("void"), 1), Ok(()));
    assert_eq!(map.upsert(key("void"), 2), Ok(()));
    assert_eq!(map.get(&key("void")), Some(&2));
    assert_eq!(map.get(&key("gamma")), None);
}

#[test]
fn get_mut_changes_the_value_in_place() {
    let mut map: FrozenMap<u32> = FrozenMap::from_vec(greek()).unwrap();
    assert!(map.get_mut(&key("gamma")).is_none());
    assert_eq!(map.upsert(key("gamma"), 10), Ok(()));
    match map.get_mut(&key("gamma")) {
        Some(value) => *value += 5,
        None => panic!("the value was put"),
    }
    assert_eq!(map.get(&key("gamma")), Some(&15));
    assert!(map.get_mut(&key("stranger")).is_none());
    assert_eq!(map.reap_key(&key("gamma")), Ok(()));
    assert!(map.get_mut(&key("gamma")).is_none());
}

#[test]
fn len_counts_the_keys_alive() {
    let names: Vec<String> = (0..50u32).map(|n| format!("key-{}", n)).collect();
    let mut map: FrozenMap<u32> = FrozenMap::from_vec(names.clone()).unwrap();
    assert_eq!(map.len(), 50);
    for name in names.iter().take(20) {
        assert_eq!(map.reap_key(name), Ok(()));
    }
    assert_eq!(map.len(), 30);
    for name in names.iter().take(20) {
        assert_eq!(map.reap_key(name), Err(ErrorKind::KeyDead));
    }
    assert_eq!(map.len(), 30);
    for name in names.iter().take(5) {
        assert_eq!(map.rehydrate_key(name), Ok(()));
    }
    assert_eq!(map.len(), 35);
    for name in names.iter().skip(20) {
        assert_eq!(map.rehydrate_key(name), Err(ErrorKind::KeyAlive));
    }
    assert_eq!(map.len(), 35);
}

#[test]
fn every_key_gets_a_slot_of_its_own() {
    let names: Vec<String> = (0..5000u32).map(|n| format!("name/{}", n * 7)).collect();
    let values: Vec<u32> = (0..5000u32).collect();
    let map: FrozenMap<u32> = FrozenMap::unsafe_init(names.clone(), values).unwrap();
    assert_eq!(map.len(), 5000);
    for (position, name) in names.iter().enumerate() {
        assert_eq!(map.get(name), Some(&(position as u32)));
    }
    let mut in_slot_order = map.iter_keys();
    assert_eq!(in_slot_order.len(), 5000);
    in_slot_order.sort();
    let mut expected = names.clone();
    expected.sort();
    assert_eq!(in_slot_order, expected);
    assert_eq!(map.iter().len(), 5000);
}

struct Tally {
    drops: Rc<Cell<usize>>,
}

impl Drop for Tally {
    fn drop(&mut self) {
        self.drops.set(self.drops.get() + 1);
    }
}

#[test]
fn every_value_is_dropped_once() {
    let drops = Rc::new(Cell::new(0usize));
    let tally = || Tally { drops: drops.clone() };
    {
        let mut map: FrozenMap<Tally> = FrozenMap::from_vec(greek()).unwrap();
        assert!(map.upsert(key("gamma"), tally()).is_ok());
        assert_eq!(drops.get(), 0);
        assert!(map.upsert(key("gamma"), tally()).is_ok());
        assert_eq!(drops.get(), 1);
        assert!(map.upsert(key("delta"), tally()).is_ok());
        assert!(map.upsert(key("void"), tally()).is_ok());
        assert!(map.drop_value(&key("delta")).is_ok());
        assert_eq!(drops.get(), 2);
        assert!(map.drop_value(&key("delta")).is_ok());
        assert_eq!(drops.get(), 2);
        assert!(map.upsert(key("stranger"), tally()).is_err());
        assert_eq!(drops.get(), 3);
        assert!(map.reap_key(&key("void")).is_ok());
        assert_eq!(drops.get(), 3);
    }
    assert_eq!(drops.get(), 5);
}
