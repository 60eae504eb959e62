use frozen_map::{ErrorKind, SyncUnverifiedFrozenMap, UnsafeFrozenMap};

fn word(text: &str) -> String {
    text.to_string()
}

fn words() -> Vec<String> {
    vec![word("gamma"), word("delta"), word("void"), word("bump")]
}

#[test]
fn unverified_upsert_then_get() {
    let mut map: SyncUnverifiedFrozenMap<u32> = SyncUnverifiedFrozenMap::from_vec(words()).unwrap();
    assert_eq!(map.len(), 4);
    assert_eq!(map.get(&word("gamma")), None);
    assert_eq!(map.upsert(word("gamma"), 0), Ok(()));
    assert_eq!(map.get(&word("gamma")), Some(&0));
    assert!(map.contains_value(&word("gamma")));
    assert_eq!(map.get(&word("delta")), None);
    assert_eq!(map.upsert(word("gamma"), 3), Ok(()));
    assert_eq!(map.get(&word("gamma")), Some(&3));
}

#[test]
fn unverified_drop_value_then_upsert() {
    let mut map: SyncUnverifiedFrozenMap<u32> = SyncUnverifiedFrozenMap::from_vec(words()).unwrap();
    assert_eq!(map.upsert(word("gamma"), 0), Ok(()));
    map.drop_value(&word("gamma"));
    assert_eq!(map.get(&word("gamma")), None);
    assert!(!map.contains_value(&word("gamma")));
    map.drop_value(&word("gamma"));
    assert_eq!(map.upsert(word("gamma"), 4), Ok(()));
    assert_eq!(map.get(&word("gamma")), Some(&4));
}

#[test]
fn unverified_reap_and_rehydrate() {
    let mut map: UnsafeFrozenMap<u32> = UnsafeFrozenMap::from_vec(words()).unwrap();
    assert_eq!(map.upsert(word("gamma"), 4), Ok(()));
    assert_eq!(map.rehydrate_key(&word("gamma")), Err(ErrorKind::KeyAlive));
    assert_eq!(map.reap_key(&word("gamma")), Ok(()));
    assert_eq!(map.len(), 3);
    assert_eq!(map.get(&word("gamma")), None);
    assert_eq!(map.reap_key(&word("gamma")), Err(ErrorKind::KeyDead));
    assert_eq!(map.upsert(word("gamma"), 5), Err(ErrorKind::KeyDead));
    assert_eq!(map.rehydrate_key(&word("gamma")), Ok(()));
    assert_eq!(map.len(), 4);
    assert_eq!(map.get(&word("gamma")), Some(&4));
}

#[test]
fn unverified_unsafe_init_scatters_values() {
    let keys = vec![word("a"), word("b"), word("c")];
    let map: SyncUnverifiedFrozenMap<u32> =
        SyncUnverifiedFrozenMap::unsafe_init(keys, vec![10, 20, 30]).unwrap();
    assert_eq!(map.get(&word("b")), Some(&20));
    assert_eq!(map.get(&word("a")), Some(&10));
    assert_eq!(map.get(&word("c")), Some(&30));
    assert!(map.contains_value(&word("c")));
    assert_eq!(map.len(), 3);
}

#[test]
fn unverified_unsafe_init_refuses_unequal_lengths() {
    let built: Result<SyncUnverifiedFrozenMap<u32>, ErrorKind> =
        SyncUnverifiedFrozenMap::unsafe_init(vec![word("a")], vec![1, 2]);
    assert!(matches!(built, Err(ErrorKind::LengthMismatch)));
    let built: Result<SyncUnverifiedFrozenMap<u32>, ErrorKind> =
        SyncUnverifiedFrozenMap::unsafe_init(vec![word("a"), word("b")], vec![1]);
    assert!(matches!(built, Err(ErrorKind::LengthMismatch)));
}

#[test]
fn unverified_build_fails_on_duplicates_and_without_function() {
    let built: Result<SyncUnverifiedFrozenMap<u32>, ErrorKind> =
        SyncUnverifiedFrozenMap::from_vec(vec![word("a"), word("a")]);
    assert!(matches!(built, Err(ErrorKind::BuildFailed)));
    let built: Result<SyncUnverifiedFrozenMap<u32>, ErrorKind> =
        SyncUnverifiedFrozenMap::from_built(&words(), None);
    assert!(matches!(built, Err(ErrorKind::BuildFailed)));
    let built: Result<SyncUnverifiedFrozenMap<u32>, ErrorKind> =
        SyncUnverifiedFrozenMap::init_built(&vec![word("a")], vec![7], None);
    assert!(matches!(built, Err(ErrorKind::BuildFailed)));
}

#[test]
fn unverified_foreign_key_finds_nothing_or_a_stored_value() {
    let names: Vec<String> = (0..64u32).map(|n| format!("member-{}", n)).collect();
    let values: Vec<u32> = (1000..1064u32).collect();
    let map: SyncUnverifiedFrozenMap<u32> =
        SyncUnverifiedFrozenMap::unsafe_init(names, values.clone()).unwrap();
    for n in 0..500u32 {
        let stranger = format!("stranger-{}", n);
        match map.get(&stranger) {
            None => panic!("every key has a slot, and every slot holds a value"),
            Some(found) => assert!(values.contains(found)),
        }
        assert!(map.contains_value(&stranger));
    }
}

#[test]
fn unverified_operations_never_answer_key_unknown() {
    let mut map: SyncUnverifiedFrozenMap<u32> = SyncUnverifiedFrozenMap::from_vec(words()).unwrap();
    for n in 0..100u32 {
        let stranger = format!("stranger-{}", n);
        assert_eq!(map.upsert(stranger.clone(), n), Ok(()));
        assert_eq!(map.get(&stranger), Some(&n));
        assert_eq!(map.rehydrate_key(&stranger), Err(ErrorKind::KeyAlive));
        assert_eq!(map.reap_key(&stranger), Ok(()));
        assert_eq!(map.reap_key(&stranger), Err(ErrorKind::KeyDead));
        assert_eq!(map.rehydrate_key(&stranger), Ok(()));
    }
    assert_eq!(map.len(), 4);
}

#[test]
fn unverified_map_without_slots_knows_no_key() {
    let mut map: SyncUnverifiedFrozenMap<u32> = SyncUnverifiedFrozenMap::from_vec(Vec::new()).unwrap();
    assert_eq!(map.len(), 0);
    assert_eq!(map.get(&word("x")), None);
    assert_eq!(map.upsert(word("x"), 1), Err(ErrorKind::KeyUnknown));
    assert_eq!(map.reap_key(&word("x")), Err(ErrorKind::KeyUnknown));
    assert_eq!(map.rehydrate_key(&word("x")), Err(ErrorKind::KeyUnknown));
    map.drop_value(&word("x"));
}

#[test]
fn unverified_get_mut_changes_the_value_in_place() {
    let mut map: SyncUnverifiedFrozenMap<u32> = SyncUnverifiedFrozenMap::from_vec(words()).unwrap();
    assert!(map.get_mut(&word("void")).is_none());
    assert_eq!(map.upsert(word("void"), 1), Ok(()));
    match map.get_mut(&word("void")) {
        Some(value) => *value = 41,
        None => panic!("the value was put"),
    }
    assert_eq!(map.get(&word("void")), Some(&41));
    assert_eq!(map.reap_key(&word("void")), Ok(()));
    assert!(map.get_mut(&word("void")).is_none());
}

#[test]
fn unverified_values_land_in_distinct_slots() {
    let names: Vec<String> = (0..3000u32).map(|n| format!("{}-th", n)).collect();
    let mut map: SyncUnverifiedFrozenMap<usize> =
        SyncUnverifiedFrozenMap::from_vec(names.clone()).unwrap();
    for (position, name) in names.iter().enumerate() {
        assert_eq!(map.upsert(name.clone(), position), Ok(()));
    }
    for (position, name) in names.iter().enumerate() {
        assert_eq!(map.get(name), Some(&position));
    }
    assert_eq!(map.len(), 3000);
}
