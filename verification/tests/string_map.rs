use vaktisalah::string_map::StringMap;

#[test]
fn an_empty_map() {
    let map: StringMap<u32> = StringMap::new();
    assert_eq!(map.len(), 0);
    assert!(map.is_empty());
    assert_eq!(map.get("a"), None);
    assert!(!map.contains_key(""));
}

#[test]
fn insert_and_get() {
    let mut map: StringMap<u32> = StringMap::new();
    map.insert("one".to_string(), 1);
    map.insert("two".to_string(), 2);
    map.insert(String::new(), 0);
    assert_eq!(map.len(), 3);
    assert!(!map.is_empty());
    assert_eq!(map.get("one"), Some(&1));
    assert_eq!(map.get("two"), Some(&2));
    assert_eq!(map.get(""), Some(&0));
    assert_eq!(map.get("three"), None);
    assert_eq!(map.get("On"), None);
    assert!(map.contains_key("two"));
    assert!(!map.contains_key("tw"));
    assert!(!map.contains_key("two "));
}

#[test]
fn a_second_insert_replaces() {
    let mut map: StringMap<u32> = StringMap::new();
    map.insert("one".to_string(), 1);
    map.insert("two".to_string(), 2);
    map.insert("one".to_string(), 11);
    assert_eq!(map.len(), 2);
    assert_eq!(map.get("one"), Some(&11));
    assert_eq!(map.get("two"), Some(&2));
}

#[test]
fn the_positions_enumerate_the_map() {
    let mut map: StringMap<u32> = StringMap::new();
    for (i, key) in ["d", "a", "c", "a", "b", "d"].iter().enumerate() {
        map.insert(key.to_string(), i as u32);
    }
    let mut seen: Vec<(String, u32)> =
        (0..map.len()).map(|i| (map.key_at(i).clone(), *map.value_at(i))).collect();
    seen.sort();
    let expected: Vec<(String, u32)> =
        vec![("a".to_string(), 3), ("b".to_string(), 4), ("c".to_string(), 2), ("d".to_string(), 5)];
    assert_eq!(seen, expected);
    for i in 0..map.len() {
        assert_eq!(map.get(map.key_at(i)), Some(map.value_at(i)));
    }
}

#[test]
fn a_copy_holds_the_same() {
    let mut map: StringMap<String> = StringMap::new();
    map.insert("ANKARA".to_string(), "506".to_string());
    map.insert("ISTANBUL".to_string(), "539".to_string());
    let mut copy = map.clone();
    assert_eq!(copy.len(), 2);
    assert_eq!(copy.get("ANKARA"), Some(&"506".to_string()));
    assert_eq!(copy.get("ISTANBUL"), Some(&"539".to_string()));
    copy.insert("IZMIR".to_string(), "540".to_string());
    assert_eq!(map.len(), 2);
    assert_eq!(map.get("IZMIR"), None);
}
