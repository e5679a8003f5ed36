use scoob::name_map::NameMap;

#[test]
fn new_map_is_empty() {
    let map: NameMap<String> = NameMap::new();
    assert_eq!(map.len(), 0);
    assert!(map.get("anything").is_none());
    assert!(!map.contains_key("anything"));
    assert_eq!(map.position("anything"), None);
}

#[test]
fn insert_appends_new_names_in_order() {
    let mut map: NameMap<String> = NameMap::new();
    assert_eq!(map.insert("b".to_string(), "2".to_string()), None);
    assert_eq!(map.insert("a".to_string(), "1".to_string()), None);
    assert_eq!(map.insert("c".to_string(), "3".to_string()), None);
    assert_eq!(map.len(), 3);
    assert_eq!(map.name_at(0), "b");
    assert_eq!(map.name_at(1), "a");
    assert_eq!(map.name_at(2), "c");
    assert_eq!(map.value_at(1), "1");
    assert_eq!(map.position("c"), Some(2));
    assert_eq!(map.get("a").unwrap(), "1");
    assert!(map.contains_key("b"));
}

#[test]
fn insert_replaces_in_place_and_returns_the_former_value() {
    let mut map: NameMap<String> = NameMap::new();
    map.insert("first".to_string(), "1".to_string());
    map.insert("second".to_string(), "2".to_string());
    let former = map.insert("first".to_string(), "one".to_string());
    assert_eq!(former, Some("1".to_string()));
    assert_eq!(map.len(), 2);
    assert_eq!(map.name_at(0), "first");
    assert_eq!(map.value_at(0), "one");
    assert_eq!(map.value_at(1), "2");
}

#[test]
fn remove_takes_one_entry_and_keeps_the_order_of_the_rest() {
    let mut map: NameMap<String> = NameMap::new();
    map.insert("a".to_string(), "1".to_string());
    map.insert("b".to_string(), "2".to_string());
    map.insert("c".to_string(), "3".to_string());
    assert_eq!(map.remove("b"), Some("2".to_string()));
    assert_eq!(map.len(), 2);
    assert_eq!(map.name_at(0), "a");
    assert_eq!(map.name_at(1), "c");
    assert_eq!(map.value_at(1), "3");
    assert!(map.get("b").is_none());
    assert_eq!(map.remove("b"), None);
    assert_eq!(map.len(), 2);
}

#[test]
fn names_are_compared_character_by_character() {
    let mut map: NameMap<String> = NameMap::new();
    map.insert("name".to_string(), "lower".to_string());
    map.insert("NAME".to_string(), "upper".to_string());
    map.insert("name ".to_string(), "spaced".to_string());
    map.insert("n\u{e4}me".to_string(), "umlaut".to_string());
    map.insert("".to_string(), "empty".to_string());
    assert_eq!(map.len(), 5);
    assert_eq!(map.get("name").unwrap(), "lower");
    assert_eq!(map.get("NAME").unwrap(), "upper");
    assert_eq!(map.get("name ").unwrap(), "spaced");
    assert_eq!(map.get("n\u{e4}me").unwrap(), "umlaut");
    assert_eq!(map.get("").unwrap(), "empty");
    assert!(map.get("nam").is_none());
}
