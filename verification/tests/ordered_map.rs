use helix_ts_gen::name_order::{relate, Relation};
use helix_ts_gen::OrderedMap;

fn names(map: &OrderedMap<String>) -> Vec<String> {
    let mut names = Vec::new();
    for i in 0..map.len() {
        names.push(map.entry(i).0.clone());
    }
    names
}

#[test]
fn names_are_related_character_by_character() {
    assert_eq!(relate("a", "b"), Relation::Before);
    assert_eq!(relate("b", "a"), Relation::After);
    assert_eq!(relate("abc", "abc"), Relation::Same);
    assert_eq!(relate("", ""), Relation::Same);
    assert_eq!(relate("", "a"), Relation::Before);
    assert_eq!(relate("ab", "abc"), Relation::Before);
    assert_eq!(relate("abd", "abc"), Relation::After);
    assert_eq!(relate("Z", "a"), Relation::Before);
    assert_eq!(relate("z", "é"), Relation::Before);
}

#[test]
fn a_new_map_is_empty() {
    let map: OrderedMap<String> = OrderedMap::new();
    assert_eq!(map.len(), 0);
    assert!(map.is_empty());
    assert!(!map.contains_key("a"));
    assert_eq!(map.get("a"), None);
}

#[test]
fn entries_stand_in_the_order_of_their_names() {
    let mut map: OrderedMap<String> = OrderedMap::new();
    for name in ["pear", "apple", "fig", "Zebra", "apples", ""] {
        map.insert(name.to_string(), name.to_uppercase());
    }
    assert_eq!(map.len(), 6);
    assert!(!map.is_empty());
    assert_eq!(names(&map), vec!["", "Zebra", "apple", "apples", "fig", "pear"]);
    assert_eq!(map.entry(2).1, "APPLE");
}

#[test]
fn a_second_value_for_a_name_replaces_the_first() {
    let mut map: OrderedMap<String> = OrderedMap::new();
    map.insert("a".to_string(), "1".to_string());
    map.insert("b".to_string(), "2".to_string());
    map.insert("a".to_string(), "3".to_string());
    assert_eq!(map.len(), 2);
    assert_eq!(map.get("a"), Some(&"3".to_string()));
    assert_eq!(map.get("b"), Some(&"2".to_string()));
    assert_eq!(names(&map), vec!["a", "b"]);
}

#[test]
fn a_name_is_found_only_if_it_was_given_a_value() {
    let mut map: OrderedMap<String> = OrderedMap::new();
    map.insert("b".to_string(), "2".to_string());
    map.insert("d".to_string(), "4".to_string());
    assert!(map.contains_key("b"));
    assert!(map.contains_key("d"));
    for missing in ["", "a", "c", "e", "bb", "B"] {
        assert!(!map.contains_key(missing));
        assert_eq!(map.get(missing), None);
    }
}

#[test]
fn the_order_of_insertion_does_not_matter() {
    let mut one: OrderedMap<String> = OrderedMap::new();
    let mut other: OrderedMap<String> = OrderedMap::new();
    for name in ["c", "a", "b"] {
        one.insert(name.to_string(), name.to_string());
    }
    for name in ["b", "c", "a"] {
        other.insert(name.to_string(), name.to_string());
    }
    assert_eq!(one, other);
}

#[test]
fn a_clone_holds_the_same_entries() {
    let mut map: OrderedMap<String> = OrderedMap::new();
    map.insert("x".to_string(), "1".to_string());
    map.insert("y".to_string(), "2".to_string());
    let copy = map.clone();
    assert_eq!(copy, map);
    assert_eq!(copy.get("y"), Some(&"2".to_string()));
}
