use rustlog::collections::{DashStringSet, StringSet};
use rustlog::users::{UserMap, UsersCache};

fn s(text: &str) -> String {
    text.to_string()
}

#[test]
fn a_set_holds_each_string_once() {
    let mut set = StringSet::new();
    assert!(set.to_vec().is_empty());
    assert!(set.insert(s("a")));
    assert!(set.insert(s("b")));
    assert!(!set.insert(s("a")));
    assert!(set.contains(&s("a")));
    assert!(!set.contains(&s("c")));
    assert_eq!(set.to_vec(), vec![s("a"), s("b")]);
    assert!(set.remove(&s("a")));
    assert!(!set.remove(&s("a")));
    assert!(!set.contains(&s("a")));
    assert_eq!(set.to_vec(), vec![s("b")]);
}

#[test]
fn a_map_has_one_login_for_an_id() {
    let mut map = UserMap::new();
    assert!(!map.contains_key(&s("1")));
    map.insert(s("1"), s("one"));
    map.insert(s("2"), s("two"));
    map.insert(s("1"), s("uno"));
    assert!(map.contains_key(&s("1")));
    assert_eq!(map.get(&s("1")), Some(&s("uno")));
    assert_eq!(map.get(&s("3")), None);
    assert!(map.contains_login(&s("two")));
    assert!(!map.contains_login(&s("one")));
    assert_eq!(map.remove(&s("2")), Some(s("two")));
    assert_eq!(map.remove(&s("2")), None);
    let users = map.into_users();
    assert_eq!(users.len(), 1);
    assert_eq!(users[0].id, "1");
    assert_eq!(users[0].login, "uno");
}

#[test]
fn a_cache_remembers_both_ways() {
    let mut cache = UsersCache::new();
    assert_eq!(cache.get_login("1"), None);
    assert_eq!(cache.get_id("one"), None);
    cache.insert(s("1"), s("one"));
    assert_eq!(cache.get_login("1"), Some(Some(s("one"))));
    assert_eq!(cache.get_id("one"), Some(Some(s("1"))));
}

#[test]
fn a_cache_remembers_who_is_missing() {
    let mut cache = UsersCache::new();
    cache.insert_optional(Some(s("1")), None);
    cache.insert_optional(None, Some(s("two")));
    cache.insert_optional(None, None);
    assert_eq!(cache.get_login("1"), Some(None));
    assert_eq!(cache.get_id("two"), Some(None));
    assert_eq!(cache.get_id("one"), None);
    cache.insert(s("1"), s("one"));
    assert_eq!(cache.get_login("1"), Some(Some(s("one"))));
}

#[test]
fn a_dash_set_holds_each_string_once() {
    let mut set = DashStringSet::new();
    assert!(!set.contains("a"));
    assert!(set.insert(s("a")));
    assert!(!set.insert(s("a")));
    assert!(set.contains("a"));
    assert_eq!(set.remove("a"), Some(s("a")));
    assert_eq!(set.remove("a"), None);
    assert!(!set.contains("a"));
}
