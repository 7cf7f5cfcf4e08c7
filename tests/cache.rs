use id_cache::{DecodeError, IdCache};

fn cache_of(values: &[&str]) -> IdCache {
    let mut cache = IdCache::new();
    for v in values {
        cache.make_id(v.to_string());
    }
    cache
}

#[test]
fn test_round_trip() {
    let mut cache = IdCache::new();
    cache.make_id("foo".to_owned());
    cache.make_id("bar".to_owned());

    let serialized = serde_json::to_string(&cache.to_values()).unwrap();
    assert_eq!(serialized, r#"["foo","bar"]"#);

    let values: Vec<String> = serde_json::from_str(&serialized).unwrap();
    let deserialized = IdCache::from_values(values).unwrap();
    assert!(deserialized == cache);
}

#[test]
fn test_duplicate_err() {
    let values: Vec<String> = serde_json::from_str(r#"["foo","foo"]"#).unwrap();
    let result = IdCache::from_values(values);
    assert!(result.is_err());
}

#[test]
fn new_cache_is_empty() {
    let cache = IdCache::new();
    assert!(cache.is_empty());
    assert_eq!(cache.count(), 0);
    assert_eq!(cache.len(), 0);
    assert_eq!(cache.get_value(0), None);
}

#[test]
fn default_and_with_capacity_are_empty() {
    let cache = IdCache::default();
    assert!(cache.is_empty());
    let cache = IdCache::with_capacity(100);
    assert!(cache.is_empty());
    assert_eq!(cache.count(), 0);
    let cache = IdCache::with_capacity(0);
    assert_eq!(cache.len(), 0);
}

#[test]
fn make_id_assigns_sequential_ids_and_dedups() {
    let mut cache = IdCache::new();
    assert_eq!(cache.make_id("foo".to_owned()), 0);
    assert_eq!(cache.make_id("bar".to_owned()), 1);
    assert_eq!(cache.make_id("foo".to_owned()), 0);
    assert_eq!(cache.len(), 2);
    assert_eq!(cache.count(), 2);
    assert!(!cache.is_empty());
}

#[test]
fn get_id_of_absent_value_is_none() {
    let cache = cache_of(&["foo", "bar"]);
    assert_eq!(cache.get_id("baz"), None);
    assert_eq!(cache.get_id("foo"), Some(0));
    assert_eq!(cache.get_id("bar"), Some(1));
}

#[test]
fn get_value_and_index() {
    let cache = cache_of(&["foo", "bar"]);
    assert_eq!(cache.get_value(0).map(|s| s.as_str()), Some("foo"));
    assert_eq!(cache.get_value(1).map(|s| s.as_str()), Some("bar"));
    assert_eq!(cache.get_value(2), None);
    assert_eq!(cache.index(0), "foo");
    assert_eq!(cache.index(1), "bar");
}

#[test]
fn interning_twice_adds_one_entry() {
    let mut cache = cache_of(&["a"]);
    let before = cache.len();
    let first = cache.make_id("b".to_owned());
    let second = cache.make_id("b".to_owned());
    assert_eq!(first, second);
    assert_eq!(cache.len(), before + 1);
}

#[test]
fn distinct_values_get_dense_ids() {
    let words = ["w0", "w1", "w2", "w3", "w4", "w5", "w6"];
    let mut cache = IdCache::new();
    for (k, w) in words.iter().enumerate() {
        assert_eq!(cache.make_id(w.to_string()), k as u32);
    }
    assert_eq!(cache.count(), words.len() as u32);
    for (k, w) in words.iter().enumerate() {
        assert_eq!(cache.get_id(w), Some(k as u32));
    }
}

#[test]
fn id_value_round_trip_after_each_intern() {
    let mut cache = IdCache::new();
    for w in ["x", "y", "x", "z", "y", "", "z"] {
        cache.make_id(w.to_owned());
        for i in 0..cache.count() {
            let value = cache.get_value(i).unwrap().clone();
            assert_eq!(cache.get_id(&value), Some(i));
        }
    }
    assert_eq!(cache.len(), 4);
}

#[test]
fn first_representative_is_kept() {
    let mut cache = IdCache::new();
    let id = cache.make_id("same".to_owned());
    assert_eq!(cache.make_id(String::from("same")), id);
    assert_eq!(cache.index(id), "same");
    assert_eq!(cache.len(), 1);
}

#[test]
fn empty_string_is_a_value() {
    let mut cache = IdCache::new();
    assert_eq!(cache.make_id(String::new()), 0);
    assert_eq!(cache.get_id(""), Some(0));
}

#[test]
fn to_values_lists_values_in_id_order() {
    let cache = cache_of(&["foo", "bar", "foo", "baz"]);
    assert_eq!(cache.to_values(), vec!["foo".to_owned(), "bar".to_owned(), "baz".to_owned()]);
    assert_eq!(IdCache::new().to_values(), Vec::<String>::new());
}

#[test]
fn from_values_keeps_order() {
    let values = vec!["c".to_owned(), "a".to_owned(), "b".to_owned()];
    let cache = IdCache::from_values(values).unwrap();
    assert_eq!(cache.len(), 3);
    assert_eq!(cache.get_id("c"), Some(0));
    assert_eq!(cache.get_id("a"), Some(1));
    assert_eq!(cache.get_id("b"), Some(2));
    assert_eq!(cache.index(2), "b");
}

#[test]
fn from_values_of_nothing_is_empty() {
    let cache = IdCache::from_values(Vec::new()).unwrap();
    assert!(cache.is_empty());
}

#[test]
fn from_values_reports_first_duplicate() {
    let values: Vec<String> = ["a", "b", "c", "b", "a"].iter().map(|s| s.to_string()).collect();
    assert_eq!(
        IdCache::from_values(values).err(),
        Some(DecodeError::DuplicateValue { first: 1, duplicate: 3 })
    );
    let values = vec!["foo".to_owned(), "foo".to_owned()];
    assert_eq!(
        IdCache::from_values(values).err(),
        Some(DecodeError::DuplicateValue { first: 0, duplicate: 1 })
    );
}

#[test]
fn decode_of_encode_is_equal() {
    let cache = cache_of(&["one", "two", "three", "two"]);
    let mut decoded = IdCache::from_values(cache.to_values()).unwrap();
    assert!(decoded == cache);
    assert_eq!(decoded.make_id("four".to_owned()), 3);
}

#[test]
fn equality_compares_values_by_id() {
    let a = cache_of(&["foo", "bar"]);
    let b = cache_of(&["foo", "bar", "foo"]);
    let c = cache_of(&["bar", "foo"]);
    assert!(a == b);
    assert!(a != c);
    assert!(IdCache::new() == IdCache::with_capacity(8));
}

#[test]
fn clone_is_independent_and_equal() {
    let a = cache_of(&["foo", "bar"]);
    let mut b = a.clone();
    assert!(a == b);
    assert_eq!(b.get_id("bar"), Some(1));
    assert_eq!(b.make_id("baz".to_owned()), 2);
    assert_eq!(a.len(), 2);
    assert_eq!(b.len(), 3);
    assert!(a != b);
}

#[test]
fn debug_string_shows_ids_and_values() {
    let cache = cache_of(&["foo", "bar"]);
    assert_eq!(cache.debug_string(), r#"{0: "foo", 1: "bar"}"#);
    assert_eq!(IdCache::new().debug_string(), "{}");
}
