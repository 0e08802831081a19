use driveway_filter::tags::Tags;

fn tags_from(pairs: &[(&str, &str)]) -> Tags {
    let mut tags = Tags::new();
    for (k, v) in pairs {
        tags.insert(k.to_string(), v.to_string());
    }
    tags
}

#[test]
fn new_tags_are_empty() {
    let tags = Tags::new();
    assert_eq!(tags.len(), 0);
    assert!(!tags.contains_key("barrier"));
    assert!(!tags.contains("service", "driveway"));
    assert_eq!(tags.position("service"), None);
}

#[test]
fn contains_needs_key_and_value() {
    let tags = tags_from(&[("service", "driveway"), ("access", "private")]);
    assert!(tags.contains("service", "driveway"));
    assert!(tags.contains("access", "private"));
    assert!(!tags.contains("service", "private"));
    assert!(!tags.contains("access", "driveway"));
    assert!(!tags.contains("service", "drive"));
    assert!(!tags.contains("service", "driveway "));
    assert!(!tags.contains("Service", "driveway"));
    assert!(!tags.contains("highway", "service"));
}

#[test]
fn contains_key_ignores_the_value() {
    let tags = tags_from(&[("barrier", "gate")]);
    assert!(tags.contains_key("barrier"));
    assert!(!tags.contains_key("gate"));
    assert!(!tags.contains_key("barrie"));
    let empty_value = tags_from(&[("barrier", "")]);
    assert!(empty_value.contains_key("barrier"));
}

#[test]
fn insert_keeps_the_order_of_the_keys() {
    let mut tags = Tags::new();
    assert_eq!(tags.insert("b".to_string(), "1".to_string()), None);
    assert_eq!(tags.insert("a".to_string(), "2".to_string()), None);
    assert_eq!(tags.insert("c".to_string(), "3".to_string()), None);
    assert_eq!(tags.len(), 3);
    assert_eq!(tags.position("a"), Some(0));
    assert_eq!(tags.position("b"), Some(1));
    assert_eq!(tags.position("c"), Some(2));
    assert_eq!(tags.insert("b".to_string(), "4".to_string()), Some("1".to_string()));
    assert_eq!(tags.len(), 3);
    assert_eq!(tags.position("b"), Some(1));
    let (k, v) = tags.entry(1);
    assert_eq!(k, "b");
    assert_eq!(v, "4");
    assert!(tags.contains("b", "4"));
    assert!(!tags.contains("b", "1"));
}

#[test]
fn entry_walks_the_tags_by_key() {
    let tags = tags_from(&[("name", "Main Street"), ("highway", "service"), ("surface", "gravel")]);
    let walked: Vec<(&str, &str)> =
        (0..tags.len()).map(|i| tags.entry(i)).map(|(k, v)| (k.as_str(), v.as_str())).collect();
    assert_eq!(walked, vec![("highway", "service"), ("name", "Main Street"), ("surface", "gravel")]);
}

#[test]
fn tags_do_not_depend_on_the_order_of_insertion() {
    let pairs = [("b", "2"), ("", "0"), ("a", "1"), ("ab", "3"), ("B", "4"), ("é", "5"), ("z", "6"), ("日本", "7")];
    let forward = tags_from(&pairs);
    let mut reversed = pairs;
    reversed.reverse();
    let backward = tags_from(&reversed);
    assert_eq!(forward, backward);
    let mut keys: Vec<&str> = pairs.iter().map(|(k, _)| *k).collect();
    keys.sort();
    let walked: Vec<String> = (0..forward.len()).map(|i| forward.entry(i).0.clone()).collect();
    assert_eq!(walked, keys);
}
