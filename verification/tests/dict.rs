use respkv::dict::Dict;

#[test]
fn new_dict_is_empty() {
    let d: Dict<String> = Dict::new();
    assert_eq!(d.len(), 0);
    assert!(d.keys().is_empty());
    assert!(d.get(&"a".to_string()).is_none());
}

#[test]
fn insert_then_get() {
    let mut d: Dict<String> = Dict::new();
    d.insert("a".to_string(), "1".to_string());
    d.insert("b".to_string(), "2".to_string());
    assert_eq!(d.get(&"a".to_string()), Some(&"1".to_string()));
    assert_eq!(d.get(&"b".to_string()), Some(&"2".to_string()));
    assert_eq!(d.get(&"c".to_string()), None);
    assert_eq!(d.len(), 2);
}

#[test]
fn insert_again_replaces_and_keeps_the_place() {
    let mut d: Dict<String> = Dict::new();
    d.insert("a".to_string(), "1".to_string());
    d.insert("b".to_string(), "2".to_string());
    d.insert("a".to_string(), "3".to_string());
    assert_eq!(d.len(), 2);
    assert_eq!(d.get(&"a".to_string()), Some(&"3".to_string()));
    assert_eq!(d.keys(), vec![&"a".to_string(), &"b".to_string()]);
}

#[test]
fn keys_come_in_order_of_arrival() {
    let mut d: Dict<String> = Dict::new();
    for k in ["z", "m", "a", "q"] {
        d.insert(k.to_string(), k.to_uppercase());
    }
    let keys: Vec<String> = d.keys().into_iter().cloned().collect();
    assert_eq!(keys, vec!["z", "m", "a", "q"]);
}

#[test]
fn keys_are_case_sensitive() {
    let mut d: Dict<String> = Dict::new();
    d.insert("Key".to_string(), "1".to_string());
    assert!(d.get(&"key".to_string()).is_none());
    assert!(d.get(&"Key".to_string()).is_some());
}
