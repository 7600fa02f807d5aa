use inspektor::params::Params;

#[test]
fn a_set_key_is_found_and_others_are_not() {
    let mut params = Params::new();
    assert_eq!(params.len(), 0);
    assert!(params.get(&"user".to_string()).is_none());
    params.insert("user".to_string(), "ann".to_string());
    params.insert("database".to_string(), "shop".to_string());
    assert_eq!(params.get(&"user".to_string()).unwrap(), "ann");
    assert_eq!(params.get(&"database".to_string()).unwrap(), "shop");
    assert!(params.get(&"options".to_string()).is_none());
}

#[test]
fn a_key_that_is_set_again_keeps_its_place() {
    let mut params = Params::new();
    params.insert("a".to_string(), "1".to_string());
    params.insert("b".to_string(), "2".to_string());
    params.insert("a".to_string(), "3".to_string());
    assert_eq!(params.len(), 2);
    assert_eq!(params.entry(0), (&"a".to_string(), &"3".to_string()));
    assert_eq!(params.entry(1), (&"b".to_string(), &"2".to_string()));
}
