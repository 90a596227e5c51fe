use wayland_utils::util::{json_to_hashmap, map_of_pairs, ron_to_hashmap, toml_to_hashmap};

#[test]
fn toml_text_gives_its_pairs() {
    let m = toml_to_hashmap("b = \"2\"\na = \"1\"\n").unwrap();
    assert_eq!(m.len(), 2);
    assert_eq!(m.get(&"a".to_string()).unwrap(), "1");
    assert_eq!(m.get(&"b".to_string()).unwrap(), "2");
    assert_eq!(m.key_at(0), "a");
}

#[test]
fn toml_text_that_is_no_map_of_strings_fails() {
    assert!(toml_to_hashmap("a = 1\n").is_err());
    assert!(toml_to_hashmap("= =").is_err());
}

#[test]
fn json_text_gives_its_pairs() {
    let m = json_to_hashmap("{\"k\": \"v\", \"bg\": \"#000\"}").unwrap();
    assert_eq!(m.len(), 2);
    assert_eq!(m.get(&"bg".to_string()).unwrap(), "#000");
    assert_eq!(m.get(&"k".to_string()).unwrap(), "v");
    assert!(json_to_hashmap("[1, 2]").is_err());
}

#[test]
fn ron_text_gives_its_pairs() {
    let m = ron_to_hashmap("{\"x\": \"1\"}").unwrap();
    assert_eq!(m.len(), 1);
    assert_eq!(m.get(&"x".to_string()).unwrap(), "1");
    assert!(ron_to_hashmap("{\"x\": 1}").is_err());
}

#[test]
fn later_pair_of_a_key_wins() {
    let m = map_of_pairs(vec![
        ("a".to_string(), "1".to_string()),
        ("b".to_string(), "2".to_string()),
        ("a".to_string(), "3".to_string()),
    ]);
    assert_eq!(m.len(), 2);
    assert_eq!(m.get(&"a".to_string()).unwrap(), "3");
    assert_eq!(m.key_at(0), "a");
    assert_eq!(m.key_at(1), "b");
    assert!(map_of_pairs(vec![]).is_empty());
}
