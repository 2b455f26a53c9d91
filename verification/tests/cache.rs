use reborn::cache::{
    game_version_prefixes, mapping_type_prefixes, mapping_version_prefix, order_versions, pad_version_key,
    required_mapping_files, unpad_version_key, versions_json_fresh, RebornCache,
};

#[test]
fn pads_each_part_to_two_characters() {
    assert_eq!(pad_version_key("1.7.10"), "01.07.10");
    assert_eq!(pad_version_key("1.12.2"), "01.12.02");
    assert_eq!(pad_version_key(""), "00");
    assert_eq!(pad_version_key("1..3"), "01.00.03");
    assert_eq!(pad_version_key("123"), "123");
}

#[test]
fn unpadding_takes_leading_zeros_off() {
    assert_eq!(unpad_version_key("01.07.10"), "1.7.10");
    assert_eq!(unpad_version_key("001.0100"), "1.100");
    assert_eq!(unpad_version_key("01.00"), "1.");
}

#[test]
fn padding_then_unpadding_gives_plain_keys_back() {
    for k in ["1.7.10", "1.12.2", "20.1", "1.20.4"] {
        assert_eq!(unpad_version_key(&pad_version_key(k)), k);
    }
    assert_eq!(unpad_version_key(&pad_version_key("1.0")), "1.");
}

#[test]
fn versions_are_listed_in_version_order() {
    let keys: Vec<String> = ["1.12.2", "1.7.10", "1.9", "1.10.2", "1.8"].iter().map(|s| s.to_string()).collect();
    let order = order_versions(&keys);
    let shown: Vec<&str> = order.iter().map(|(k, _)| k.as_str()).collect();
    assert_eq!(shown, vec!["1.7.10", "1.8", "1.9", "1.10.2", "1.12.2"]);
    let positions: Vec<usize> = order.iter().map(|(_, i)| *i).collect();
    assert_eq!(positions, vec![1, 4, 2, 3, 0]);
}

#[test]
fn equal_padded_keys_keep_their_order() {
    let keys: Vec<String> = ["1.5", "01.5", "1.05"].iter().map(|s| s.to_string()).collect();
    let order = order_versions(&keys);
    let positions: Vec<usize> = order.iter().map(|(_, i)| *i).collect();
    assert_eq!(positions, vec![0, 1, 2]);
    assert!(order.iter().all(|(k, _)| k == "1.5"));
}

#[test]
fn no_versions() {
    assert!(order_versions(&Vec::new()).is_empty());
}

#[test]
fn files_a_cached_version_needs() {
    let files = required_mapping_files("/cache", "1.7.10", "stable", "12");
    assert_eq!(
        files,
        vec![
            "/cache/mappings/1.7.10/stable/12/methods.csv".to_string(),
            "/cache/mappings/1.7.10/stable/12/params.csv".to_string(),
            "/cache/mappings/1.7.10/stable/12/fields.csv".to_string(),
            "/cache/mappings/1.7.10/joined.tsrg".to_string(),
        ]
    );
}

#[test]
fn a_first_cache_has_no_hash() {
    assert_eq!(RebornCache::empty().versions_json_hash, "");
}

#[test]
fn a_versions_list_is_fresh_when_its_hash_matches() {
    let h = Some("abc".to_string());
    assert!(versions_json_fresh(true, &h, &Some("abc".to_string())));
    assert!(!versions_json_fresh(false, &h, &Some("abc".to_string())));
    assert!(!versions_json_fresh(true, &h, &Some("abd".to_string())));
    assert!(!versions_json_fresh(true, &None, &Some("abc".to_string())));
    assert!(!versions_json_fresh(true, &h, &None));
}

#[test]
fn versions_tree_prefixes() {
    assert_eq!(game_version_prefixes(0, true, 3), ("┌─┬─", "│ "));
    assert_eq!(game_version_prefixes(0, false, 3), ("──┬─", "  "));
    assert_eq!(game_version_prefixes(1, true, 3), ("├─┬─", "│ "));
    assert_eq!(game_version_prefixes(2, false, 3), ("└─┬─", "  "));
    assert_eq!(mapping_type_prefixes(0, 2), ("├─┬─", "│ "));
    assert_eq!(mapping_type_prefixes(1, 2), ("└─┬─", "  "));
    assert_eq!(mapping_version_prefix(0, 1), "└──");
    assert_eq!(mapping_version_prefix(0, 2), "├──");
}
