use reborn::order::{sorted_by_key, text_order};

#[test]
fn text_order_is_a_stable_sort() {
    let keys: Vec<String> = ["b", "a", "ab", "b", "", "B"].iter().map(|s| s.to_string()).collect();
    assert_eq!(text_order(&keys), vec![4, 5, 1, 2, 0, 3]);
}

#[test]
fn non_ascii_text_orders_by_code_point() {
    let keys: Vec<String> = ["é", "z", "a"].iter().map(|s| s.to_string()).collect();
    assert_eq!(text_order(&keys), vec![2, 1, 0]);
}

#[test]
fn pairs_sorted_by_key() {
    let pairs = vec![
        ("func_2".to_string(), "b".to_string()),
        ("field_1".to_string(), "a".to_string()),
        ("func_1".to_string(), "c".to_string()),
        ("field_1".to_string(), "d".to_string()),
    ];
    let sorted = sorted_by_key(&pairs);
    let mut expected = pairs.clone();
    expected.sort_by_key(|p| p.0.clone());
    assert_eq!(sorted, expected);
}
