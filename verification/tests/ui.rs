use reborn::ui::{ensure_blank_extra_row, picked_files_as_extra_mappings};

#[test]
fn an_empty_editor_gets_a_blank_row() {
    let mut keys: Vec<String> = Vec::new();
    let mut values: Vec<String> = Vec::new();
    ensure_blank_extra_row(&mut keys, &mut values);
    assert_eq!(keys, vec![String::new()]);
    assert_eq!(values, vec![String::new()]);
}

#[test]
fn a_filled_last_row_gets_a_blank_row_after_it() {
    let mut keys = vec!["field_1_a".to_string()];
    let mut values = vec!["health".to_string()];
    ensure_blank_extra_row(&mut keys, &mut values);
    assert_eq!(keys, vec!["field_1_a".to_string(), String::new()]);
    assert_eq!(values, vec!["health".to_string(), String::new()]);
}

#[test]
fn a_half_filled_last_row_is_left_alone() {
    let mut keys = vec!["field_1_a".to_string()];
    let mut values = vec![String::new()];
    ensure_blank_extra_row(&mut keys, &mut values);
    assert_eq!(keys.len(), 1);
    assert_eq!(values.len(), 1);
}

#[test]
fn picked_mappings_files_become_file_sources() {
    let sources = picked_files_as_extra_mappings(Some("/m/fields.csv".to_string()), None, Some("/m/params.csv".to_string()));
    assert_eq!(sources, vec!["fields:file:///m/fields.csv".to_string(), "params:file:///m/params.csv".to_string()]);
    assert!(picked_files_as_extra_mappings(None, None, None).is_empty());
}
