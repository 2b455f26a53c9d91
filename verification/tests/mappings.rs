use linked_hash_map::LinkedHashMap;
use reborn::mappings::{
    combine_mappings, entry_action, get_mappings_file_name, get_mappings_file_path, insert_pairs, merge_inline,
    merge_mapping_source, parse_mappings_source, EntryAction, MappingKind, MappingSourceParseError, Mappings,
    MappingsSourceType,
};

#[test]
fn parses_mapping_sources() {
    let s = parse_mappings_source("fields:field_1=a;field_2=b", false).ok().unwrap();
    assert_eq!(s.kind, MappingKind::Fields);
    assert_eq!(s.source_type, MappingsSourceType::Inline);
    assert_eq!(s.source, "field_1=a;field_2=b");
    let w = parse_mappings_source("methods:https://example.com/m.csv", false).ok().unwrap();
    assert_eq!(w.kind, MappingKind::Methods);
    assert_eq!(w.source_type, MappingsSourceType::WebFile);
    assert_eq!(w.source, "https://example.com/m.csv");
    let f = parse_mappings_source("params:file:///tmp/p.csv", false).ok().unwrap();
    assert_eq!(f.source_type, MappingsSourceType::LocalFile);
    let p = parse_mappings_source("params:some/path.csv", true).ok().unwrap();
    assert_eq!(p.source_type, MappingsSourceType::LocalFile);
    assert_eq!(p.kind, MappingKind::Params);
}

#[test]
fn rejects_bad_mapping_sources() {
    assert!(matches!(parse_mappings_source("no separator", false), Err(MappingSourceParseError)));
    assert!(matches!(parse_mappings_source("classes:a=b", false), Err(MappingSourceParseError)));
    assert_eq!(MappingSourceParseError.to_string(), "error occurred while parsing mappings source");
}

#[test]
fn inline_pairs_are_laid_over_the_table() {
    let mut table: LinkedHashMap<String, String> = LinkedHashMap::new();
    table.insert("a".to_string(), "old".to_string());
    merge_inline("a=1;b=2;;junk;c=3=4", &mut table);
    assert_eq!(table.get("a").map(|s| s.as_str()), Some("1"));
    assert_eq!(table.get("b").map(|s| s.as_str()), Some("2"));
    assert_eq!(table.get("c").map(|s| s.as_str()), Some("3=4"));
    assert_eq!(table.get("junk"), None);
    assert_eq!(table.len(), 3);
}

#[test]
fn merging_a_source_touches_only_its_table() {
    let mut m = Mappings::default();
    let r = merge_mapping_source("methods:func_1=tick", false, &mut m);
    assert!(r.is_ok());
    assert_eq!(m.methods.get("func_1").map(|s| s.as_str()), Some("tick"));
    assert!(m.fields.is_empty());
    assert!(m.params.is_empty());
    let bad = merge_mapping_source("nothing", false, &mut m);
    assert!(bad.is_err());
    assert_eq!(m.methods.len(), 1);
    let web = merge_mapping_source("fields:http://x/f.csv", false, &mut m);
    assert_eq!(web.ok().unwrap().source_type, MappingsSourceType::WebFile);
    assert!(m.fields.is_empty());
}

#[test]
fn later_pairs_win() {
    let mut table: LinkedHashMap<String, String> = LinkedHashMap::new();
    let pairs = vec![
        ("k".to_string(), "v1".to_string()),
        ("j".to_string(), "w".to_string()),
        ("k".to_string(), "v2".to_string()),
    ];
    insert_pairs(&mut table, &pairs);
    assert_eq!(table.get("k").map(|s| s.as_str()), Some("v2"));
    assert_eq!(table.len(), 2);
}

#[test]
fn combined_table_prefers_later_tables() {
    let mut m = Mappings::default();
    m.fields.insert("x".to_string(), "from_fields".to_string());
    m.methods.insert("y".to_string(), "from_methods".to_string());
    m.params.insert("x".to_string(), "from_params".to_string());
    let all = combine_mappings(&m);
    assert_eq!(all.get("x").map(|s| s.as_str()), Some("from_params"));
    assert_eq!(all.get("y").map(|s| s.as_str()), Some("from_methods"));
    assert_eq!(all.len(), 2);
}

#[test]
fn mapping_file_names_and_paths() {
    assert_eq!(get_mappings_file_name(&MappingKind::Fields), "fields.csv");
    assert_eq!(get_mappings_file_name(&MappingKind::Methods), "methods.csv");
    assert_eq!(get_mappings_file_name(&MappingKind::Params), "params.csv");
    assert_eq!(get_mappings_file_path("/cache/1.7.10", &MappingKind::Params), "/cache/1.7.10/params.csv");
}

#[test]
fn jar_entries() {
    assert_eq!(entry_action("a/B.class", true, true), EntryAction::Remap);
    assert_eq!(entry_action("assets/x.png", true, false), EntryAction::Copy);
    assert_eq!(entry_action("assets/x.png", true, true), EntryAction::Skip);
    assert_eq!(entry_action("MANIFEST.MF", true, true), EntryAction::Copy);
    assert_eq!(entry_action("META-INF/MANIFEST.MF", true, true), EntryAction::Copy);
    assert_eq!(entry_action("META-INF/NOT_MANIFEST.MF", true, true), EntryAction::Skip);
    assert_eq!(entry_action("mod_at.cfg", true, true), EntryAction::Copy);
    assert_eq!(entry_action("assets/", false, false), EntryAction::Skip);
}

#[test]
fn describes_sources() {
    let s = parse_mappings_source("fields:a=b", false).ok().unwrap();
    assert_eq!(
        s.to_string(),
        "MappingsSource { source_type: Inline, source: \"<passed inline>\", kind: Fields }"
    );
    let w = parse_mappings_source("params:https://x/p.csv", false).ok().unwrap();
    assert_eq!(
        w.to_string(),
        "MappingsSource { source_type: WebFile, source: \"https://x/p.csv\", kind: Params }"
    );
}
