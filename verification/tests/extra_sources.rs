use reborn::extra_sources::{local_mappings_path, parse_mappings_csv, LocalPathError};
use reborn::mappings::{MappingKind, MappingsSource, MappingsSourceType};

fn local(source: &str) -> MappingsSource {
    MappingsSource { source_type: MappingsSourceType::LocalFile, source: source.to_string(), kind: MappingKind::Fields }
}

#[test]
fn a_file_url_gives_its_path() {
    match local_mappings_path(&local("file:///home/me/fields.csv")) {
        Ok(p) => assert_eq!(p, "/home/me/fields.csv"),
        Err(e) => panic!("unexpected {:?}", e),
    }
}

#[test]
fn another_scheme_is_refused_with_its_name() {
    match local_mappings_path(&local("https://example.com/fields.csv")) {
        Err(LocalPathError::WrongScheme(s)) => assert_eq!(s, "https"),
        other => panic!("unexpected {:?}", other),
    }
}

#[test]
fn a_plain_path_is_no_url() {
    assert!(matches!(local_mappings_path(&local("fields.csv")), Err(LocalPathError::Unparsable)));
}

#[test]
fn csv_records_after_the_header_map_first_field_to_second() {
    let content = "searge,name,side,desc\nfield_1_a,health,0,\"the, health\"\r\n\nfield_2_b,speed,1,fast\nshort,row\n\"func_3_c\",jump,2,\n";
    let pairs = parse_mappings_csv(content);
    assert_eq!(
        pairs,
        vec![
            ("field_1_a".to_string(), "health".to_string()),
            ("field_2_b".to_string(), "speed".to_string()),
            ("func_3_c".to_string(), "jump".to_string()),
        ]
    );
}

#[test]
fn a_two_column_csv_gives_its_pairs() {
    let pairs = parse_mappings_csv("param,name\np_1,x\np_2,y");
    assert_eq!(pairs, vec![("p_1".to_string(), "x".to_string()), ("p_2".to_string(), "y".to_string())]);
}

#[test]
fn a_csv_of_only_a_header_has_no_rows() {
    assert!(parse_mappings_csv("searge,name,side,desc").is_empty());
    assert!(parse_mappings_csv("searge,name,side,desc\n").is_empty());
    assert!(parse_mappings_csv("").is_empty());
}
