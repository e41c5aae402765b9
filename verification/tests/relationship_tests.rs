use nkb_core::config::get_nkb_path;
use nkb_core::relationships::load_relationship_file;

#[test]
fn empty_relationships_and_no_count_succeeds() {
    let file = load_relationship_file("{\"relationships\": []}").unwrap();
    assert_eq!(file.relationships.len(), 0);
    assert!(file.total_relationships.is_none());
    assert!(file.domain.is_none());
}

#[test]
fn full_relationship_file_decodes() {
    let text = "{\"domain\": \"physics\", \"total_relationships\": 2, \"relationships\": [\
        {\"source\": \"a\", \"target\": \"b\", \"type\": \"references\", \"strength\": 0.8},\
        {\"source\": \"b\", \"target\": \"c\", \"type\": \"extends\", \"metadata\": {\"note\": \"x\"}}\
    ]}";
    let file = load_relationship_file(text).unwrap();
    assert_eq!(file.domain.as_deref(), Some("physics"));
    assert_eq!(file.total_relationships, Some(2));
    assert_eq!(file.relationships.len(), 2);
    assert_eq!(file.relationships[0].source, "a");
    assert_eq!(file.relationships[0].target, "b");
    assert_eq!(file.relationships[0].rel_type, "references");
    assert!(file.relationships[0].strength.is_some());
    assert!(file.relationships[0].metadata.is_none());
    assert_eq!(file.relationships[1].rel_type, "extends");
    assert!(file.relationships[1].strength.is_none());
    assert!(file.relationships[1].metadata.is_some());
}

#[test]
fn stale_count_is_kept_not_checked() {
    let text = "{\"total_relationships\": 7, \"relationships\": []}";
    let file = load_relationship_file(text).unwrap();
    assert_eq!(file.total_relationships, Some(7));
    assert_eq!(file.relationships.len(), 0);
}

#[test]
fn unknown_fields_are_ignored() {
    let text = "{\"relationships\": [], \"version\": 3, \"extra\": {\"a\": 1}}";
    assert!(load_relationship_file(text).is_ok());
}

#[test]
fn missing_relationships_list_is_an_error() {
    assert!(load_relationship_file("{\"domain\": \"physics\"}").is_err());
}

#[test]
fn non_array_relationships_is_an_error() {
    assert!(load_relationship_file("{\"relationships\": 5}").is_err());
}

#[test]
fn relationship_missing_source_is_an_error() {
    let text = "{\"relationships\": [{\"target\": \"b\", \"type\": \"t\"}]}";
    assert!(load_relationship_file(text).is_err());
}

#[test]
fn non_numeric_strength_is_an_error() {
    let text =
        "{\"relationships\": [{\"source\": \"a\", \"target\": \"b\", \"type\": \"t\", \"strength\": \"high\"}]}";
    assert!(load_relationship_file(text).is_err());
}

#[test]
fn null_optionals_are_absent() {
    let text = "{\"domain\": null, \"total_relationships\": null, \"relationships\": \
        [{\"source\": \"a\", \"target\": \"b\", \"type\": \"t\", \"strength\": null, \"metadata\": null}]}";
    let file = load_relationship_file(text).unwrap();
    assert!(file.domain.is_none());
    assert!(file.total_relationships.is_none());
    assert!(file.relationships[0].strength.is_none());
    assert!(file.relationships[0].metadata.is_none());
}

#[test]
fn malformed_json_is_an_error() {
    let err = load_relationship_file("{not json").unwrap_err();
    assert!(err.starts_with("Failed to parse JSON"));
}

#[test]
fn integer_strength_keeps_its_value() {
    let text = "{\"relationships\": [{\"source\": \"a\", \"target\": \"b\", \"type\": \"t\", \"strength\": 3}]}";
    let file = load_relationship_file(text).unwrap();
    let n = file.relationships[0].strength.as_ref().unwrap();
    assert_eq!(n.int_val, Some(3));
    assert_eq!(n.text, "3");
}

#[test]
fn env_override_wins_when_it_exists() {
    let r = get_nkb_path(Some("/tmp/kb".to_string()), true, true, Some("/home/u".to_string()));
    assert_eq!(r.unwrap(), "/tmp/kb");
}

#[test]
fn absent_override_falls_back_to_default_location() {
    let r = get_nkb_path(Some("/tmp/kb".to_string()), false, true, None);
    assert_eq!(r.unwrap(), "/Users/danraper/DRLibrary/DOCKER2/nkb-ani/neural-knowledge-base");
}

#[test]
fn home_fallback_is_returned_even_unseen() {
    let r = get_nkb_path(None, false, false, Some("/home/u".to_string()));
    assert_eq!(r.unwrap(), "/home/u/.nkb-browser");
}

#[test]
fn missing_home_is_a_configuration_error() {
    let r = get_nkb_path(None, false, false, None);
    assert_eq!(r.unwrap_err(), "Could not find home directory");
}
