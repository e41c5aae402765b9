use nkb_core::identity::{extract_id_from_path, extract_title_from_filename};
use nkb_core::node::{
    domain_dir_rel_path, find_outcome, make_node, match_node, relationships_rel_path,
    scan_outcome, Node,
};

#[test]
fn filename_fallback_id_and_title() {
    assert_eq!(extract_id_from_path("physics/my-note.md"), "my-note");
    assert_eq!(extract_title_from_filename("physics/my-note.md"), "my note");
}

#[test]
fn separators_become_spaces_without_capitalization() {
    assert_eq!(extract_title_from_filename("a/b/some_long-name.md"), "some long name");
}

#[test]
fn extension_is_stripped_only_at_the_last_dot() {
    assert_eq!(extract_id_from_path("notes/v1.2-draft.md"), "v1.2-draft");
}

#[test]
fn dotfile_keeps_its_name() {
    assert_eq!(extract_id_from_path("notes/.hidden"), ".hidden");
}

#[test]
fn round_trip_header_document() {
    let content = "---\nid: X\ntitle: Y\n---\nB";
    let node = make_node("physics/doc.md", content);
    assert_eq!(node.id, "X");
    assert_eq!(node.title, "Y");
    assert_eq!(node.content, "B");
}

#[test]
fn scan_example_document() {
    let content = "---\nid: energy-001\ntitle: \"Energy Conservation\"\nclassification: law\n---\nEnergy is conserved.";
    let node = make_node("physics/energy.md", content);
    assert_eq!(node.id, "energy-001");
    assert_eq!(node.title, "Energy Conservation");
    assert_eq!(node.classification.as_deref(), Some("law"));
    assert_eq!(node.content, "Energy is conserved.");
    assert_eq!(node.path, "physics/energy.md");
}

#[test]
fn headerless_document_falls_back_to_filename() {
    let node = make_node("physics/my-note.md", "Only a body.");
    assert_eq!(node.id, "my-note");
    assert_eq!(node.title, "my note");
    assert_eq!(node.content, "Only a body.");
    assert!(node.classification.is_none());
}

#[test]
fn match_node_by_declared_id() {
    let content = "---\nid: energy-001\n---\nbody";
    let found = match_node("physics/deep/energy.md", content, "energy-001");
    assert!(found.is_some());
    assert_eq!(found.unwrap().id, "energy-001");
}

#[test]
fn match_node_by_filename_stem_fallback() {
    let content = "---\nid: energy-001\n---\nbody";
    let found = match_node("physics/deep/energy.md", content, "energy");
    assert!(found.is_some());
    assert_eq!(found.unwrap().id, "energy-001");
}

#[test]
fn match_node_misses_other_ids() {
    let content = "---\nid: energy-001\n---\nbody";
    assert!(match_node("physics/energy.md", content, "entropy").is_none());
}

#[test]
fn missing_domain_scans_empty() {
    let r = scan_outcome(false, Ok(Vec::new()));
    assert!(r.is_ok());
    assert_eq!(r.unwrap().len(), 0);
}

#[test]
fn existing_domain_keeps_walk_outcome() {
    let node = make_node("d/a.md", "body");
    let r = scan_outcome(true, Ok(vec![node]));
    assert_eq!(r.unwrap().len(), 1);
    let r2: Result<Vec<Node>, String> = scan_outcome(true, Err("Failed to read directory x: denied".to_string()));
    assert_eq!(r2.unwrap_err(), "Failed to read directory x: denied");
}

#[test]
fn find_unknown_id_is_not_found() {
    let r = find_outcome(true, None, "no-such-node");
    assert_eq!(r.unwrap_err(), "Node 'no-such-node' not found");
}

#[test]
fn find_without_root_is_root_missing() {
    let r = find_outcome(false, None, "anything");
    assert_eq!(r.unwrap_err(), "Nodes directory not found");
}

#[test]
fn find_with_match_returns_the_node() {
    let node = make_node("physics/deep/energy.md", "---\nid: energy-001\n---\nbody");
    let r = find_outcome(true, Some(node), "energy-001");
    assert_eq!(r.unwrap().id, "energy-001");
}

#[test]
fn domain_paths_follow_the_layout() {
    assert_eq!(domain_dir_rel_path("physics"), "nodes/physics");
    assert_eq!(
        relationships_rel_path("physics"),
        "data/relationships/domains/physics-relationships.json"
    );
}
