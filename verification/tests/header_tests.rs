use nkb_core::header::parse_markdown;

#[test]
fn no_header_returns_content_verbatim() {
    let content = "Just a plain document.\nNo header here.";
    let (header, body) = parse_markdown(content).unwrap();
    assert_eq!(header.entries.len(), 0);
    assert_eq!(body, content);
}

#[test]
fn unterminated_header_returns_content_verbatim() {
    let content = "---\nid: lonely\nno closing delimiter";
    let (header, body) = parse_markdown(content).unwrap();
    assert_eq!(header.entries.len(), 0);
    assert_eq!(body, content);
}

#[test]
fn well_formed_header_is_split_off() {
    let content = "---\nid: energy-001\ntitle: \"Energy Conservation\"\nclassification: law\n---\nEnergy is conserved.";
    let (header, body) = parse_markdown(content).unwrap();
    assert_eq!(header.get("id").map(String::as_str), Some("energy-001"));
    assert_eq!(header.get("title").map(String::as_str), Some("Energy Conservation"));
    assert_eq!(header.get("classification").map(String::as_str), Some("law"));
    assert_eq!(body, "Energy is conserved.");
}

#[test]
fn single_quotes_are_stripped() {
    let content = "---\ntitle: 'A Quoted Title'\n---\nbody";
    let (header, _body) = parse_markdown(content).unwrap();
    assert_eq!(header.get("title").map(String::as_str), Some("A Quoted Title"));
}

#[test]
fn duplicate_keys_last_occurrence_wins() {
    let content = "---\nid: first\nid: second\n---\nbody";
    let (header, _body) = parse_markdown(content).unwrap();
    assert_eq!(header.get("id").map(String::as_str), Some("second"));
}

#[test]
fn lines_without_colon_are_skipped() {
    let content = "---\njust some words\nkey: value\n\n---\nbody";
    let (header, _body) = parse_markdown(content).unwrap();
    assert_eq!(header.entries.len(), 1);
    assert_eq!(header.get("key").map(String::as_str), Some("value"));
}

#[test]
fn value_keeps_colons_after_the_first() {
    let content = "---\nlink: https://example.test/page\n---\nbody";
    let (header, _body) = parse_markdown(content).unwrap();
    assert_eq!(header.get("link").map(String::as_str), Some("https://example.test/page"));
}

#[test]
fn body_leading_whitespace_is_trimmed() {
    let content = "---\nid: x\n---\n\n\n   indented start";
    let (_header, body) = parse_markdown(content).unwrap();
    assert_eq!(body, "indented start");
}

#[test]
fn missing_key_is_absent() {
    let content = "---\nid: x\n---\nbody";
    let (header, _body) = parse_markdown(content).unwrap();
    assert!(header.get("classification").is_none());
}

#[test]
fn reparsing_a_parsed_body_changes_nothing() {
    let content = "---\nid: x\ntitle: y\n---\nThe body text.";
    let (_header, body) = parse_markdown(content).unwrap();
    let (header2, body2) = parse_markdown(&body).unwrap();
    assert_eq!(header2.entries.len(), 0);
    assert_eq!(body2, body);
}
