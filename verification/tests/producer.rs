use rafka::producer::parse_input_line;

#[test]
fn parse_colon_splits_key_value() {
    let (k, v) = parse_input_line("mykey:myvalue");
    assert_eq!(k.as_deref(), Some("mykey"));
    assert_eq!(v, "myvalue");
}

#[test]
fn parse_no_colon_gives_no_key() {
    let (k, v) = parse_input_line("justvalue");
    assert!(k.is_none());
    assert_eq!(v, "justvalue");
}

#[test]
fn parse_multiple_colons_only_first_splits() {
    let (k, v) = parse_input_line("key:val:extra");
    assert_eq!(k.as_deref(), Some("key"));
    assert_eq!(v, "val:extra");
}

#[test]
fn parse_empty_key_before_colon() {
    let (k, v) = parse_input_line(":value");
    assert_eq!(k.as_deref(), Some(""));
    assert_eq!(v, "value");
}

#[test]
fn parse_empty_value_after_colon() {
    let (k, v) = parse_input_line("key:");
    assert_eq!(k.as_deref(), Some("key"));
    assert_eq!(v, "");
}

#[test]
fn parse_empty_line() {
    let (k, v) = parse_input_line("");
    assert!(k.is_none());
    assert_eq!(v, "");
}

#[test]
fn parse_multibyte_characters_around_colon() {
    let (k, v) = parse_input_line("clé:välue");
    assert_eq!(k.as_deref(), Some("clé"));
    assert_eq!(v, "välue");
}
