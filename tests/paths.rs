use apache_age::{decode_path_content, DecodeError, LexState, Lexer, Path, Token, TypeDescriptor};

const JANE: &str = r#"{"id": 844424930131969, "label": "Person", "properties": {"name": "Jane", "surname": "Doe"}}"#;
const JOHN: &str = r#"{"id": 844424930131970, "label": "Person", "properties": {"name": "John", "surname": "Doe"}}"#;
const CHILD_OF: &str = r#"{"id": 1125899906842625, "label": "ChildOf", "end_id": 844424930131970, "start_id": 844424930131969, "properties": {"surname": "Doe"}}"#;

fn buffer(content: &str) -> Vec<u8> {
    let mut b = vec![1u8];
    b.extend_from_slice(content.as_bytes());
    b
}

fn decode(content: &str) -> Result<Path<String, String>, DecodeError> {
    Path::from_sql(&TypeDescriptor::agtype(), &buffer(content))
}

#[test]
fn path_keeps_encounter_order() {
    let content = format!("[{}::vertex{}::edge{}::vertex::path", JANE, CHILD_OF, JOHN);
    let p = decode(&content).unwrap();
    assert_eq!(p.vertices().len(), 2);
    assert_eq!(p.edges().len(), 1);
    assert_eq!(p.vertices()[0].id(), 844424930131969);
    assert_eq!(p.vertices()[0].properties(), r#"{"name": "Jane", "surname": "Doe"}"#);
    assert_eq!(p.vertices()[1].id(), 844424930131970);
    assert_eq!(p.vertices()[1].properties(), r#"{"name": "John", "surname": "Doe"}"#);
    assert_eq!(p.edges()[0].label(), "ChildOf");
}

#[test]
fn two_vertices_then_one_edge() {
    let content = format!("[{}::vertex, {}::vertex, {}::edge]::path", JANE, JOHN, CHILD_OF);
    let p = decode(&content).unwrap();
    assert_eq!(p.vertices().len(), 2);
    assert_eq!(p.edges().len(), 1);
    let (v1, v2, e) = (&p.vertices()[0], &p.vertices()[1], &p.edges()[0]);
    assert_eq!(v1.label(), "Person");
    assert_eq!(v2.label(), "Person");
    assert_eq!(e.properties(), r#"{"surname": "Doe"}"#);
    assert_eq!(e.start_id(), v1.id());
    assert_eq!(e.end_id(), v2.id());
}

#[test]
fn database_style_path() {
    let content = format!("[{}::vertex, {}::edge, {}::vertex]::path", JANE, CHILD_OF, JOHN);
    let p = decode(&content).unwrap();
    let (vertices, edges) = p.into_parts();
    assert_eq!(vertices.len(), 2);
    assert_eq!(edges.len(), 1);
    assert_eq!(edges[0].start_id(), vertices[0].id());
    assert_eq!(edges[0].end_id(), vertices[1].id());
}

#[test]
fn nested_braces_stay_in_the_document() {
    let a = r#"{"id": 1, "label": "A", "properties": {"inner": {"deep": [1, {"x": 2}]}}}"#;
    let content = format!("[{}::vertex]::path", a);
    let p = decode(&content).unwrap();
    assert_eq!(p.vertices().len(), 1);
    assert_eq!(p.vertices()[0].properties(), r#"{"inner": {"deep": [1, {"x": 2}]}}"#);
}

#[test]
fn empty_path() {
    let p = decode("[]::path").unwrap();
    assert!(p.vertices().is_empty());
    assert!(p.edges().is_empty());
    let p = decode("[::path").unwrap();
    assert!(p.vertices().is_empty());
}

#[test]
fn path_without_bracket_is_invalid() {
    let content = format!("{}::vertex]::path", JANE);
    assert!(matches!(decode(&content), Err(DecodeError::InvalidPath)));
    assert!(matches!(decode(""), Err(DecodeError::InvalidPath)));
}

#[test]
fn path_without_suffix_is_invalid() {
    let content = format!("[{}::vertex]", JANE);
    assert!(matches!(decode(&content), Err(DecodeError::InvalidPath)));
    let content = format!("[{}::vertex]::pat", JANE);
    assert!(matches!(decode(&content), Err(DecodeError::InvalidPath)));
    assert!(matches!(decode("["), Err(DecodeError::InvalidPath)));
}

#[test]
fn marker_without_document_is_invalid() {
    assert!(matches!(decode("[::vertex]::path"), Err(DecodeError::InvalidPath)));
    let content = format!("[{}::vertex::edge]::path", JANE);
    assert!(matches!(decode(&content), Err(DecodeError::InvalidPath)));
}

#[test]
fn bad_sub_document_fails_the_whole_path() {
    let bad = r#"{"id": 2, "label": 3, "properties": {}}"#;
    let content = format!("[{}::vertex, {}::vertex]::path", JANE, bad);
    assert!(matches!(decode(&content), Err(DecodeError::Json(_))));
    let no_end = r#"{"id": 2, "label": "E", "properties": {}, "start_id": 1}"#;
    let content = format!("[{}::vertex, {}::edge]::path", JANE, no_end);
    match decode(&content) {
        Err(DecodeError::MissingField(name)) => assert_eq!(name, "end_id"),
        other => panic!("unexpected {:?}", other),
    }
}

#[test]
fn path_envelope_is_checked() {
    let content = format!("[{}::vertex]::path", JANE);
    let mut raw = buffer(&content);
    raw[0] = 2;
    assert!(matches!(
        Path::from_sql(&TypeDescriptor::agtype(), &raw),
        Err(DecodeError::UnsupportedVersion)
    ));
    assert!(matches!(
        Path::from_sql(&TypeDescriptor::new("x", "agtype"), &buffer(&content)),
        Err(DecodeError::TypeMismatch)
    ));
    assert!(Path::accepts(&TypeDescriptor::agtype()));
    assert!(!Path::accepts(&TypeDescriptor::new("ag_catalog", "graphid")));
}

#[test]
fn content_decoder_matches_path_decoder() {
    let content = format!("[{}::vertex]::path", JOHN);
    let p = decode_path_content(content.as_bytes()).unwrap();
    assert_eq!(p.vertices()[0].id(), 844424930131970);
}

#[test]
fn lexer_tracks_only_the_first_brace() {
    let c = br#"[{"a":{}}::vertex"#;
    let mut lx = Lexer::new();
    assert_eq!(lx.state(), LexState::Idle);
    let mut tokens = Vec::new();
    for i in 0..c.len() {
        if let Some(t) = lx.step(c, i).unwrap() {
            tokens.push(t);
        }
        if i == 1 {
            assert_eq!(lx.state(), LexState::InDocument(1));
        }
        if i == 6 {
            assert_eq!(lx.state(), LexState::InDocument(1));
        }
    }
    assert_eq!(tokens, vec![Token::Vertex(1, 9)]);
    assert_eq!(lx.state(), LexState::Idle);
}

#[test]
fn lexer_rejects_marker_when_idle() {
    let c = b"x::edge";
    let mut lx = Lexer::new();
    assert_eq!(lx.step(c, 0).unwrap(), None);
    assert!(matches!(lx.step(c, 1), Err(DecodeError::InvalidPath)));
}

#[test]
fn lexer_emits_edges() {
    let c = b"{}::edge";
    let mut lx = Lexer::new();
    assert_eq!(lx.step(c, 0).unwrap(), None);
    assert_eq!(lx.step(c, 1).unwrap(), None);
    assert_eq!(lx.step(c, 2).unwrap(), Some(Token::Edge(0, 2)));
    assert_eq!(lx.state(), LexState::Idle);
}
