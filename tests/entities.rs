use apache_age::{accepts, DecodeError, Edge, TypeDescriptor, Vertex};

fn agtype() -> TypeDescriptor {
    TypeDescriptor::agtype()
}

fn buffer(version: u8, body: &str) -> Vec<u8> {
    let mut b = vec![version];
    b.extend_from_slice(body.as_bytes());
    b
}

#[test]
fn decodes_person_vertex() {
    let raw = buffer(1, r#"{"id":1,"label":"Person","properties":{"name":"Jane"}}::vertex"#);
    let v = Vertex::from_sql(&agtype(), &raw).unwrap();
    assert_eq!(v.id(), 1);
    assert_eq!(v.label(), "Person");
    assert_eq!(v.properties(), r#"{"name":"Jane"}"#);
}

#[test]
fn version_two_vertex_is_unsupported() {
    let raw = buffer(2, r#"{"id":1,"label":"Person","properties":{"name":"Jane"}}::vertex"#);
    let r = Vertex::from_sql(&agtype(), &raw);
    assert!(matches!(r, Err(DecodeError::UnsupportedVersion)));
}

#[test]
fn unsupported_version_whatever_follows() {
    for version in [0u8, 2, 3, 255] {
        for body in ["", "garbage", "[::path", r#"{"id":1}::edge"#] {
            let raw = buffer(version, body);
            assert!(matches!(Vertex::from_sql(&agtype(), &raw), Err(DecodeError::UnsupportedVersion)));
            assert!(matches!(Edge::from_sql(&agtype(), &raw), Err(DecodeError::UnsupportedVersion)));
            assert!(matches!(
                apache_age::Path::from_sql(&agtype(), &raw),
                Err(DecodeError::UnsupportedVersion)
            ));
            assert!(matches!(
                apache_age::AgType::from_sql(&agtype(), &raw),
                Err(DecodeError::UnsupportedVersion)
            ));
        }
    }
}

#[test]
fn decodes_edge() {
    let raw = buffer(
        1,
        r#"{"id": 1125899906842625, "label": "ChildOf", "end_id": 844424930131970, "start_id": 844424930131969, "properties": {"surname": "Doe"}}::edge"#,
    );
    let e = Edge::from_sql(&agtype(), &raw).unwrap();
    assert_eq!(e.id(), 1125899906842625);
    assert_eq!(e.label(), "ChildOf");
    assert_eq!(e.properties(), r#"{"surname": "Doe"}"#);
    assert_eq!(e.start_id(), 844424930131969);
    assert_eq!(e.end_id(), 844424930131970);
}

#[test]
fn vertex_label_escapes_are_resolved() {
    let raw = buffer(1, r#"{"id":7,"label":"Per\"sonA","properties":{}}::vertex"#);
    let v = Vertex::from_sql(&agtype(), &raw).unwrap();
    assert_eq!(v.id(), 7);
    assert_eq!(v.label(), "Per\"sonA");
    assert_eq!(v.properties(), "{}");
}

#[test]
fn vertex_suffix_bytes_are_not_read() {
    // The last eight bytes are dropped whatever they hold.
    let raw = buffer(1, r#"{"id":3,"label":"L","properties":[1,2]}12345678"#);
    let v = Vertex::from_sql(&agtype(), &raw).unwrap();
    assert_eq!(v.id(), 3);
    assert_eq!(v.properties(), "[1,2]");
}

#[test]
fn wrong_type_descriptor_is_declined() {
    let raw = buffer(1, r#"{"id":1,"label":"Person","properties":{}}::vertex"#);
    let jsonb = TypeDescriptor::new("pg_catalog", "jsonb");
    assert!(!accepts(&jsonb));
    assert!(!Vertex::accepts(&jsonb));
    assert!(Vertex::accepts(&agtype()));
    assert!(Edge::accepts(&agtype()));
    assert!(matches!(Vertex::from_sql(&jsonb, &raw), Err(DecodeError::TypeMismatch)));
    let other_schema = TypeDescriptor::new("public", "agtype");
    assert!(matches!(Edge::from_sql(&other_schema, &raw), Err(DecodeError::TypeMismatch)));
}

#[test]
fn empty_buffer_has_no_version() {
    assert!(matches!(Vertex::from_sql(&agtype(), &[]), Err(DecodeError::Empty)));
    assert!(matches!(Edge::from_sql(&agtype(), &[]), Err(DecodeError::Empty)));
}

#[test]
fn short_buffers_are_truncated() {
    let raw = buffer(1, "::verte");
    assert!(matches!(Vertex::from_sql(&agtype(), &raw), Err(DecodeError::Truncated)));
    let raw = buffer(1, "::edg");
    assert!(matches!(Edge::from_sql(&agtype(), &raw), Err(DecodeError::Truncated)));
}

#[test]
fn missing_member_is_named() {
    let raw = buffer(1, r#"{"id":1,"properties":{}}::vertex"#);
    match Vertex::from_sql(&agtype(), &raw) {
        Err(DecodeError::MissingField(name)) => assert_eq!(name, "label"),
        other => panic!("unexpected {:?}", other),
    }
    let raw = buffer(1, r#"{"id":1,"label":"X","properties":{},"start_id":2}::edge"#);
    match Edge::from_sql(&agtype(), &raw) {
        Err(DecodeError::MissingField(name)) => assert_eq!(name, "end_id"),
        other => panic!("unexpected {:?}", other),
    }
}

#[test]
fn malformed_documents_carry_the_parser_error() {
    let raw = buffer(1, r#"{"id":1,"label":"X","properties":{}::vertex"#);
    assert!(matches!(Vertex::from_sql(&agtype(), &raw), Err(DecodeError::Json(_))));
    let raw = buffer(1, r#"{"id":"one","label":"X","properties":{}}::vertex"#);
    assert!(matches!(Vertex::from_sql(&agtype(), &raw), Err(DecodeError::Json(_))));
    let raw = buffer(1, r#"{"id":-1,"label":"X","properties":{}}::vertex"#);
    assert!(matches!(Vertex::from_sql(&agtype(), &raw), Err(DecodeError::Json(_))));
    let raw = buffer(1, r#"{"id":1,"label":5,"properties":{}}::vertex"#);
    assert!(matches!(Vertex::from_sql(&agtype(), &raw), Err(DecodeError::Json(_))));
    let raw = buffer(1, r#"[1,2]::edge"#);
    assert!(matches!(Edge::from_sql(&agtype(), &raw), Err(DecodeError::Json(_))));
}

#[test]
fn vertex_parts_and_constructor_agree() {
    let v = Vertex::new(5, "Person".to_string(), 9u64);
    assert_eq!(v.id(), 5);
    assert_eq!(v.label(), "Person");
    assert_eq!(*v.properties(), 9);
    let (id, label, props) = v.into_parts();
    assert_eq!((id, label.as_str(), props), (5, "Person", 9));
    let e = Edge::new(6, "Knows".to_string(), 1u8, 5, 4);
    assert_eq!((e.id(), e.start_id(), e.end_id()), (6, 5, 4));
    let (id, label, props, s, t) = e.into_parts();
    assert_eq!((id, label.as_str(), props, s, t), (6, "Knows", 1, 5, 4));
}
