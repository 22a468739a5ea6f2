use apache_age::{AgType, DecodeError, SerializationError, TypeDescriptor};

#[test]
fn encoding_prepends_the_version() {
    let mut out = vec![9u8];
    AgType(br#"{"name":"John"}"#.to_vec()).to_sql(&mut out);
    let mut expected = vec![9u8, 1];
    expected.extend_from_slice(br#"{"name":"John"}"#);
    assert_eq!(out, expected);
}

#[test]
fn generic_round_trip() {
    let doc = br#"{"name":"Alfred","surname":"Bohr","n":[1,2,3]}"#.to_vec();
    let mut out = Vec::new();
    AgType(doc.clone()).to_sql(&mut out);
    let back = AgType::from_sql(&TypeDescriptor::agtype(), &out).unwrap();
    assert_eq!(back.0, doc);
}

#[test]
fn generic_round_trip_of_empty_document() {
    let mut out = Vec::new();
    AgType(Vec::new()).to_sql(&mut out);
    assert_eq!(out, vec![1u8]);
    let back = AgType::from_sql(&TypeDescriptor::agtype(), &out).unwrap();
    assert!(back.0.is_empty());
}

#[test]
fn generic_decode_errors() {
    let ty = TypeDescriptor::agtype();
    assert!(matches!(AgType::from_sql(&ty, &[]), Err(DecodeError::Empty)));
    assert!(matches!(AgType::from_sql(&ty, &[2, b'1']), Err(DecodeError::UnsupportedVersion)));
    assert!(matches!(
        AgType::from_sql(&TypeDescriptor::new("pg_catalog", "json"), &[1, b'1']),
        Err(DecodeError::TypeMismatch)
    ));
    assert!(AgType::accepts(&ty));
}

#[test]
fn open_envelope_gives_the_content() {
    let raw = [1u8, b'[', b']'];
    let c = apache_age::open_envelope(&TypeDescriptor::agtype(), &raw).unwrap();
    assert_eq!(c, b"[]");
}

#[test]
fn serialization_error_text() {
    let e = SerializationError::custom("cannot serialize a map key");
    assert_eq!(e.to_string(), "cannot serialize a map key");
    assert_eq!(e.message, "cannot serialize a map key");
}

#[test]
fn encoded_vertex_document_round_trip() {
    let doc = br#"{"id":42,"label":"City","properties":{"name":"Oslo","tags":["a","b"]}}"#.to_vec();
    let mut raw = Vec::new();
    AgType(doc.clone()).to_sql(&mut raw);
    raw.extend_from_slice(b"::vertex");
    let v = apache_age::Vertex::from_sql(&TypeDescriptor::agtype(), &raw).unwrap();
    let direct = apache_age::decode_vertex_document(&doc).unwrap();
    assert_eq!(v.id(), 42);
    assert_eq!(v.id(), direct.id());
    assert_eq!(v.label(), direct.label());
    assert_eq!(v.properties(), direct.properties());
    assert_eq!(v.properties(), r#"{"name":"Oslo","tags":["a","b"]}"#);
}
