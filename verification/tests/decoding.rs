//! Decoding edge cases: malformed documents, collisions, first-match.
use oneof_codec::CaseDeclaration;
use oneof_codec::Json;
use oneof_codec::ObjectType;
use oneof_codec::ParseError;
use oneof_codec::UnionDeclaration;
use oneof_codec::UnionType;
use oneof_codec::UnionValue;

fn payload(name: &str, fields: &[&str]) -> ObjectType {
    ObjectType {
        canonical_name: name.to_string(),
        schema_name: Some(name.to_string()),
        fields: fields.iter().map(|f| f.to_string()).collect(),
    }
}

fn two_case_union(tag_a: Option<&str>, tag_b: Option<&str>) -> UnionType<ObjectType> {
    let decl = UnionDeclaration {
        name: "U".to_string(),
        title: None,
        description: None,
        external_docs: None,
        discriminator_property: "kind".to_string(),
        cases: vec![
            CaseDeclaration {
                case_name: "A".to_string(),
                payloads: vec![payload("Alpha", &["a"])],
                explicit_tag: tag_a.map(|t| t.to_string()),
            },
            CaseDeclaration {
                case_name: "B".to_string(),
                payloads: vec![payload("Beta", &["b"])],
                explicit_tag: tag_b.map(|t| t.to_string()),
            },
        ],
    };
    UnionType::new(decl).unwrap()
}

#[test]
fn non_object_document_fails() {
    let u = two_case_union(None, None);
    assert_eq!(
        u.decode(Json::Str("Alpha".to_string())),
        Err(ParseError::ExpectedType(Json::Str("Alpha".to_string())))
    );
    assert_eq!(u.decode(Json::Null), Err(ParseError::ExpectedType(Json::Null)));
    assert_eq!(u.decode(Json::Arr(vec![])), Err(ParseError::ExpectedType(Json::Arr(vec![]))));
}

#[test]
fn missing_discriminator_fails() {
    let u = two_case_union(None, None);
    let doc = Json::Obj(vec![("a".to_string(), Json::Int(1))]);
    assert_eq!(u.decode(doc.clone()), Err(ParseError::ExpectedType(doc)));
}

#[test]
fn non_string_discriminator_fails() {
    let u = two_case_union(None, None);
    let doc = Json::Obj(vec![
        ("kind".to_string(), Json::Int(7)),
        ("a".to_string(), Json::Int(1)),
    ]);
    assert_eq!(u.decode(doc.clone()), Err(ParseError::ExpectedType(doc)));
}

#[test]
fn missing_payload_field_fails() {
    let u = two_case_union(None, None);
    let doc = Json::Obj(vec![("kind".to_string(), Json::Str("Alpha".to_string()))]);
    assert_eq!(u.decode(doc.clone()), Err(ParseError::ExpectedType(doc)));
}

#[test]
fn colliding_tags_resolve_to_the_first_declared_case() {
    let u = two_case_union(Some("dup"), Some("dup"));
    let doc = Json::Obj(vec![
        ("kind".to_string(), Json::Str("dup".to_string())),
        ("a".to_string(), Json::Int(1)),
        ("b".to_string(), Json::Int(2)),
    ]);
    let decoded = u.decode(doc).unwrap();
    assert_eq!(decoded, UnionValue { case_index: 0, payload: vec![Json::Int(1)] });
}

#[test]
fn payload_reads_the_whole_flat_object() {
    let u = two_case_union(None, None);
    let doc = Json::Obj(vec![
        ("unrelated".to_string(), Json::Bool(true)),
        ("b".to_string(), Json::Str("deep".to_string())),
        ("kind".to_string(), Json::Str("Beta".to_string())),
    ]);
    let decoded = u.decode(doc).unwrap();
    assert_eq!(
        decoded,
        UnionValue { case_index: 1, payload: vec![Json::Str("deep".to_string())] }
    );
}

#[test]
fn nested_values_survive_a_round_trip() {
    let u = two_case_union(None, None);
    let nested = Json::Obj(vec![
        ("list".to_string(), Json::Arr(vec![Json::Int(1), Json::Null, Json::Bool(false)])),
    ]);
    let w = UnionValue { case_index: 0, payload: vec![nested] };
    let encoded = u.encode(&w);
    assert_eq!(u.decode(encoded).unwrap(), w);
}

#[test]
fn encode_overwrites_a_payload_property_named_like_the_discriminator() {
    let decl = UnionDeclaration {
        name: "U".to_string(),
        title: None,
        description: None,
        external_docs: None,
        discriminator_property: "kind".to_string(),
        cases: vec![CaseDeclaration {
            case_name: "A".to_string(),
            payloads: vec![payload("Alpha", &["kind"])],
            explicit_tag: None,
        }],
    };
    let u = UnionType::new(decl).unwrap();
    let encoded = u.encode(&UnionValue { case_index: 0, payload: vec![Json::Int(9)] });
    assert_eq!(
        encoded,
        Json::Obj(vec![("kind".to_string(), Json::Str("Alpha".to_string()))])
    );
}
