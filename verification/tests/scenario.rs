//! The Shape scenario: one implicit-tag case and one explicit-tag case.
use oneof_codec::CaseDeclaration;
use oneof_codec::Json;
use oneof_codec::ObjectType;
use oneof_codec::UnionDeclaration;
use oneof_codec::UnionType;
use oneof_codec::UnionValue;

fn circle_type() -> ObjectType {
    ObjectType {
        canonical_name: "Circle".to_string(),
        schema_name: Some("Circle".to_string()),
        fields: vec!["radius".to_string()],
    }
}

fn square_type() -> ObjectType {
    ObjectType {
        canonical_name: "Square".to_string(),
        schema_name: Some("Square".to_string()),
        fields: vec!["side".to_string()],
    }
}

fn shape_union() -> UnionType<ObjectType> {
    let decl = UnionDeclaration {
        name: "Shape".to_string(),
        title: None,
        description: None,
        external_docs: None,
        discriminator_property: "type".to_string(),
        cases: vec![
            CaseDeclaration {
                case_name: "Circle".to_string(),
                payloads: vec![circle_type()],
                explicit_tag: None,
            },
            CaseDeclaration {
                case_name: "Square".to_string(),
                payloads: vec![square_type()],
                explicit_tag: Some("sq".to_string()),
            },
        ],
    };
    UnionType::new(decl).unwrap()
}

#[test]
fn encode_circle_carries_implicit_tag() {
    let shape = shape_union();
    let encoded = shape.encode(&UnionValue { case_index: 0, payload: vec![Json::Int(2)] });
    assert_eq!(
        encoded,
        Json::Obj(vec![
            ("radius".to_string(), Json::Int(2)),
            ("type".to_string(), Json::Str("Circle".to_string())),
        ])
    );
}

#[test]
fn encode_square_carries_explicit_tag() {
    let shape = shape_union();
    let encoded = shape.encode(&UnionValue { case_index: 1, payload: vec![Json::Int(3)] });
    assert_eq!(
        encoded,
        Json::Obj(vec![
            ("side".to_string(), Json::Int(3)),
            ("type".to_string(), Json::Str("sq".to_string())),
        ])
    );
}

#[test]
fn decode_square_by_explicit_tag() {
    let shape = shape_union();
    let doc = Json::Obj(vec![
        ("type".to_string(), Json::Str("sq".to_string())),
        ("side".to_string(), Json::Int(3)),
    ]);
    let decoded = shape.decode(doc).unwrap();
    assert_eq!(decoded, UnionValue { case_index: 1, payload: vec![Json::Int(3)] });
}

#[test]
fn decode_circle_by_implicit_tag() {
    let shape = shape_union();
    let doc = Json::Obj(vec![
        ("type".to_string(), Json::Str("Circle".to_string())),
        ("radius".to_string(), Json::Int(2)),
    ]);
    let decoded = shape.decode(doc).unwrap();
    assert_eq!(decoded, UnionValue { case_index: 0, payload: vec![Json::Int(2)] });
}

#[test]
fn decode_unknown_tag_fails() {
    let shape = shape_union();
    let doc = Json::Obj(vec![("type".to_string(), Json::Str("triangle".to_string()))]);
    assert_eq!(
        shape.decode(doc.clone()),
        Err(oneof_codec::ParseError::ExpectedType(doc))
    );
}

#[test]
fn mapping_holds_only_the_explicit_case() {
    let shape = shape_union();
    let schema = shape.schema_component();
    let discriminator = schema.discriminator.as_ref().unwrap();
    assert_eq!(discriminator.property_name, "type".to_string());
    assert_eq!(
        discriminator.mapping,
        vec![("sq".to_string(), "#/components/schemas/Square".to_string())]
    );
}

#[test]
fn round_trip_both_cases() {
    let shape = shape_union();
    for (case_index, value) in [(0usize, Json::Int(2)), (1usize, Json::Int(3))] {
        let w = UnionValue { case_index, payload: vec![value] };
        let encoded = shape.encode(&w);
        assert_eq!(shape.decode(encoded).unwrap(), w);
    }
}
