//! Resolution, tag derivation, schema shape and definition-time errors.
use oneof_codec::CaseDeclaration;
use oneof_codec::DeclarationError;
use oneof_codec::DefinitionError;
use oneof_codec::ObjectType;
use oneof_codec::SchemaConstructionError;
use oneof_codec::SchemaRef;
use oneof_codec::UnionDeclaration;
use oneof_codec::UnionType;
use oneof_codec::resolve;

fn named_object(name: &str, schema_name: Option<&str>, fields: &[&str]) -> ObjectType {
    ObjectType {
        canonical_name: name.to_string(),
        schema_name: schema_name.map(|n| n.to_string()),
        fields: fields.iter().map(|f| f.to_string()).collect(),
    }
}

fn one_case(case_name: &str, payload: ObjectType, tag: Option<&str>) -> CaseDeclaration<ObjectType> {
    CaseDeclaration {
        case_name: case_name.to_string(),
        payloads: vec![payload],
        explicit_tag: tag.map(|t| t.to_string()),
    }
}

fn union_of(cases: Vec<CaseDeclaration<ObjectType>>) -> UnionDeclaration<ObjectType> {
    UnionDeclaration {
        name: "U".to_string(),
        title: Some("A union".to_string()),
        description: Some("One of several".to_string()),
        external_docs: None,
        discriminator_property: "kind".to_string(),
        cases,
    }
}

#[test]
fn implicit_tag_is_the_payload_name() {
    let decl = union_of(vec![one_case("A", named_object("Alpha", Some("Alpha"), &[]), None)]);
    let resolved = resolve(&decl).unwrap();
    assert_eq!(resolved.len(), 1);
    assert_eq!(resolved[0].tag, "Alpha".to_string());
    assert!(!resolved[0].has_explicit_tag);
}

#[test]
fn explicit_tag_overrides_the_payload_name() {
    let decl = union_of(vec![one_case("A", named_object("Alpha", Some("Alpha"), &[]), Some("t"))]);
    let resolved = resolve(&decl).unwrap();
    assert_eq!(resolved[0].tag, "t".to_string());
    assert!(resolved[0].has_explicit_tag);
}

#[test]
fn case_with_no_payload_is_invalid() {
    let decl = union_of(vec![
        one_case("Good", named_object("Alpha", Some("Alpha"), &[]), None),
        CaseDeclaration { case_name: "Bad".to_string(), payloads: vec![], explicit_tag: None },
    ]);
    assert_eq!(resolve(&decl), Err(DeclarationError::InvalidCaseShape("Bad".to_string())));
}

#[test]
fn case_with_two_payloads_is_invalid() {
    let decl = union_of(vec![CaseDeclaration {
        case_name: "Twice".to_string(),
        payloads: vec![
            named_object("Alpha", Some("Alpha"), &[]),
            named_object("Beta", Some("Beta"), &[]),
        ],
        explicit_tag: None,
    }]);
    let err = UnionType::new(decl).unwrap_err();
    assert_eq!(
        err,
        DefinitionError::Declaration(DeclarationError::InvalidCaseShape("Twice".to_string()))
    );
}

#[test]
fn explicit_tag_needs_a_named_schema_reference() {
    let decl = union_of(vec![one_case("A", named_object("Alpha", None, &[]), Some("t"))]);
    let err = UnionType::new(decl).unwrap_err();
    assert_eq!(err, DefinitionError::Schema(SchemaConstructionError::NotAReference));
}

#[test]
fn implicit_tag_tolerates_an_inline_schema() {
    let decl = union_of(vec![one_case("A", named_object("Alpha", None, &[]), None)]);
    let u = UnionType::new(decl).unwrap();
    assert!(u.schema_component().discriminator.as_ref().unwrap().mapping.is_empty());
}

#[test]
fn enum_lists_tags_in_declaration_order_with_duplicates() {
    let decl = union_of(vec![
        one_case("A", named_object("Alpha", Some("Alpha"), &[]), Some("dup")),
        one_case("B", named_object("Beta", Some("Beta"), &[]), None),
        one_case("C", named_object("Gamma", Some("Gamma"), &[]), Some("dup")),
    ]);
    let u = UnionType::new(decl).unwrap();
    let schema = u.schema_component();
    assert_eq!(schema.properties.len(), 1);
    assert_eq!(schema.properties[0].0, "kind".to_string());
    let tag_enum = match &schema.properties[0].1 {
        SchemaRef::Inline(c) => c,
        SchemaRef::Reference(_) => panic!("the tag enum schema is inline"),
    };
    assert_eq!(
        tag_enum.enum_items,
        vec!["dup".to_string(), "Beta".to_string(), "dup".to_string()]
    );
    assert_eq!(tag_enum.schema_type, "string".to_string());
}

#[test]
fn schema_copies_documentation_and_lists_one_of() {
    let decl = union_of(vec![
        one_case("A", named_object("Alpha", Some("Alpha"), &[]), None),
        one_case("B", named_object("Beta", Some("Beta"), &[]), None),
    ]);
    let u = UnionType::new(decl).unwrap();
    let schema = u.schema_component();
    assert_eq!(schema.schema_type, "object".to_string());
    assert_eq!(schema.title, Some("A union".to_string()));
    assert_eq!(schema.description, Some("One of several".to_string()));
    assert_eq!(schema.external_docs, None);
    assert_eq!(
        schema.one_of,
        vec![
            SchemaRef::Reference("Alpha".to_string()),
            SchemaRef::Reference("Beta".to_string()),
        ]
    );
    assert_eq!(u.name(), "object".to_string());
}
