//! Registry deduplication and union registration.
use oneof_codec::CaseDeclaration;
use oneof_codec::ObjectType;
use oneof_codec::Registry;
use oneof_codec::SchemaComponent;
use oneof_codec::UnionDeclaration;
use oneof_codec::UnionType;

fn named(name: &str) -> ObjectType {
    ObjectType {
        canonical_name: name.to_string(),
        schema_name: Some(name.to_string()),
        fields: vec![],
    }
}

#[test]
fn register_is_idempotent_and_keeps_the_first_component() {
    let mut registry = Registry::new();
    registry.register("A".to_string(), SchemaComponent::new("object".to_string()));
    registry.register("A".to_string(), SchemaComponent::new("string".to_string()));
    assert_eq!(registry.entries.len(), 1);
    assert_eq!(registry.get(&"A".to_string()).unwrap().schema_type, "object".to_string());
    assert!(registry.get(&"B".to_string()).is_none());
}

#[test]
fn union_registers_each_payload_once() {
    let decl = UnionDeclaration {
        name: "U".to_string(),
        title: None,
        description: None,
        external_docs: None,
        discriminator_property: "kind".to_string(),
        cases: vec![
            CaseDeclaration {
                case_name: "A".to_string(),
                payloads: vec![named("Alpha")],
                explicit_tag: None,
            },
            CaseDeclaration {
                case_name: "B".to_string(),
                payloads: vec![named("Beta")],
                explicit_tag: None,
            },
            CaseDeclaration {
                case_name: "C".to_string(),
                payloads: vec![named("Alpha")],
                explicit_tag: Some("again".to_string()),
            },
        ],
    };
    let u = UnionType::new(decl).unwrap();
    let mut registry = Registry::new();
    u.register(&mut registry);
    assert_eq!(registry.entries.len(), 2);
    u.register(&mut registry);
    assert_eq!(registry.entries.len(), 2);
    assert!(registry.get(&"Alpha".to_string()).is_some());
    assert!(registry.get(&"Beta".to_string()).is_some());
}
