//! A payload type implemented outside the library: its own errors are
//! carried through unchanged, and a non-object encoding passes through
//! untagged.
use oneof_codec::CaseDeclaration;
use oneof_codec::JVal;
use oneof_codec::Json;
use oneof_codec::ParseError;
use oneof_codec::Registry;
use oneof_codec::SchemaRef;
use oneof_codec::TypeDescriptor;
use oneof_codec::UnionDeclaration;
use oneof_codec::UnionType;
use oneof_codec::UnionValue;
use oneof_codec::errors::ParseErrView;
use oneof_codec::schema::SchemaRefV;
use vstd::prelude::Seq;
use vstd::prelude::Set;

struct Grumpy;

impl TypeDescriptor for Grumpy {
    type Value = Json;

    // The ghost model items are never run; the bodies below only fill
    // the compiled trait's requirements.
    fn spec_name(&self) -> Seq<char> {
        unreachable!()
    }

    fn spec_schema(&self) -> SchemaRefV {
        unreachable!()
    }

    fn spec_valid(&self, _p: JVal) -> bool {
        unreachable!()
    }

    fn spec_named_schemas(&self) -> Set<Seq<char>> {
        unreachable!()
    }

    fn spec_decode(&self, _v: JVal) -> Result<JVal, ParseErrView> {
        unreachable!()
    }

    fn spec_encode(&self, _p: JVal) -> JVal {
        unreachable!()
    }

    fn name(&self) -> String {
        "Grumpy".to_string()
    }

    fn schema_ref(&self) -> SchemaRef {
        SchemaRef::Reference("Grumpy".to_string())
    }

    fn decode(&self, _v: Json) -> Result<Json, ParseError> {
        Err(ParseError::Custom("grumpy refused the payload".to_string()))
    }

    fn encode(&self, _p: &Json) -> Json {
        Json::Str("not an object".to_string())
    }

    fn register(&self, _registry: &mut Registry) {}
}

fn grumpy_union() -> UnionType<Grumpy> {
    let decl = UnionDeclaration {
        name: "U".to_string(),
        title: None,
        description: None,
        external_docs: None,
        discriminator_property: "kind".to_string(),
        cases: vec![CaseDeclaration {
            case_name: "G".to_string(),
            payloads: vec![Grumpy],
            explicit_tag: None,
        }],
    };
    UnionType::new(decl).unwrap()
}

#[test]
fn payload_errors_propagate_verbatim() {
    let u = grumpy_union();
    let doc = Json::Obj(vec![("kind".to_string(), Json::Str("Grumpy".to_string()))]);
    assert_eq!(
        u.decode(doc),
        Err(ParseError::Custom("grumpy refused the payload".to_string()))
    );
}

#[test]
fn non_object_payload_encoding_passes_through_untagged() {
    let u = grumpy_union();
    let encoded = u.encode(&UnionValue { case_index: 0, payload: Json::Null });
    assert_eq!(encoded, Json::Str("not an object".to_string()));
}
