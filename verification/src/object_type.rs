//! A plain named-object payload type, described by data.
//!
//! A union's payload types usually come from elsewhere; this one is the
//! library's own minimal shape, enough to declare and exercise whole
//! unions: an object with a fixed list of properties, decoded to the
//! sequence of their values.  Its decoder ignores properties it does not
//! know, the discriminator among them.
use vstd::prelude::*;

use crate::descriptor::TypeDescriptor;
use crate::errors::ParseErrView;
use crate::errors::ParseError;
use crate::json::JVal;
use crate::json::Json;
use crate::json::lemma_obj_view;
use crate::json::obj_get;
use crate::json::obj_lookup;
use crate::json::pairs_view;
use crate::schema::Registry;
use crate::schema::SchemaComponent;
use crate::schema::SchemaComponentV;
use crate::schema::SchemaRef;
use crate::schema::SchemaRefV;

verus! {

broadcast use vstd::std_specs::vec::group_vec_axioms, vstd::seq::group_seq_axioms;

/// A payload type standing for a JSON object with the given properties.
/// With a schema name, its schema is the named reference registered
/// under that name; without one, an inline object schema.
#[derive(Debug)]
pub struct ObjectType {
    pub canonical_name: String,
    pub schema_name: Option<String>,
    pub fields: Vec<String>,
}

impl ObjectType {
    /// The declared property names, in order.
    pub open spec fn spec_fields(self) -> Seq<Seq<char>> {
        Seq::new(self.fields@.len(), |i: int| self.fields@[i]@)
    }

    /// The values bound to `fields` in an object's pairs: every field
    /// must be present, anything else is ignored.
    pub open spec fn spec_extract(
        pairs: Seq<(Seq<char>, JVal)>,
        fields: Seq<Seq<char>>,
    ) -> Option<Seq<JVal>>
        decreases fields.len(),
    {
        if fields.len() == 0 {
            Some(Seq::empty())
        } else {
            match obj_lookup(pairs, fields[0]) {
                None => None,
                Some(v0) => match Self::spec_extract(pairs, fields.skip(1)) {
                    None => None,
                    Some(rest) => Some(seq![v0] + rest),
                },
            }
        }
    }

    /// The bare inline object schema component.
    pub open spec fn spec_inline_schema() -> SchemaComponentV {
        SchemaComponentV {
            schema_type: "object"@,
            title: None,
            description: None,
            external_docs: None,
            one_of: Seq::empty(),
            properties: Seq::empty(),
            enum_items: Seq::empty(),
            discriminator: None,
        }
    }
}

pub proof fn lemma_extract_all_present(pairs: Seq<(Seq<char>, JVal)>, fields: Seq<Seq<char>>)
    requires
        forall|j: int| 0 <= j < fields.len() ==> obj_lookup(pairs, #[trigger] fields[j]) is Some,
    ensures
        ObjectType::spec_extract(pairs, fields) == Some(
            Seq::new(fields.len(), |i: int| obj_lookup(pairs, fields[i])->0),
        ),
    decreases fields.len(),
{
    if fields.len() == 0 {
        assert(Seq::new(fields.len(), |i: int| obj_lookup(pairs, fields[i])->0)
            =~= Seq::<JVal>::empty());
    } else {
        assert(forall|j: int|
            0 <= j < fields.skip(1).len() ==> obj_lookup(pairs, #[trigger] fields.skip(1)[j])
                is Some) by {
            assert(forall|j: int|
                0 <= j < fields.skip(1).len() ==> fields.skip(1)[j] == fields[j + 1]);
        }
        lemma_extract_all_present(pairs, fields.skip(1));
        assert(seq![obj_lookup(pairs, fields[0])->0] + Seq::new(
            fields.skip(1).len(),
            |i: int| obj_lookup(pairs, fields.skip(1)[i])->0,
        ) =~= Seq::new(fields.len(), |i: int| obj_lookup(pairs, fields[i])->0));
    }
}

pub proof fn lemma_extract_missing(pairs: Seq<(Seq<char>, JVal)>, fields: Seq<Seq<char>>, i: int)
    requires
        0 <= i < fields.len(),
        obj_lookup(pairs, fields[i]) is None,
    ensures
        ObjectType::spec_extract(pairs, fields) is None,
    decreases i,
{
    if i > 0 && obj_lookup(pairs, fields[0]) is Some {
        lemma_extract_missing(pairs, fields.skip(1), i - 1);
    }
}

impl TypeDescriptor for ObjectType {
    type Value = Vec<Json>;

    open spec fn spec_name(&self) -> Seq<char> {
        self.canonical_name@
    }

    open spec fn spec_schema(&self) -> SchemaRefV {
        match self.schema_name {
            Some(n) => SchemaRefV::Reference(n@),
            None => SchemaRefV::Inline(Self::spec_inline_schema()),
        }
    }

    open spec fn spec_valid(&self, p: Seq<JVal>) -> bool {
        p.len() == self.fields@.len()
    }

    open spec fn spec_named_schemas(&self) -> Set<Seq<char>> {
        match self.schema_name {
            Some(n) => Set::empty().insert(n@),
            None => Set::empty(),
        }
    }

    open spec fn spec_decode(&self, v: JVal) -> Result<Seq<JVal>, ParseErrView> {
        match v {
            JVal::Obj(pairs) => match Self::spec_extract(pairs, self.spec_fields()) {
                Some(vals) => Ok(vals),
                None => Err(ParseErrView::ExpectedType(v)),
            },
            _ => Err(ParseErrView::ExpectedType(v)),
        }
    }

    open spec fn spec_encode(&self, p: Seq<JVal>) -> JVal {
        JVal::Obj(Seq::new(self.fields@.len(), |i: int| (self.spec_fields()[i], p[i])))
    }

    fn name(&self) -> (r: String) {
        self.canonical_name.clone()
    }

    fn schema_ref(&self) -> (r: SchemaRef) {
        match &self.schema_name {
            Some(n) => SchemaRef::Reference(n.clone()),
            None => {
                let c = SchemaComponent::new("object".to_owned());
                SchemaRef::Inline(Box::new(c))
            },
        }
    }

    #[verifier::loop_isolation(false)]
    fn decode(&self, v: Json) -> (r: Result<Vec<Json>, ParseError>) {
        let pairs = match &v {
            Json::Obj(pairs) => pairs,
            _ => {
                return Err(ParseError::ExpectedType(v));
            },
        };
        proof {
            lemma_obj_view(*pairs);
        }
        let n = self.fields.len();
        let mut vals: Vec<Json> = Vec::new();
        let mut k: usize = 0;
        while k < n
            invariant
                k <= n,
                vals@.len() == k as int,
                forall|j: int|
                    0 <= j < k as int ==> obj_lookup(pairs_view(pairs@), #[trigger] self.spec_fields()[j])
                        == Some(vals@[j]@),
            decreases n - k,
        {
            match obj_get(pairs, &self.fields[k]) {
                Some(jv) => {
                    vals.push(jv.clone());
                },
                None => {
                    proof {
                        lemma_extract_missing(pairs_view(pairs@), self.spec_fields(), k as int);
                    }
                    return Err(ParseError::ExpectedType(v));
                },
            }
            k += 1;
        }
        proof {
            lemma_extract_all_present(pairs_view(pairs@), self.spec_fields());
            assert(vals.deep_view() =~= Seq::new(
                self.spec_fields().len(),
                |i: int| obj_lookup(pairs_view(pairs@), self.spec_fields()[i])->0,
            ));
        }
        Ok(vals)
    }

    #[verifier::loop_isolation(false)]
    fn encode(&self, p: &Vec<Json>) -> (r: Json) {
        let n = self.fields.len();
        let mut pairs: Vec<(String, Json)> = Vec::new();
        let mut k: usize = 0;
        while k < n
            invariant
                k <= n,
                pairs@.len() == k as int,
                forall|j: int|
                    0 <= j < k as int ==> pairs@[j].0@ == self.spec_fields()[j] && pairs@[j].1@
                        == p.deep_view()[j],
            decreases n - k,
        {
            pairs.push((self.fields[k].clone(), p[k].clone()));
            k += 1;
        }
        proof {
            lemma_obj_view(pairs);
            assert(pairs_view(pairs@) =~= Seq::new(
                self.fields@.len(),
                |i: int| (self.spec_fields()[i], p.deep_view()[i]),
            ));
        }
        Json::Obj(pairs)
    }

    fn register(&self, registry: &mut Registry) {
        match &self.schema_name {
            Some(n) => {
                let c = SchemaComponent::new("object".to_owned());
                registry.register(n.clone(), c);
            },
            None => (),
        }
    }
}

} // verus!
