//! Declaration, resolution, schema building, decoding and encoding of a
//! discriminated union.
use vstd::prelude::*;

use crate::descriptor::TypeDescriptor;
use crate::errors::DeclarationError;
use crate::errors::DefinitionError;
use crate::errors::ParseErrView;
use crate::errors::ParseError;
use crate::errors::SchemaConstructionError;
use crate::json::JVal;
use crate::json::Json;
use crate::json::lemma_obj_view;
use crate::json::obj_get;
use crate::json::obj_lookup;
use crate::json::obj_put;
use crate::json::obj_set;
use crate::json::pairs_view;
use crate::schema::Discriminator;
use crate::schema::DiscriminatorV;
use crate::schema::Registry;
use crate::schema::SchemaComponent;
use crate::schema::SchemaComponentV;
use crate::schema::SchemaRef;
use crate::schema::SchemaRefV;
use crate::schema::opt_str_view;

verus! {

broadcast use vstd::std_specs::vec::group_vec_axioms, vstd::seq::group_seq_axioms;

/// One declared case of a union: an identifier, the payload types the
/// case wraps (a well-formed case wraps exactly one), and an optional
/// explicit discriminator tag overriding the payload type's name.
#[derive(Debug)]
pub struct CaseDeclaration<D> {
    pub case_name: String,
    pub payloads: Vec<D>,
    pub explicit_tag: Option<String>,
}

/// The declarative description of a discriminated union: the single
/// source of truth that drives schema, decoder and encoder alike.
#[derive(Debug)]
pub struct UnionDeclaration<D> {
    pub name: String,
    pub title: Option<String>,
    pub description: Option<String>,
    pub external_docs: Option<String>,
    pub discriminator_property: String,
    pub cases: Vec<CaseDeclaration<D>>,
}

/// A resolved case: its discriminator tag, and whether that tag was
/// declared explicitly rather than derived from the payload type's name.
#[derive(Debug, PartialEq, Eq)]
pub struct ResolvedCase {
    pub tag: String,
    pub has_explicit_tag: bool,
}

impl<D: TypeDescriptor> CaseDeclaration<D> {
    /// The case's payload type; meaningful when the case wraps exactly
    /// one.
    pub open spec fn spec_payload(self) -> D {
        self.payloads@[0]
    }

    /// The resolved tag: the explicit tag when declared, else the
    /// payload type's name.
    pub open spec fn spec_tag(self) -> Seq<char> {
        match self.explicit_tag {
            Some(t) => t@,
            None => self.spec_payload().spec_name(),
        }
    }
}

impl<D: TypeDescriptor> UnionDeclaration<D> {
    /// The discriminator property is named and every case wraps exactly
    /// one payload type.
    pub open spec fn wf(self) -> bool {
        &&& self.discriminator_property@.len() > 0
        &&& forall|i: int| 0 <= i < self.cases@.len() ==> self.cases@[i].payloads@.len() == 1
    }

    /// All resolved tags, in declaration order, duplicates kept.
    pub open spec fn spec_tags(self) -> Seq<Seq<char>> {
        Seq::new(self.cases@.len(), |i: int| self.cases@[i].spec_tag())
    }
}

/// `resolved` is what resolution derives from `cases`: one entry per
/// case, carrying its tag and the origin of that tag.
pub open spec fn resolved_matches<D: TypeDescriptor>(
    cases: Seq<CaseDeclaration<D>>,
    resolved: Seq<ResolvedCase>,
) -> bool {
    &&& resolved.len() == cases.len()
    &&& forall|i: int| 0 <= i < cases.len() ==> resolved[i].tag@ == cases[i].spec_tag()
    &&& forall|i: int|
        0 <= i < cases.len() ==> resolved[i].has_explicit_tag == (cases[i].explicit_tag is Some)
}

/// Walks the declared cases, requiring each to wrap exactly one payload
/// type and computing its discriminator tag.  The first malformed case
/// is reported; no tag-uniqueness check is made.
pub fn resolve<D: TypeDescriptor>(decl: &UnionDeclaration<D>) -> (r: Result<
    Vec<ResolvedCase>,
    DeclarationError,
>)
    ensures
        match r {
            Ok(resolved) => {
                &&& forall|i: int|
                    0 <= i < decl.cases@.len() ==> decl.cases@[i].payloads@.len() == 1
                &&& resolved_matches(decl.cases@, resolved@)
            },
            Err(DeclarationError::InvalidCaseShape(ident)) => exists|i: int|
                {
                    &&& 0 <= i < decl.cases@.len()
                    &&& decl.cases@[i].payloads@.len() != 1
                    &&& ident@ == decl.cases@[i].case_name@
                    &&& forall|j: int| 0 <= j < i ==> #[trigger] decl.cases@[j].payloads@.len() == 1
                },
        },
{
    let mut resolved: Vec<ResolvedCase> = Vec::new();
    let mut k: usize = 0;
    while k < decl.cases.len()
        invariant
            k <= decl.cases.len(),
            resolved@.len() == k as int,
            forall|j: int| 0 <= j < k as int ==> decl.cases@[j].payloads@.len() == 1,
            forall|j: int| 0 <= j < k as int ==> resolved@[j].tag@ == decl.cases@[j].spec_tag(),
            forall|j: int|
                0 <= j < k as int ==> resolved@[j].has_explicit_tag == (decl.cases@[j].explicit_tag
                    is Some),
        decreases decl.cases.len() - k,
    {
        let case = &decl.cases[k];
        if case.payloads.len() != 1 {
            proof {
                let ghost w = k as int;
                assert(decl.cases@[w].payloads@.len() != 1);
            }
            return Err(DeclarationError::InvalidCaseShape(case.case_name.clone()));
        }
        let has_explicit_tag = case.explicit_tag.is_some();
        let tag = match &case.explicit_tag {
            Some(t) => t.clone(),
            None => case.payloads[0].name(),
        };
        resolved.push(ResolvedCase { tag, has_explicit_tag });
        k += 1;
    }
    Ok(resolved)
}

/// The prefix of every reference string in a discriminator mapping.
pub open spec fn schema_path_prefix() -> Seq<char> {
    "#/components/schemas/"@
}

/// The reference string of a named schema component.
fn schema_path(name: &String) -> (r: String)
    ensures
        r@ == schema_path_prefix() + name@,
{
    let r = "#/components/schemas/".to_owned();
    r.concat(name.as_str())
}

/// The discriminator mapping derived from `cases`: one ordered entry per
/// case with an explicit tag, pairing the tag with the reference string
/// of the payload type's schema; a case with an implicit tag contributes
/// nothing.
pub open spec fn spec_mapping<D: TypeDescriptor>(cases: Seq<CaseDeclaration<D>>) -> Seq<
    (Seq<char>, Seq<char>),
>
    decreases cases.len(),
{
    if cases.len() == 0 {
        Seq::empty()
    } else {
        let init = spec_mapping(cases.drop_last());
        let c = cases.last();
        if c.explicit_tag is Some {
            init.push(
                (c.spec_tag(), schema_path_prefix() + c.spec_payload().spec_schema()->Reference_0),
            )
        } else {
            init
        }
    }
}

/// Every case with an explicit tag has a payload whose schema is a named
/// reference, so a mapping entry can be formed for it.
pub open spec fn spec_mapping_ok<D: TypeDescriptor>(cases: Seq<CaseDeclaration<D>>) -> bool {
    forall|i: int|
        0 <= i < cases.len() ==> ((#[trigger] cases[i].explicit_tag) is Some
            ==> cases[i].spec_payload().spec_schema() is Reference)
}

impl<D: TypeDescriptor> UnionDeclaration<D> {
    /// The string-enum schema of the discriminator property: its items
    /// are all resolved tags, in declaration order, duplicates kept.
    pub open spec fn spec_tag_enum_schema(self) -> SchemaComponentV {
        SchemaComponentV {
            schema_type: "string"@,
            title: None,
            description: None,
            external_docs: None,
            one_of: Seq::empty(),
            properties: Seq::empty(),
            enum_items: self.spec_tags(),
            discriminator: None,
        }
    }

    /// Model of the schema component derived from this declaration: the
    /// `oneOf` list of payload schema references in declaration order,
    /// the discriminator property's string-enum schema, the discriminator
    /// object with its mapping, and the documentation fields copied
    /// through.
    pub open spec fn spec_schema(self) -> SchemaComponentV {
        SchemaComponentV {
            schema_type: "object"@,
            title: opt_str_view(self.title),
            description: opt_str_view(self.description),
            external_docs: opt_str_view(self.external_docs),
            one_of: Seq::new(
                self.cases@.len(),
                |i: int| self.cases@[i].spec_payload().spec_schema(),
            ),
            properties: seq![
                (self.discriminator_property@, SchemaRefV::Inline(self.spec_tag_enum_schema())),
            ],
            enum_items: Seq::empty(),
            discriminator: Some(
                DiscriminatorV {
                    property_name: self.discriminator_property@,
                    mapping: spec_mapping(self.cases@),
                },
            ),
        }
    }
}

/// Assembles the discriminated `oneOf` schema component from a
/// declaration and its resolved cases.  It fails exactly when some
/// explicit-tag case has an inline payload schema, since no mapping
/// reference can be formed for it.
#[verifier::loop_isolation(false)]
pub fn build_schema<D: TypeDescriptor>(
    decl: &UnionDeclaration<D>,
    resolved: &Vec<ResolvedCase>,
) -> (r: Result<SchemaComponent, SchemaConstructionError>)
    requires
        decl.wf(),
        resolved_matches(decl.cases@, resolved@),
    ensures
        match r {
            Ok(s) => spec_mapping_ok(decl.cases@) && s@ == decl.spec_schema(),
            Err(SchemaConstructionError::NotAReference) => !spec_mapping_ok(decl.cases@),
        },
{
    let n = decl.cases.len();

    let mut one_of: Vec<SchemaRef> = Vec::new();
    let mut k: usize = 0;
    while k < n
        invariant
            k <= n,
            one_of@.len() == k as int,
            forall|j: int|
                0 <= j < k as int ==> one_of@[j]@ == decl.cases@[j].spec_payload().spec_schema(),
        decreases n - k,
    {
        one_of.push(decl.cases[k].payloads[0].schema_ref());
        k += 1;
    }

    let mut enum_items: Vec<String> = Vec::new();
    let mut k: usize = 0;
    while k < n
        invariant
            k <= n,
            enum_items@.len() == k as int,
            forall|j: int| 0 <= j < k as int ==> enum_items@[j]@ == decl.spec_tags()[j],
        decreases n - k,
    {
        enum_items.push(resolved[k].tag.clone());
        k += 1;
    }

    let mut mapping: Vec<(String, String)> = Vec::new();
    let mut k: usize = 0;
    while k < n
        invariant
            k <= n,
            spec_mapping_ok(decl.cases@.take(k as int)),
            Seq::new(mapping@.len(), |i: int| (mapping@[i].0@, mapping@[i].1@)) =~= spec_mapping(
                decl.cases@.take(k as int),
            ),
        decreases n - k,
    {
        proof {
            assert(decl.cases@.take(k as int + 1).drop_last() =~= decl.cases@.take(k as int));
            assert(decl.cases@.take(k as int + 1).last() == decl.cases@[k as int]);
        }
        if resolved[k].has_explicit_tag {
            match decl.cases[k].payloads[0].schema_ref() {
                SchemaRef::Reference(refname) => {
                    let path = schema_path(&refname);
                    mapping.push((resolved[k].tag.clone(), path));
                },
                SchemaRef::Inline(_) => {
                    proof {
                        let ghost w = k as int;
                        assert(decl.cases@[w].explicit_tag is Some && !(decl.cases@[
                            w
                        ].spec_payload().spec_schema() is Reference));
                    }
                    return Err(SchemaConstructionError::NotAReference);
                },
            }
        }
        k += 1;
    }
    proof {
        assert(decl.cases@.take(n as int) =~= decl.cases@);
    }

    let tag_enum = SchemaComponent {
        schema_type: "string".to_owned(),
        title: None,
        description: None,
        external_docs: None,
        one_of: Vec::new(),
        properties: Vec::new(),
        enum_items,
        discriminator: None,
    };
    proof {
        assert(tag_enum@.one_of =~= Seq::<SchemaRefV>::empty());
        assert(tag_enum@.properties =~= Seq::<(Seq<char>, SchemaRefV)>::empty());
        assert(tag_enum@.enum_items =~= decl.spec_tags());
        assert(tag_enum@ =~= decl.spec_tag_enum_schema());
    }

    let mut properties: Vec<(String, SchemaRef)> = Vec::new();
    properties.push((decl.discriminator_property.clone(), SchemaRef::Inline(Box::new(tag_enum))));

    let title = match &decl.title {
        Some(t) => Some(t.clone()),
        None => None,
    };
    let description = match &decl.description {
        Some(t) => Some(t.clone()),
        None => None,
    };
    let external_docs = match &decl.external_docs {
        Some(t) => Some(t.clone()),
        None => None,
    };

    let s = SchemaComponent {
        schema_type: "object".to_owned(),
        title,
        description,
        external_docs,
        one_of,
        properties,
        enum_items: Vec::new(),
        discriminator: Some(
            Discriminator { property_name: decl.discriminator_property.clone(), mapping },
        ),
    };
    proof {
        assert(s@.one_of =~= decl.spec_schema().one_of);
        assert(s@.properties =~= decl.spec_schema().properties);
        assert(s@.enum_items =~= Seq::<Seq<char>>::empty());
        assert(s@.discriminator->0.mapping =~= spec_mapping(decl.cases@));
        assert(s@.discriminator =~= decl.spec_schema().discriminator);
        assert(s@ =~= decl.spec_schema());
    }
    Ok(s)
}

/// A decoded union value: which case is active, by declaration index,
/// and the payload value it wraps.
#[derive(Debug, PartialEq, Eq)]
pub struct UnionValue<V> {
    pub case_index: usize,
    pub payload: V,
}

/// Model of a union value, over the model of the payload value.
pub struct UnionValueV<M> {
    pub case_index: int,
    pub payload: M,
}

impl<V: DeepView> UnionValue<V> {
    pub open spec fn model(self) -> UnionValueV<<V as DeepView>::V> {
        UnionValueV { case_index: self.case_index as int, payload: self.payload.deep_view() }
    }
}

/// Index of the first tag equal to `dv`, in declaration order; the
/// declaration order is the tie-break when tags collide.
pub open spec fn first_match(tags: Seq<Seq<char>>, dv: Seq<char>) -> Option<int>
    decreases tags.len(),
{
    if tags.len() == 0 {
        None
    } else if tags[0] == dv {
        Some(0int)
    } else {
        match first_match(tags.skip(1), dv) {
            Some(i) => Some(i + 1),
            None => None,
        }
    }
}

pub proof fn lemma_first_match_at(tags: Seq<Seq<char>>, dv: Seq<char>, i: int)
    requires
        0 <= i < tags.len(),
        tags[i] == dv,
        forall|j: int| 0 <= j < i ==> tags[j] != dv,
    ensures
        first_match(tags, dv) == Some(i),
    decreases i,
{
    if i > 0 {
        lemma_first_match_at(tags.skip(1), dv, i - 1);
    }
}

pub proof fn lemma_first_match_none(tags: Seq<Seq<char>>, dv: Seq<char>)
    requires
        forall|j: int| 0 <= j < tags.len() ==> tags[j] != dv,
    ensures
        first_match(tags, dv) is None,
    decreases tags.len(),
{
    if tags.len() > 0 {
        lemma_first_match_none(tags.skip(1), dv);
    }
}

/// A discriminated union type: the declaration together with its derived
/// artifacts, the resolved cases and the schema component, computed once
/// at definition time and immutable afterward.
#[derive(Debug)]
pub struct UnionType<D: TypeDescriptor> {
    pub decl: UnionDeclaration<D>,
    pub resolved: Vec<ResolvedCase>,
    pub schema: SchemaComponent,
}

impl<D: TypeDescriptor> UnionType<D> {
    /// The derived artifacts agree with the declaration.
    pub open spec fn wf(self) -> bool {
        &&& self.decl.wf()
        &&& resolved_matches(self.decl.cases@, self.resolved@)
        &&& spec_mapping_ok(self.decl.cases@)
        &&& self.schema@ == self.decl.spec_schema()
    }

    pub open spec fn spec_prop(self) -> Seq<char> {
        self.decl.discriminator_property@
    }

    pub open spec fn spec_tags(self) -> Seq<Seq<char>> {
        self.decl.spec_tags()
    }

    pub open spec fn spec_payload(self, i: int) -> D {
        self.decl.cases@[i].spec_payload()
    }

    pub open spec fn num_cases(self) -> int {
        self.decl.cases@.len() as int
    }

    /// Model of the union's decoder.  The document must be an object
    /// carrying a string under the discriminator property; the first
    /// case whose tag equals that string decodes the whole document; its
    /// failure is carried through unchanged.  Everything else is an
    /// `ExpectedType` failure.
    pub open spec fn spec_decode(self, v: JVal) -> Result<
        UnionValueV<<D::Value as DeepView>::V>,
        ParseErrView,
    > {
        match v {
            JVal::Obj(pairs) => match obj_lookup(pairs, self.spec_prop()) {
                Some(JVal::Str(s)) => match first_match(self.spec_tags(), s) {
                    Some(i) => match self.spec_payload(i).spec_decode(v) {
                        Ok(p) => Ok(UnionValueV { case_index: i, payload: p }),
                        Err(e) => Err(e),
                    },
                    None => Err(ParseErrView::ExpectedType(v)),
                },
                Some(_) => Err(ParseErrView::ExpectedType(v)),
                None => Err(ParseErrView::ExpectedType(v)),
            },
            _ => Err(ParseErrView::ExpectedType(v)),
        }
    }

    /// Model of the union's encoder.  The active case's payload encoder
    /// runs first; into an object result the discriminator property is
    /// bound to the case's tag, a result of any other shape is passed
    /// through unchanged.
    pub open spec fn spec_encode(self, w: UnionValueV<<D::Value as DeepView>::V>) -> JVal {
        let pj = self.spec_payload(w.case_index).spec_encode(w.payload);
        match pj {
            JVal::Obj(pairs) => JVal::Obj(
                obj_set(pairs, self.spec_prop(), JVal::Str(self.spec_tags()[w.case_index])),
            ),
            _ => pj,
        }
    }

    /// Resolves the declaration and builds the schema component; the
    /// derived artifacts are cached for the lifetime of the union type.
    pub fn new(decl: UnionDeclaration<D>) -> (r: Result<UnionType<D>, DefinitionError>)
        requires
            decl.discriminator_property@.len() > 0,
        ensures
            match r {
                Ok(u) => u.wf() && u.decl == decl,
                Err(DefinitionError::Declaration(DeclarationError::InvalidCaseShape(ident))) => exists|i: int|
                    {
                        &&& 0 <= i < decl.cases@.len()
                        &&& decl.cases@[i].payloads@.len() != 1
                        &&& ident@ == decl.cases@[i].case_name@
                        &&& forall|j: int| 0 <= j < i ==> #[trigger] decl.cases@[j].payloads@.len() == 1
                    },
                Err(DefinitionError::Schema(SchemaConstructionError::NotAReference)) => !spec_mapping_ok(
                    decl.cases@,
                ),
            },
    {
        let resolved = match resolve(&decl) {
            Ok(resolved) => resolved,
            Err(e) => {
                return Err(DefinitionError::Declaration(e));
            },
        };
        let schema = match build_schema(&decl, &resolved) {
            Ok(schema) => schema,
            Err(e) => {
                return Err(DefinitionError::Schema(e));
            },
        };
        Ok(UnionType { decl, resolved, schema })
    }

    /// The derived schema component.
    pub fn schema_component(&self) -> (r: &SchemaComponent)
        requires
            self.wf(),
        ensures
            r@ == self.decl.spec_schema(),
    {
        &self.schema
    }

    /// A union type presents itself as a plain JSON object.
    pub fn name(&self) -> (r: String)
        ensures
            r@ == "object"@,
    {
        "object".to_owned()
    }

    /// Decodes a JSON document into a union value, the executable
    /// counterpart of `spec_decode`.
    #[verifier::loop_isolation(false)]
    pub fn decode(&self, v: Json) -> (r: Result<UnionValue<D::Value>, ParseError>)
        requires
            self.wf(),
        ensures
            match r {
                Ok(w) => {
                    &&& self.spec_decode(v@) == Ok::<_, ParseErrView>(w.model())
                    &&& 0 <= w.model().case_index < self.num_cases()
                    &&& self.spec_payload(w.model().case_index).spec_valid(w.model().payload)
                },
                Err(e) => self.spec_decode(v@) == Err::<
                    UnionValueV<<D::Value as DeepView>::V>,
                    ParseErrView,
                >(e@),
            },
    {
        let pairs = match &v {
            Json::Obj(pairs) => pairs,
            _ => {
                return Err(ParseError::ExpectedType(v));
            },
        };
        proof {
            lemma_obj_view(*pairs);
        }
        let dv = match obj_get(pairs, &self.decl.discriminator_property) {
            Some(dv) => dv,
            None => {
                return Err(ParseError::ExpectedType(v));
            },
        };
        let s = match dv {
            Json::Str(s) => s,
            _ => {
                return Err(ParseError::ExpectedType(v));
            },
        };
        let n = self.resolved.len();
        let mut k: usize = 0;
        while k < n
            invariant
                k <= n,
                forall|j: int| 0 <= j < k as int ==> self.spec_tags()[j] != s@,
            decreases n - k,
        {
            if self.resolved[k].tag == *s {
                proof {
                    lemma_first_match_at(self.spec_tags(), s@, k as int);
                }
                let payload = &self.decl.cases[k].payloads[0];
                return match payload.decode(v) {
                    Ok(p) => Ok(UnionValue { case_index: k, payload: p }),
                    Err(e) => Err(e),
                };
            }
            k += 1;
        }
        proof {
            lemma_first_match_none(self.spec_tags(), s@);
        }
        Err(ParseError::ExpectedType(v))
    }

    /// Encodes a union value into a JSON document, the executable
    /// counterpart of `spec_encode`.
    pub fn encode(&self, w: &UnionValue<D::Value>) -> (r: Json)
        requires
            self.wf(),
            (w.case_index as int) < self.num_cases(),
            self.spec_payload(w.case_index as int).spec_valid(w.payload.deep_view()),
        ensures
            r@ == self.spec_encode(w.model()),
    {
        let payload = &self.decl.cases[w.case_index].payloads[0];
        let pj = payload.encode(&w.payload);
        match pj {
            Json::Obj(mut pairs) => {
                proof {
                    lemma_obj_view(pairs);
                }
                let key = self.decl.discriminator_property.clone();
                let tag = self.resolved[w.case_index].tag.clone();
                obj_put(&mut pairs, key, Json::Str(tag));
                proof {
                    lemma_obj_view(pairs);
                }
                Json::Obj(pairs)
            },
            other => other,
        }
    }

    /// Registers every case's payload type, in declaration order; the
    /// registry deduplicates, so named schemas reachable from this
    /// union end up present exactly once however often this runs.
    #[verifier::loop_isolation(false)]
    pub fn register(&self, registry: &mut Registry)
        requires
            self.wf(),
            old(registry).wf(),
        ensures
            final(registry).wf(),
            final(registry).extends(*old(registry)),
            forall|i: int, n: Seq<char>|
                0 <= i < self.num_cases() && self.spec_payload(i).spec_named_schemas().contains(n)
                    ==> final(registry).spec_contains(n),
    {
        let n = self.decl.cases.len();
        let mut k: usize = 0;
        while k < n
            invariant
                k <= n,
                registry.wf(),
                registry.extends(*old(registry)),
                forall|i: int, m: Seq<char>|
                    0 <= i < k as int && self.spec_payload(i).spec_named_schemas().contains(m)
                        ==> registry.spec_contains(m),
            decreases n - k,
        {
            let ghost prev = *registry;
            self.decl.cases[k].payloads[0].register(registry);
            proof {
                assert(registry.extends(prev));
                assert(registry.extends(*old(registry)));
                assert forall|i: int, m: Seq<char>|
                    0 <= i < k as int + 1 && self.spec_payload(i).spec_named_schemas().contains(
                        m,
                    ) implies registry.spec_contains(m) by {
                    if i < k as int {
                        registry.lemma_extends_preserves_contains(prev, m);
                    }
                }
            }
            k += 1;
        }
    }
}

} // verus!
