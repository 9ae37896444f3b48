//! Schema components, schema references, and the deduplicating registry.
use vstd::prelude::*;

verus! {

broadcast use vstd::std_specs::vec::group_vec_axioms, vstd::seq::group_seq_axioms;

/// Model of a schema reference: inline, or a pointer to a named
/// component.
#[verifier::ext_equal]
pub enum SchemaRefV {
    Inline(SchemaComponentV),
    Reference(Seq<char>),
}

/// Model of a schema component.
#[verifier::ext_equal]
pub struct SchemaComponentV {
    pub schema_type: Seq<char>,
    pub title: Option<Seq<char>>,
    pub description: Option<Seq<char>>,
    pub external_docs: Option<Seq<char>>,
    pub one_of: Seq<SchemaRefV>,
    pub properties: Seq<(Seq<char>, SchemaRefV)>,
    pub enum_items: Seq<Seq<char>>,
    pub discriminator: Option<DiscriminatorV>,
}

/// Model of a discriminator object.
#[verifier::ext_equal]
pub struct DiscriminatorV {
    pub property_name: Seq<char>,
    pub mapping: Seq<(Seq<char>, Seq<char>)>,
}

/// A schema reference: an inline component, or the name of a reusable
/// component resolved by downstream consumers.
#[derive(Debug, PartialEq, Eq)]
pub enum SchemaRef {
    Inline(Box<SchemaComponent>),
    Reference(String),
}

/// A schema component, the shape consumed by downstream documentation
/// tooling.
#[derive(Debug, PartialEq, Eq)]
pub struct SchemaComponent {
    pub schema_type: String,
    pub title: Option<String>,
    pub description: Option<String>,
    pub external_docs: Option<String>,
    pub one_of: Vec<SchemaRef>,
    pub properties: Vec<(String, SchemaRef)>,
    pub enum_items: Vec<String>,
    pub discriminator: Option<Discriminator>,
}

/// The discriminator object of a discriminated union schema.
#[derive(Debug, PartialEq, Eq)]
pub struct Discriminator {
    pub property_name: String,
    pub mapping: Vec<(String, String)>,
}

pub open spec fn opt_str_view(o: Option<String>) -> Option<Seq<char>> {
    match o {
        Some(s) => Some(s@),
        None => None,
    }
}

impl View for Discriminator {
    type V = DiscriminatorV;

    open spec fn view(&self) -> DiscriminatorV {
        DiscriminatorV {
            property_name: self.property_name@,
            mapping: Seq::new(
                self.mapping@.len(),
                |i: int| (self.mapping@[i].0@, self.mapping@[i].1@),
            ),
        }
    }
}

impl SchemaRef {
    pub open spec fn sref_model(self) -> SchemaRefV
        decreases self,
    {
        match self {
            SchemaRef::Inline(c) => SchemaRefV::Inline(c.scomp_model()),
            SchemaRef::Reference(n) => SchemaRefV::Reference(n@),
        }
    }
}

impl SchemaComponent {
    pub open spec fn scomp_model(self) -> SchemaComponentV
        decreases self,
    {
        SchemaComponentV {
            schema_type: self.schema_type@,
            title: opt_str_view(self.title),
            description: opt_str_view(self.description),
            external_docs: opt_str_view(self.external_docs),
            one_of: Seq::new(
                self.one_of@.len(),
                |i: int|
                    if 0 <= i < self.one_of@.len() {
                        self.one_of@[i].sref_model()
                    } else {
                        SchemaRefV::Reference(Seq::empty())
                    },
            ),
            properties: Seq::new(
                self.properties@.len(),
                |i: int|
                    if 0 <= i < self.properties@.len() {
                        (self.properties@[i].0@, self.properties@[i].1.sref_model())
                    } else {
                        (Seq::empty(), SchemaRefV::Reference(Seq::empty()))
                    },
            ),
            enum_items: Seq::new(self.enum_items@.len(), |i: int| self.enum_items@[i]@),
            discriminator: match self.discriminator {
                Some(d) => Some(d@),
                None => None,
            },
        }
    }
}

impl View for SchemaRef {
    type V = SchemaRefV;

    open spec fn view(&self) -> SchemaRefV {
        self.sref_model()
    }
}

impl View for SchemaComponent {
    type V = SchemaComponentV;

    open spec fn view(&self) -> SchemaComponentV {
        self.scomp_model()
    }
}

impl SchemaComponent {
    /// A bare component of the given base type, every other field empty.
    pub fn new(schema_type: String) -> (r: SchemaComponent)
        ensures
            r@ == (SchemaComponentV {
                schema_type: schema_type@,
                title: None,
                description: None,
                external_docs: None,
                one_of: Seq::empty(),
                properties: Seq::empty(),
                enum_items: Seq::empty(),
                discriminator: None,
            }),
    {
        let r = SchemaComponent {
            schema_type,
            title: None,
            description: None,
            external_docs: None,
            one_of: Vec::new(),
            properties: Vec::new(),
            enum_items: Vec::new(),
            discriminator: None,
        };
        proof {
            assert(r@.one_of =~= Seq::<SchemaRefV>::empty());
            assert(r@.properties =~= Seq::<(Seq<char>, SchemaRefV)>::empty());
            assert(r@.enum_items =~= Seq::<Seq<char>>::empty());
            assert(r@ =~= (SchemaComponentV {
                schema_type: r.schema_type@,
                title: None,
                description: None,
                external_docs: None,
                one_of: Seq::empty(),
                properties: Seq::empty(),
                enum_items: Seq::empty(),
                discriminator: None,
            }));
        }
        r
    }
}

/// The process-wide deduplicating store of named schema components.
/// Registration is idempotent: the first component registered under a
/// name is kept, a later registration under the same name changes
/// nothing.
pub struct Registry {
    pub entries: Vec<(String, SchemaComponent)>,
}

impl Registry {
    /// No two entries share a name.
    pub open spec fn wf(self) -> bool {
        forall|i: int, j: int|
            0 <= i < j < self.entries@.len() ==> self.entries@[i].0@ != self.entries@[j].0@
    }

    pub open spec fn spec_contains(self, name: Seq<char>) -> bool {
        exists|i: int| 0 <= i < self.entries@.len() && self.entries@[i].0@ == name
    }

    /// Everything registered in `prev` is still registered, unchanged and
    /// in place; registration only appends.
    pub open spec fn extends(self, prev: Registry) -> bool {
        &&& prev.entries@.len() <= self.entries@.len()
        &&& forall|i: int| 0 <= i < prev.entries@.len() ==> self.entries@[i] == prev.entries@[i]
    }

    /// What a registry contains, a later extension of it still contains.
    pub proof fn lemma_extends_preserves_contains(self, prev: Registry, name: Seq<char>)
        requires
            self.extends(prev),
            prev.spec_contains(name),
        ensures
            self.spec_contains(name),
    {
        let i = choose|i: int| 0 <= i < prev.entries@.len() && prev.entries@[i].0@ == name;
        assert(self.entries@[i].0@ == name);
    }

    pub fn new() -> (r: Registry)
        ensures
            r.wf(),
            r.entries@.len() == 0,
    {
        Registry { entries: Vec::new() }
    }

    /// Idempotent insert: a component is stored under `name` only if no
    /// component is registered under that name yet.
    #[verifier::loop_isolation(false)]
    pub fn register(&mut self, name: String, schema: SchemaComponent)
        requires
            old(self).wf(),
        ensures
            final(self).wf(),
            final(self).extends(*old(self)),
            final(self).spec_contains(name@),
            old(self).spec_contains(name@) ==> final(self).entries@ == old(self).entries@,
            !old(self).spec_contains(name@) ==> final(self).entries@ == old(self).entries@.push(
                (name, schema),
            ),
    {
        let mut k: usize = 0;
        while k < self.entries.len()
            invariant
                k <= self.entries.len(),
                self.entries@ == old(self).entries@,
                forall|j: int| 0 <= j < k as int ==> self.entries@[j].0@ != name@,
            decreases self.entries.len() - k,
        {
            if self.entries[k].0 == name {
                proof {
                    assert(self.spec_contains(name@)) by {
                        assert(self.entries@[k as int].0@ == name@);
                    }
                }
                return ;
            }
            k += 1;
        }
        self.entries.push((name, schema));
        proof {
            assert(self.spec_contains(name@)) by {
                assert(self.entries@[self.entries@.len() - 1].0@ == name@);
            }
        }
    }

    /// The component registered under `name`, if any.
    #[verifier::loop_isolation(false)]
    pub fn get<'a>(&'a self, name: &String) -> (r: Option<&'a SchemaComponent>)
        ensures
            r is Some <==> self.spec_contains(name@),
            match r {
                Some(c) => exists|i: int|
                    0 <= i < self.entries@.len() && self.entries@[i].0@ == name@
                        && self.entries@[i].1 == *c,
                None => true,
            },
    {
        let mut k: usize = 0;
        while k < self.entries.len()
            invariant
                k <= self.entries.len(),
                forall|j: int| 0 <= j < k as int ==> self.entries@[j].0@ != name@,
            decreases self.entries.len() - k,
        {
            if self.entries[k].0 == *name {
                return Some(&self.entries[k].1);
            }
            k += 1;
        }
        None
    }
}

} // verus!
