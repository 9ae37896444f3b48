//! The capability interface of a payload type.
use vstd::prelude::*;

use crate::errors::ParseErrView;
use crate::errors::ParseError;
use crate::json::JVal;
use crate::json::Json;
use crate::schema::Registry;
use crate::schema::SchemaRef;
use crate::schema::SchemaRefV;

verus! {

/// Every payload type wrapped by a case of a discriminated union offers
/// these operations: a canonical name, a schema reference, registration
/// of its named schemas, and a JSON decoder and encoder.  The union never
/// reasons about a payload type's internals; it only dispatches through
/// this interface.
///
/// The spec functions are the implementor's model of itself, over the
/// deep views of its values and documents; the executable operations are
/// bound to them, so everything proved of a union holds for whatever
/// payload types it is declared over.
pub trait TypeDescriptor: Sized {
    /// The typed values this payload type decodes to and encodes from.
    type Value: DeepView;

    /// The canonical name; a case with no explicit tag is tagged with it.
    spec fn spec_name(&self) -> Seq<char>;

    /// Model of this payload type's schema reference.
    spec fn spec_schema(&self) -> SchemaRefV;

    /// The values this payload type stands for; its encoder is only ever
    /// handed one of these, and its decoder only produces them.
    spec fn spec_valid(&self, p: <Self::Value as DeepView>::V) -> bool;

    /// The names of the schema components that registration puts into
    /// the registry.
    spec fn spec_named_schemas(&self) -> Set<Seq<char>>;

    /// Model of the decoder, a total function on JSON document models.
    spec fn spec_decode(&self, v: JVal) -> Result<<Self::Value as DeepView>::V, ParseErrView>;

    /// Model of the encoder.
    spec fn spec_encode(&self, p: <Self::Value as DeepView>::V) -> JVal;

    fn name(&self) -> (r: String)
        ensures
            r@ == self.spec_name(),
    ;

    fn schema_ref(&self) -> (r: SchemaRef)
        ensures
            r@ == self.spec_schema(),
    ;

    fn decode(&self, v: Json) -> (r: Result<Self::Value, ParseError>)
        ensures
            match r {
                Ok(p) => self.spec_decode(v@) == Ok::<_, ParseErrView>(p.deep_view())
                    && self.spec_valid(p.deep_view()),
                Err(e) => self.spec_decode(v@) == Err::<<Self::Value as DeepView>::V, _>(e@),
            },
    ;

    fn encode(&self, p: &Self::Value) -> (r: Json)
        requires
            self.spec_valid(p.deep_view()),
        ensures
            r@ == self.spec_encode(p.deep_view()),
    ;

    /// Put every named schema reachable from this payload type into the
    /// registry; the registry deduplicates by name.
    fn register(&self, registry: &mut Registry)
        requires
            old(registry).wf(),
        ensures
            final(registry).wf(),
            final(registry).extends(*old(registry)),
            forall|n: Seq<char>|
                self.spec_named_schemas().contains(n) ==> final(registry).spec_contains(n),
    ;
}

} // verus!
