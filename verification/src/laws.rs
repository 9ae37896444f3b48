//! The general laws of the derivation, each proved from the models that
//! the executable functions are bound to.
use vstd::prelude::*;

use crate::descriptor::TypeDescriptor;
use crate::errors::ParseErrView;
use crate::json::JVal;
use crate::json::lemma_obj_lookup_after_set;
use crate::json::lemma_obj_lookup_at;
use crate::json::lemma_obj_set_appends;
use crate::json::obj_lookup;
use crate::json::obj_set;
use crate::object_type::ObjectType;
use crate::object_type::lemma_extract_all_present;
use crate::union::CaseDeclaration;
use crate::union::UnionType;
use crate::union::UnionValueV;
use crate::union::first_match;
use crate::union::lemma_first_match_none;
use crate::union::schema_path_prefix;
use crate::union::spec_mapping;

verus! {

broadcast use vstd::std_specs::vec::group_vec_axioms, vstd::seq::group_seq_axioms;

/// Round-trip: decoding an encoded union value gives the value back,
/// provided the payload type itself round-trips.  The case's tag must be
/// the first of its kind, since decoding resolves a tag collision in
/// favour of the earliest declared case; and the payload encoder must
/// produce an object, since only an object can carry the discriminator.
/// The payload round-trip hypothesis speaks of the document with the
/// discriminator bound into it: a payload type tolerates properties it
/// does not know.
pub proof fn lemma_round_trip<D: TypeDescriptor>(
    u: UnionType<D>,
    w: UnionValueV<<D::Value as DeepView>::V>,
)
    requires
        u.wf(),
        0 <= w.case_index < u.num_cases(),
        first_match(u.spec_tags(), u.spec_tags()[w.case_index]) == Some(w.case_index),
        u.spec_payload(w.case_index).spec_encode(w.payload) is Obj,
        u.spec_payload(w.case_index).spec_decode(u.spec_encode(w)) == Ok::<_, ParseErrView>(
            w.payload,
        ),
    ensures
        u.spec_decode(u.spec_encode(w)) == Ok::<_, ParseErrView>(w),
{
    let pairs = u.spec_payload(w.case_index).spec_encode(w.payload)->Obj_0;
    let tag = u.spec_tags()[w.case_index];
    lemma_obj_lookup_after_set(pairs, u.spec_prop(), JVal::Str(tag));
    assert(u.spec_decode(u.spec_encode(w)) == Ok::<_, ParseErrView>(
        UnionValueV { case_index: w.case_index, payload: w.payload },
    ));
    assert(UnionValueV { case_index: w.case_index, payload: w.payload } == w);
}

/// Discriminator presence: whenever the payload encoder produces an
/// object, the union's encoding carries the discriminator property,
/// bound to the case's resolved tag.
pub proof fn lemma_discriminator_presence<D: TypeDescriptor>(
    u: UnionType<D>,
    w: UnionValueV<<D::Value as DeepView>::V>,
)
    requires
        u.wf(),
        0 <= w.case_index < u.num_cases(),
        u.spec_payload(w.case_index).spec_encode(w.payload) is Obj,
    ensures
        u.spec_encode(w) is Obj,
        obj_lookup(u.spec_encode(w)->Obj_0, u.spec_prop()) == Some(
            JVal::Str(u.spec_tags()[w.case_index]),
        ),
{
    let pairs = u.spec_payload(w.case_index).spec_encode(w.payload)->Obj_0;
    lemma_obj_lookup_after_set(pairs, u.spec_prop(), JVal::Str(u.spec_tags()[w.case_index]));
}

/// Tag derivation: a case with an explicit tag is tagged with it,
/// whatever its payload type is named; a case without one is tagged with
/// the payload type's name.
pub proof fn lemma_tag_derivation<D: TypeDescriptor>(c: CaseDeclaration<D>)
    ensures
        c.explicit_tag is Some ==> c.spec_tag() == c.explicit_tag->0@,
        c.explicit_tag is None ==> c.spec_tag() == c.spec_payload().spec_name(),
{
}

/// The entry a case with an explicit tag contributes to the
/// discriminator mapping: its tag, and the reference string of its
/// payload type's schema.
pub open spec fn mapping_entry<D: TypeDescriptor>(c: CaseDeclaration<D>) -> (Seq<char>, Seq<char>) {
    (c.spec_tag(), schema_path_prefix() + c.spec_payload().spec_schema()->Reference_0)
}

/// The explicit-tag cases, in declaration order, each mapped to its
/// mapping entry.
pub open spec fn explicit_case_entries<D: TypeDescriptor>(
    cases: Seq<CaseDeclaration<D>>,
) -> Seq<(Seq<char>, Seq<char>)> {
    cases.filter(|c: CaseDeclaration<D>| c.explicit_tag is Some).map_values(
        |c: CaseDeclaration<D>| mapping_entry(c),
    )
}

/// Mapping completeness: the discriminator mapping holds exactly the
/// explicit-tag cases, none of the implicit ones, in declaration order,
/// each referencing its payload type's schema.
pub proof fn lemma_mapping_completeness<D: TypeDescriptor>(cases: Seq<CaseDeclaration<D>>)
    ensures
        spec_mapping(cases) =~= explicit_case_entries(cases),
    decreases cases.len(),
{
    reveal(Seq::filter);
    if cases.len() == 0 {
        assert(explicit_case_entries(cases) =~= Seq::<(Seq<char>, Seq<char>)>::empty());
    } else {
        lemma_mapping_completeness(cases.drop_last());
        let c = cases.last();
        if c.explicit_tag is Some {
            assert(explicit_case_entries(cases) =~= explicit_case_entries(cases.drop_last()).push(
                mapping_entry(c),
            ));
        } else {
            assert(explicit_case_entries(cases) =~= explicit_case_entries(cases.drop_last()));
        }
    }
}

/// Unknown discriminator: an object whose discriminator value is a
/// string matching no declared tag fails to decode with `ExpectedType`.
pub proof fn lemma_unknown_discriminator<D: TypeDescriptor>(
    u: UnionType<D>,
    pairs: Seq<(Seq<char>, JVal)>,
    s: Seq<char>,
)
    requires
        u.wf(),
        obj_lookup(pairs, u.spec_prop()) == Some(JVal::Str(s)),
        forall|i: int| 0 <= i < u.spec_tags().len() ==> u.spec_tags()[i] != s,
    ensures
        u.spec_decode(JVal::Obj(pairs)) == Err::<
            UnionValueV<<D::Value as DeepView>::V>,
            ParseErrView,
        >(ParseErrView::ExpectedType(JVal::Obj(pairs))),
{
    lemma_first_match_none(u.spec_tags(), s);
}

/// Missing discriminator: an object without the discriminator property
/// fails to decode with `ExpectedType`.
pub proof fn lemma_missing_discriminator<D: TypeDescriptor>(
    u: UnionType<D>,
    pairs: Seq<(Seq<char>, JVal)>,
)
    requires
        u.wf(),
        obj_lookup(pairs, u.spec_prop()) is None,
    ensures
        u.spec_decode(JVal::Obj(pairs)) == Err::<
            UnionValueV<<D::Value as DeepView>::V>,
            ParseErrView,
        >(ParseErrView::ExpectedType(JVal::Obj(pairs))),
{
}

/// Schema enum ordering: the discriminator property's string-enum schema
/// lists the resolved tags in declaration order, duplicates kept.
pub proof fn lemma_schema_enum_ordering<D: TypeDescriptor>(u: UnionType<D>)
    requires
        u.wf(),
    ensures
        u.schema@.properties.len() == 1,
        u.schema@.properties[0].0 == u.spec_prop(),
        u.schema@.properties[0].1 is Inline,
        u.schema@.properties[0].1->Inline_0.enum_items == u.spec_tags(),
{
}

/// Round-trip, discharged for a union over the library's own payload
/// type: with the case's tag first of its kind, the case's field names
/// distinct and the discriminator property not among them, decoding an
/// encoded value gives the value back, with no hypothesis left open.
pub proof fn lemma_object_union_round_trip(u: UnionType<ObjectType>, w: UnionValueV<Seq<JVal>>)
    requires
        u.wf(),
        0 <= w.case_index < u.num_cases(),
        first_match(u.spec_tags(), u.spec_tags()[w.case_index]) == Some(w.case_index),
        w.payload.len() == u.spec_payload(w.case_index).fields@.len(),
        forall|i: int|
            0 <= i < u.spec_payload(w.case_index).spec_fields().len()
                ==> #[trigger] u.spec_payload(w.case_index).spec_fields()[i] != u.spec_prop(),
        forall|i: int, j: int|
            0 <= i < j < u.spec_payload(w.case_index).spec_fields().len() ==> u.spec_payload(
                w.case_index,
            ).spec_fields()[i] != u.spec_payload(w.case_index).spec_fields()[j],
    ensures
        u.spec_decode(u.spec_encode(w)) == Ok::<_, ParseErrView>(w),
{
    let t = u.spec_payload(w.case_index);
    let tag = u.spec_tags()[w.case_index];
    lemma_object_tolerant_round_trip(t, w.payload, u.spec_prop(), JVal::Str(tag));
    lemma_round_trip(u, w);
}

/// A plain object payload type round-trips through a document that also
/// carries one property it does not know, such as the discriminator:
/// with distinct field names, none of them that extra key, decoding its
/// encoding with the key bound in recovers the value.
pub proof fn lemma_object_tolerant_round_trip(
    t: ObjectType,
    p: Seq<JVal>,
    key: Seq<char>,
    val: JVal,
)
    requires
        p.len() == t.fields@.len(),
        forall|i: int| 0 <= i < t.spec_fields().len() ==> #[trigger] t.spec_fields()[i] != key,
        forall|i: int, j: int|
            0 <= i < j < t.spec_fields().len() ==> t.spec_fields()[i] != t.spec_fields()[j],
    ensures
        t.spec_decode(JVal::Obj(obj_set(t.spec_encode(p)->Obj_0, key, val))) == Ok::<
            _,
            ParseErrView,
        >(p),
{
    let enc = t.spec_encode(p)->Obj_0;
    assert(forall|j: int| 0 <= j < enc.len() ==> (#[trigger] enc[j]).0 == t.spec_fields()[j]);
    lemma_obj_set_appends(enc, key, val);
    let stamped = obj_set(enc, key, val);
    assert(stamped =~= enc.push((key, val)));
    assert forall|j: int| 0 <= j < t.spec_fields().len() implies obj_lookup(
        stamped,
        #[trigger] t.spec_fields()[j],
    ) == Some(p[j]) by {
        lemma_obj_lookup_at(stamped, t.spec_fields()[j], j);
    }
    lemma_extract_all_present(stamped, t.spec_fields());
    assert(Seq::new(t.spec_fields().len(), |i: int| obj_lookup(stamped, t.spec_fields()[i])->0)
        =~= p);
}

} // verus!
