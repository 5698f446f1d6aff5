//! Reading a wire `flagSchema` payload into a [`FlagSchema`]: the payload
//! holds one entry whose value maps each declared field to a marker object
//! (`boolSchema`, `intSchema`, `stringSchema`, `doubleSchema`, or
//! `structSchema` with a nested payload); unrecognized fields are skipped.
use crate::models::schema_fields_wf;
use crate::models::schema_keys_unique;
use crate::models::schema_model;
use crate::models::FlagSchema;
use crate::models::SchemaType;
use crate::models::SchemaTypeModel;
use crate::wire::lemma_wire_fields_wf_index;
use crate::wire::lemma_wire_first_index;
use crate::wire::wire_fields_wf;
use crate::wire::wire_first_index;
use crate::wire::wire_keys_unique;
use crate::wire::wire_lookup;
use crate::wire::wire_object_get;
use crate::wire::wire_wf;
use crate::wire::WireValue;
use vstd::prelude::*;

verus! {

broadcast use vstd::std_specs::vec::group_vec_axioms, vstd::seq::group_seq_axioms;

/// The declared type a field's marker object stands for, if its marker is
/// recognized.
pub open spec fn spec_classify(v: WireValue) -> Option<SchemaTypeModel>
    decreases v,
    via spec_classify_decreases
{
    match v {
        WireValue::Object(fs) => if wire_lookup(fs@, "boolSchema"@) is Some {
            Some(SchemaTypeModel::Bool)
        } else if wire_lookup(fs@, "intSchema"@) is Some {
            Some(SchemaTypeModel::Int)
        } else if wire_lookup(fs@, "stringSchema"@) is Some {
            Some(SchemaTypeModel::Str)
        } else if wire_lookup(fs@, "doubleSchema"@) is Some {
            Some(SchemaTypeModel::Double)
        } else {
            let i = wire_first_index(fs@, "structSchema"@);
            if i < fs@.len() && fs@[i].1 is Object {
                Some(SchemaTypeModel::Struct(spec_parse_schema(fs@[i].1)))
            } else {
                None
            }
        },
        _ => None,
    }
}

#[via_fn]
proof fn spec_classify_decreases(v: WireValue) {
    match v {
        WireValue::Object(fs) => {
            lemma_wire_first_index(fs@, "structSchema"@);
        },
        _ => {},
    }
}

/// The schema map a sequence of declared fields stands for: each
/// recognized field by its marker, unrecognized fields skipped.
pub open spec fn spec_parse_fields(fields: Seq<(String, WireValue)>) -> Map<
    Seq<char>,
    SchemaTypeModel,
>
    decreases fields,
{
    if fields.len() == 0 {
        Map::empty()
    } else {
        let rest = spec_parse_fields(fields.drop_last());
        match spec_classify(fields.last().1) {
            Some(tm) => rest.insert(fields.last().0@, tm),
            None => rest,
        }
    }
}

/// The schema map a wire `flagSchema` payload stands for: the declared
/// fields of its first entry's object, empty in every other shape.
pub open spec fn spec_parse_schema(w: WireValue) -> Map<Seq<char>, SchemaTypeModel>
    decreases w,
{
    match w {
        WireValue::Object(entries) => if entries@.len() > 0 {
            match entries@[0].1 {
                WireValue::Object(em) => spec_parse_fields(em@),
                _ => Map::empty(),
            }
        } else {
            Map::empty()
        },
        _ => Map::empty(),
    }
}

/// Read one declared field's marker object.
fn classify_schema_type(v: &WireValue) -> (r: Option<SchemaType>)
    ensures
        r matches Some(t) ==> spec_classify(*v) == Some(t.model()) && (wire_wf(*v) ==> t.wf()),
        r is None <==> spec_classify(*v) is None,
    decreases *v,
{
    match v {
        WireValue::Object(fs) => {
            if wire_object_get(fs, "boolSchema").is_some() {
                Some(SchemaType::BoolType)
            } else if wire_object_get(fs, "intSchema").is_some() {
                Some(SchemaType::IntType)
            } else if wire_object_get(fs, "stringSchema").is_some() {
                Some(SchemaType::StringType)
            } else if wire_object_get(fs, "doubleSchema").is_some() {
                Some(SchemaType::DoubleType)
            } else {
                match wire_object_get(fs, "structSchema") {
                    Some(inner) => match inner {
                        WireValue::Object(_) => {
                            proof {
                                let i = wire_first_index(fs@, "structSchema"@);
                                lemma_wire_first_index(fs@, "structSchema"@);
                                assert(i < fs@.len());
                                assert(*inner == fs@[i].1);
                                if wire_wf(*v) {
                                    assert(wire_fields_wf(fs@));
                                    lemma_wire_fields_wf_index(fs@, i);
                                }
                                assert(decreases_to!(*v => (*v)->Object_0));
                                assert(decreases_to!((*v)->Object_0 => (*v)->Object_0@));
                                assert(decreases_to!((*v)->Object_0@ => (*v)->Object_0@[i]));
                                assert(decreases_to!(*v => fs@[i].1));
                            }
                            let sub = parse_flag_schema(inner);
                            Some(SchemaType::StructType(Box::new(sub)))
                        },
                        _ => None,
                    },
                    None => None,
                }
            }
        },
        _ => None,
    }
}

/// Read a wire `flagSchema` payload into a schema: the declared fields of
/// its first entry's object, each by its marker; unrecognized fields are
/// skipped, and any other payload shape gives the empty schema.
pub fn parse_flag_schema(w: &WireValue) -> (r: FlagSchema)
    ensures
        r.model() == spec_parse_schema(*w),
        wire_wf(*w) ==> r.wf(),
    decreases *w,
{
    let empty = FlagSchema { schema: Vec::new() };
    match w {
        WireValue::Object(entries) => {
            if entries.is_empty() {
                return empty;
            }
            match &entries[0].1 {
                WireValue::Object(em) => {
                    let n = em.len();
                    let mut out: Vec<(String, SchemaType)> = Vec::new();
                    proof {
                        assert(em@.subrange(0, 0) =~= Seq::<(String, WireValue)>::empty());
                    }
                    for i in 0..n
                        invariant
                            *w == WireValue::Object(*entries),
                            entries@.len() > 0,
                            entries@[0].1 == WireValue::Object(*em),
                            n == em@.len(),
                            schema_model(out@) == spec_parse_fields(em@.subrange(0, i as int)),
                            wire_wf(*w) ==> schema_keys_unique(out@),
                            wire_wf(*w) ==> schema_fields_wf(out@),
                            forall|j: int|
                                0 <= j < out@.len() ==> (exists|k: int|
                                    0 <= k < i && #[trigger] out@[j].0@ == em@[k].0@),
                        decreases n - i,
                    {
                        proof {
                            if wire_wf(*w) {
                                assert(wire_keys_unique(entries@) && wire_fields_wf(entries@));
                                lemma_wire_fields_wf_index(entries@, 0);
                                assert(wire_wf(entries@[0].1));
                                assert(wire_keys_unique(em@) && wire_fields_wf(em@));
                                lemma_wire_fields_wf_index(em@, i as int);
                            }
                            assert(decreases_to!(*w => (*w)->Object_0));
                            assert(decreases_to!((*w)->Object_0 => (*w)->Object_0@));
                            assert(decreases_to!((*w)->Object_0@ => (*w)->Object_0@[0]));
                            assert(decreases_to!((*w)->Object_0@[0] => (*w)->Object_0@[0].1));
                            assert(decreases_to!((*w)->Object_0@[0].1 => (*w)->Object_0@[0].1
                                ->Object_0));
                            assert(decreases_to!((*w)->Object_0@[0].1->Object_0 => (*w)
                                ->Object_0@[0].1->Object_0@));
                            assert((*w)->Object_0@[0].1->Object_0@ == em@);
                            assert(decreases_to!(em@ => em@[i as int]));
                            assert(decreases_to!(*w => em@[i as int].1));
                        }
                        let classified = classify_schema_type(&em[i].1);
                        let ghost pre = em@.subrange(0, i as int);
                        let ghost post = em@.subrange(0, i + 1 as int);
                        proof {
                            assert(post.drop_last() =~= pre);
                            assert(post.last() == em@[i as int]);
                        }
                        match classified {
                            Some(t) => {
                                let key = em[i].0.clone();
                                let ghost prev = out@;
                                proof {
                                    assert(out@.push((key, t)).drop_last() =~= out@);
                                    if wire_wf(*w) {
                                        assert forall|j1: int|
                                            0 <= j1 < prev.len() implies prev[j1].0@
                                            != em@[i as int].0@ by {
                                            let k = choose|k: int|
                                                0 <= k < i && #[trigger] prev[j1].0@ == em@[k].0@;
                                            assert(em@[k].0@ != em@[i as int].0@);
                                        }
                                    }
                                }
                                out.push((key, t));
                                proof {
                                    assert forall|j: int|
                                        0 <= j < out@.len() implies (exists|k: int|
                                        0 <= k < i + 1 && #[trigger] out@[j].0@
                                            == em@[k].0@) by {
                                        if j < prev.len() {
                                            assert(out@[j] == prev[j]);
                                            let k = choose|k: int|
                                                0 <= k < i && #[trigger] prev[j].0@ == em@[k].0@;
                                            assert(out@[j].0@ == em@[k].0@);
                                        } else {
                                            assert(out@[j].0@ == em@[i as int].0@);
                                        }
                                    }
                                }
                            },
                            None => {
                            },
                        }
                    }
                    proof {
                        assert(em@.subrange(0, n as int) =~= em@);
                    }
                    FlagSchema { schema: out }
                },
                _ => empty,
            }
        },
        _ => empty,
    }
}

} // verus!
