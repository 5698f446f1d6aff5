//! Type coercion between the value model and plain Rust types, and the
//! conversion of values into their wire JSON form.
//!
//! Coercion here is the lenient, inner policy: a variant mismatch yields
//! the caller's default, never an error. The strict, caller-facing policy
//! sits in the flag lookup path alone.
use crate::confidence_value::fields_model;
use crate::confidence_value::items_model;
use crate::confidence_value::keys_unique;
use crate::confidence_value::lemma_fields_model_dom;
use crate::confidence_value::lemma_fields_model_index;
use crate::confidence_value::lemma_fields_values_wf_index;
use crate::confidence_value::lemma_items_model_index;
use crate::confidence_value::lemma_items_wf_index;
use crate::confidence_value::ConfidenceValue;
use crate::confidence_value::StructValue;
use crate::confidence_value::ValueModel;
use crate::wire::lemma_wire_first_index;
use crate::wire::wire_first_index;
use crate::wire::wire_keys_unique;
use crate::wire::wire_models;
use crate::wire::wire_object_models;
use crate::wire::WireNumber;
use crate::wire::WireValue;
use vstd::prelude::*;

verus! {

broadcast use vstd::std_specs::vec::group_vec_axioms, vstd::seq::group_seq_axioms;

/// A plain type a resolved value can be coerced to, leniently: on a
/// variant mismatch the caller's default is returned unchanged.
pub trait TypeConversionTrait: View + Sized {
    /// Whether a value model has the variant this type reads.
    spec fn spec_matches(m: ValueModel) -> bool;

    /// What coercion yields: the value's reading when the variant
    /// matches, the default otherwise.
    spec fn spec_process(m: ValueModel, default: Self::V) -> Self::V;

    /// Coerce `value` to this type, with `default` on variant mismatch.
    fn process(&self, value: &ConfidenceValue, default: &Self) -> (r: Self)
        ensures
            r@ == Self::spec_process(value.model(), default@),
            Self::spec_matches(value.model()) || r@ == default@,
    ;

    /// Whether `value`'s variant matches this type.
    fn matches_type(value: &ConfidenceValue) -> (r: bool)
        ensures
            r == Self::spec_matches(value.model()),
    ;
}

impl TypeConversionTrait for i64 {
    open spec fn spec_matches(m: ValueModel) -> bool {
        m is Int
    }

    open spec fn spec_process(m: ValueModel, default: i64) -> i64 {
        match m {
            ValueModel::Int(i) => i,
            _ => default,
        }
    }

    fn process(&self, value: &ConfidenceValue, default: &i64) -> (r: i64) {
        match value {
            ConfidenceValue::Int(i) => *i,
            _ => *default,
        }
    }

    fn matches_type(value: &ConfidenceValue) -> (r: bool) {
        value.is_i64()
    }
}

impl TypeConversionTrait for bool {
    open spec fn spec_matches(m: ValueModel) -> bool {
        m is Bool
    }

    open spec fn spec_process(m: ValueModel, default: bool) -> bool {
        match m {
            ValueModel::Bool(b) => b,
            _ => default,
        }
    }

    fn process(&self, value: &ConfidenceValue, default: &bool) -> (r: bool) {
        match value {
            ConfidenceValue::Bool(b) => *b,
            _ => *default,
        }
    }

    fn matches_type(value: &ConfidenceValue) -> (r: bool) {
        value.is_bool()
    }
}

impl TypeConversionTrait for String {
    open spec fn spec_matches(m: ValueModel) -> bool {
        m is Str
    }

    open spec fn spec_process(m: ValueModel, default: Seq<char>) -> Seq<char> {
        match m {
            ValueModel::Str(s) => s,
            _ => default,
        }
    }

    fn process(&self, value: &ConfidenceValue, default: &String) -> (r: String) {
        match value {
            ConfidenceValue::String(s) => s.clone(),
            _ => default.clone(),
        }
    }

    fn matches_type(value: &ConfidenceValue) -> (r: bool) {
        value.is_str()
    }
}

impl TypeConversionTrait for StructValue {
    open spec fn spec_matches(m: ValueModel) -> bool {
        m is Struct
    }

    open spec fn spec_process(m: ValueModel, default: Map<Seq<char>, ValueModel>) -> Map<
        Seq<char>,
        ValueModel,
    > {
        match m {
            ValueModel::Struct(fields) => fields,
            _ => default,
        }
    }

    fn process(&self, value: &ConfidenceValue, default: &StructValue) -> (r: StructValue) {
        match value {
            ConfidenceValue::Struct(s) => s.clone(),
            _ => default.clone(),
        }
    }

    fn matches_type(value: &ConfidenceValue) -> (r: bool) {
        value.is_struct()
    }
}

impl ConfidenceValue {
    /// Coerce `self` to the type of the given default, leniently: the
    /// default comes back unchanged on a variant mismatch.
    pub fn as_type<T: TypeConversionTrait>(&self, default_value: &T) -> (r: Option<T>)
        ensures
            r matches Some(v) && v@ == T::spec_process(self.model(), default_value@),
    {
        Some(default_value.process(self, default_value))
    }
}

/// A capability to render oneself as a wire JSON value.
pub trait ToSerdeValueConverter: Sized {
    /// Whether the value is ready to render (well-formed).
    spec fn wire_ready(self) -> bool;

    /// The model the rendering must be faithful to.
    spec fn rendered_model(self) -> ValueModel;

    /// Render as a wire JSON value.
    fn convert(self) -> (r: WireValue)
        requires
            self.wire_ready(),
        ensures
            wire_models(r, self.rendered_model()),
    ;
}

impl ToSerdeValueConverter for ConfidenceValue {
    open spec fn wire_ready(self) -> bool {
        self.wf()
    }

    open spec fn rendered_model(self) -> ValueModel {
        self.model()
    }

    /// Each variant maps to the corresponding elementary wire JSON type,
    /// recursing through arrays and structs.
    fn convert(self) -> (r: WireValue) {
        to_wire_value(&self)
    }
}

/// Render a value as wire JSON: each variant maps to the corresponding
/// elementary wire JSON type, recursing through arrays and structs.
pub fn to_wire_value(v: &ConfidenceValue) -> (r: WireValue)
    requires
        v.wf(),
    ensures
        wire_models(r, v.model()),
    decreases *v,
{
    match v {
        ConfidenceValue::Bool(b) => WireValue::Bool(*b),
        ConfidenceValue::Int(i) => WireValue::Number(
            WireNumber { as_int: Some(*i), as_double_bits: None },
        ),
        ConfidenceValue::Float(bits) => WireValue::Number(
            WireNumber { as_int: None, as_double_bits: Some(*bits) },
        ),
        ConfidenceValue::String(s) => WireValue::String(s.clone()),
        ConfidenceValue::Array(items) => {
            let n = items.len();
            let mut out: Vec<WireValue> = Vec::new();
            proof {
                lemma_items_model_index(items@);
            }
            for idx in 0..n
                invariant
                    *v == ConfidenceValue::Array(*items),
                    v.wf(),
                    n == items@.len(),
                    out@.len() == idx,
                    items_model(items@).len() == n,
                    forall|j: int|
                        0 <= j < n ==> items_model(items@)[j] == (#[trigger] items@[j]).model(),
                    forall|j: int|
                        0 <= j < idx ==> wire_models(
                            #[trigger] out@[j],
                            items_model(items@)[j],
                        ),
                decreases n - idx,
            {
                proof {
                    lemma_items_wf_index(items@, idx as int);
                    assert(decreases_to!(*v => (*v)->Array_0));
                    assert(decreases_to!((*v)->Array_0 => (*v)->Array_0@));
                    assert(decreases_to!((*v)->Array_0@ => (*v)->Array_0@[idx as int]));
                    assert(decreases_to!(*v => items@[idx as int]));
                }
                let rendered = to_wire_value(&items[idx]);
                let ghost prev = out@;
                out.push(rendered);
                proof {
                    assert(forall|j: int| 0 <= j < idx ==> #[trigger] out@[j] == prev[j]);
                }
            }
            WireValue::Array(out)
        },
        ConfidenceValue::Struct(s) => {
            proof {
                assert(decreases_to!(*v => (*v)->Struct_0));
            }
            WireValue::Object(struct_to_wire_fields(s))
        },
    }
}

/// Render a struct container's fields as a wire JSON object's fields,
/// name for name.
pub fn struct_to_wire_fields(s: &StructValue) -> (r: Vec<(String, WireValue)>)
    requires
        s.wf(),
    ensures
        wire_object_models(r@, s.model()),
    decreases *s,
{
    let n = s.fields.len();
    let mut out: Vec<(String, WireValue)> = Vec::new();
    for i in 0..n
        invariant
            s.wf(),
            n == s.fields@.len(),
            out@.len() == i,
            forall|j: int| 0 <= j < i ==> #[trigger] out@[j].0@ == s.fields@[j].0@,
            forall|j: int|
                0 <= j < i ==> wire_models(#[trigger] out@[j].1, s.fields@[j].1.model()),
        decreases n - i,
    {
        proof {
            lemma_fields_values_wf_index(s.fields@, i as int);
            assert(decreases_to!(*s => s.fields@[i as int].1));
        }
        let key = s.fields[i].0.clone();
        let rendered = to_wire_value(&s.fields[i].1);
        let ghost prev = out@;
        out.push((key, rendered));
        proof {
            assert(forall|j: int| 0 <= j < i ==> #[trigger] out@[j] == prev[j]);
        }
    }
    proof {
        lemma_rendered_fields_model(out@, s.fields@);
    }
    out
}

/// A field-by-field rendering of a struct's fields renders its map model.
proof fn lemma_rendered_fields_model(
    out: Seq<(String, WireValue)>,
    fields: Seq<(String, ConfidenceValue)>,
)
    requires
        keys_unique(fields),
        out.len() == fields.len(),
        forall|j: int| 0 <= j < out.len() ==> #[trigger] out[j].0@ == fields[j].0@,
        forall|j: int|
            0 <= j < out.len() ==> wire_models(#[trigger] out[j].1, fields[j].1.model()),
    ensures
        wire_object_models(out, fields_model(fields)),
{
    let fm = fields_model(fields);
    assert forall|i: int, j: int| 0 <= i < j < out.len() implies out[i].0@ != out[j].0@ by {
        assert(out[i].0@ == fields[i].0@);
        assert(out[j].0@ == fields[j].0@);
    }
    assert forall|j: int| 0 <= j < out.len() implies fm.contains_key(#[trigger] out[j].0@) by {
        lemma_fields_model_index(fields, j);
    }
    assert forall|k: Seq<char>| #[trigger] fm.contains_key(k) implies (wire_lookup_models(
        out,
        k,
        fm[k],
    )) by {
        lemma_fields_model_dom(fields, k);
        let i = choose|i: int| 0 <= i < fields.len() && fields[i].0@ == k;
        lemma_fields_model_index(fields, i);
        assert(fm[k] == fields[i].1.model());
        lemma_wire_first_index(out, k);
        let w = wire_first_index(out, k);
        assert(w < out.len()) by {
            if w > i {
                assert(out[i].0@ == k);
            }
        }
        assert(w == i) by {
            assert(out[w].0@ == fields[w].0@);
            if w < i {
                assert(fields[w].0@ != fields[i].0@);
            } else if w > i {
                assert(out[i].0@ != k);
            }
        }
    }
}

/// The lookup of a name in a wire object finds a faithful rendering of
/// the given model.
pub open spec fn wire_lookup_models(
    fs: Seq<(String, WireValue)>,
    k: Seq<char>,
    m: ValueModel,
) -> bool {
    crate::wire::wire_lookup(fs, k) matches Some(v) && wire_models(v, m)
}

} // verus!
