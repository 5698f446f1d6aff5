//! The library's own shape for raw wire JSON: what the decoder reads and
//! what context serialization produces. A wire number carries the two
//! readings a JSON number offers — as a signed integer and as the bit
//! pattern of a double — each absent when that reading does not exist.
use crate::confidence_value::ValueModel;
use vstd::prelude::*;

verus! {

broadcast use vstd::std_specs::vec::group_vec_axioms, vstd::seq::group_seq_axioms;

/// A JSON number, by its two possible readings. A reading is `None` when
/// the number cannot be read that way.
#[derive(Debug)]
pub struct WireNumber {
    /// The number read as a signed 64-bit integer, if it is one.
    pub as_int: Option<i64>,
    /// The IEEE 754 bit pattern of the number read as a double, if known.
    pub as_double_bits: Option<u64>,
}

/// A raw wire JSON value.
#[derive(Debug)]
pub enum WireValue {
    Null,
    Bool(bool),
    Number(WireNumber),
    String(String),
    Array(Vec<WireValue>),
    Object(Vec<(String, WireValue)>),
}

/// The position of the first field of the given name in a wire object;
/// the number of fields when there is none.
pub open spec fn wire_first_index(fields: Seq<(String, WireValue)>, key: Seq<char>) -> int
    decreases fields,
{
    if fields.len() == 0 {
        0
    } else if fields[0].0@ == key {
        0
    } else {
        1 + wire_first_index(fields.drop_first(), key)
    }
}

/// What [`wire_first_index`] finds: a position within bounds carries the
/// name, everything before it does not.
pub proof fn lemma_wire_first_index(fields: Seq<(String, WireValue)>, key: Seq<char>)
    ensures
        0 <= wire_first_index(fields, key) <= fields.len(),
        wire_first_index(fields, key) < fields.len() ==> fields[wire_first_index(
            fields,
            key,
        )].0@ == key,
        forall|j: int| 0 <= j < wire_first_index(fields, key) ==> fields[j].0@ != key,
    decreases fields,
{
    if fields.len() > 0 && fields[0].0@ != key {
        lemma_wire_first_index(fields.drop_first(), key);
        let rest = fields.drop_first();
        assert forall|j: int| 0 <= j < wire_first_index(fields, key) implies fields[j].0@
            != key by {
            if j > 0 {
                assert(rest[j - 1] == fields[j]);
                assert(rest[j - 1].0@ != key);
            }
        }
    }
}

/// The first field of the given name in a wire object, if any.
pub open spec fn wire_lookup(fields: Seq<(String, WireValue)>, key: Seq<char>) -> Option<
    WireValue,
> {
    let i = wire_first_index(fields, key);
    if i < fields.len() {
        Some(fields[i].1)
    } else {
        None
    }
}

/// Well-formedness of a wire value: every object reached from it has
/// unique field names, as a JSON object does.
pub open spec fn wire_wf(w: WireValue) -> bool
    decreases w,
{
    match w {
        WireValue::Array(items) => wire_items_wf(items@),
        WireValue::Object(fs) => wire_keys_unique(fs@) && wire_fields_wf(fs@),
        _ => true,
    }
}

/// Well-formedness of every value in a sequence of wire values.
pub open spec fn wire_items_wf(items: Seq<WireValue>) -> bool
    decreases items,
{
    items.len() == 0 || (wire_items_wf(items.drop_last()) && wire_wf(items.last()))
}

/// Well-formedness of every value in a sequence of wire fields.
pub open spec fn wire_fields_wf(fields: Seq<(String, WireValue)>) -> bool
    decreases fields,
{
    fields.len() == 0 || (wire_fields_wf(fields.drop_last()) && wire_wf(fields.last().1))
}

/// No two wire fields share a name.
pub open spec fn wire_keys_unique(fields: Seq<(String, WireValue)>) -> bool {
    forall|i: int, j: int| 0 <= i < j < fields.len() ==> fields[i].0@ != fields[j].0@
}

/// Wire field values at every index are well-formed when the sequence is.
pub proof fn lemma_wire_fields_wf_index(fields: Seq<(String, WireValue)>, i: int)
    requires
        wire_fields_wf(fields),
        0 <= i < fields.len(),
    ensures
        wire_wf(fields[i].1),
    decreases fields,
{
    if i < fields.len() - 1 {
        assert(fields.drop_last()[i] == fields[i]);
        lemma_wire_fields_wf_index(fields.drop_last(), i);
    }
}

/// Whether a wire value is a faithful rendering of a value model: every
/// reading the decoder may take from the wire value yields the model
/// back, and a rendered object carries exactly the model's fields, each
/// name once.
pub open spec fn wire_models(w: WireValue, m: ValueModel) -> bool
    decreases m,
{
    match m {
        ValueModel::Bool(b) => w == WireValue::Bool(b),
        ValueModel::Int(i) => w matches WireValue::Number(n) && n.as_int == Some(i),
        ValueModel::Float(bits) => w matches WireValue::Number(n) && n.as_double_bits == Some(
            bits,
        ),
        ValueModel::Str(s) => w matches WireValue::String(ws) && ws@ == s,
        ValueModel::Array(ms) => w matches WireValue::Array(ws) && ws@.len() == ms.len()
            && (forall|i: int| 0 <= i < ms.len() ==> wire_models(ws@[i], #[trigger] ms[i])),
        ValueModel::Struct(fm) => w matches WireValue::Object(fs) && wire_keys_unique(fs@) && (
        forall|j: int| 0 <= j < fs@.len() ==> fm.contains_key(#[trigger] fs@[j].0@)) && (forall|
            k: Seq<char>,
        |
            #[trigger] fm.contains_key(k) ==> (wire_lookup(fs@, k) matches Some(v) && wire_models(
                v,
                fm[k],
            ))),
    }
}

/// Whether a wire object's fields render a struct model exactly: each
/// name once, no name beyond the model's, and each model entry found by
/// lookup as a faithful rendering. These are the clauses the struct case
/// of [`wire_models`] asks of an object's fields.
pub open spec fn wire_object_models(
    fs: Seq<(String, WireValue)>,
    fm: Map<Seq<char>, ValueModel>,
) -> bool {
    &&& wire_keys_unique(fs)
    &&& forall|j: int| 0 <= j < fs.len() ==> fm.contains_key(#[trigger] fs[j].0@)
    &&& forall|k: Seq<char>|
        #[trigger] fm.contains_key(k) ==> (wire_lookup(fs, k) matches Some(v) && wire_models(
            v,
            fm[k],
        ))
}

/// Look a field up by name in a wire object's fields.
pub fn wire_object_get<'a>(fields: &'a Vec<(String, WireValue)>, key: &str) -> (r: Option<
    &'a WireValue,
>)
    ensures
        r matches Some(v) ==> wire_lookup(fields@, key@) == Some(*v),
        r is None <==> wire_lookup(fields@, key@) is None,
{
    let owned: String = key.to_owned();
    let n = fields.len();
    for i in 0..n
        invariant
            n == fields@.len(),
            owned@ == key@,
            forall|j: int| 0 <= j < i ==> fields@[j].0@ != key@,
    {
        if fields[i].0 == owned {
            proof {
                lemma_wire_first_index(fields@, key@);
                assert(wire_first_index(fields@, key@) == i);
            }
            return Some(&fields[i].1);
        }
    }
    proof {
        lemma_wire_first_index(fields@, key@);
    }
    None
}

} // verus!
