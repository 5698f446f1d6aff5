//! The tagged value model: any flag value or context value, plus its struct
//! container. Double-precision numbers are carried as their IEEE 754 bit
//! pattern (a `u64`), so that the model stays within verifiable types.
use vstd::prelude::*;

verus! {

broadcast use vstd::std_specs::vec::group_vec_axioms, vstd::seq::group_seq_axioms;

/// Mathematical model of a [`ConfidenceValue`]: strings become sequences of
/// characters and struct containers become maps from field name to model,
/// so that insertion order is irrelevant in contracts.
pub enum ValueModel {
    Bool(bool),
    Int(i64),
    Float(u64),
    Str(Seq<char>),
    Array(Seq<ValueModel>),
    Struct(Map<Seq<char>, ValueModel>),
}

/// Hold a value in the evaluation result of supported types.
#[derive(Debug)]
pub enum ConfidenceValue {
    Bool(bool),
    Int(i64),
    /// A double-precision number, carried as its IEEE 754 bit pattern.
    Float(u64),
    String(String),
    Array(Vec<ConfidenceValue>),
    Struct(StructValue),
}

/// A struct container: field names mapped to values, with unique names when
/// well-formed.
#[derive(Debug)]
pub struct StructValue {
    /// The fields of the struct as key-value pairs.
    pub fields: Vec<(String, ConfidenceValue)>,
}

impl ConfidenceValue {
    /// The mathematical model of this value.
    pub open spec fn model(self) -> ValueModel
        decreases self,
    {
        match self {
            ConfidenceValue::Bool(b) => ValueModel::Bool(b),
            ConfidenceValue::Int(i) => ValueModel::Int(i),
            ConfidenceValue::Float(bits) => ValueModel::Float(bits),
            ConfidenceValue::String(s) => ValueModel::Str(s@),
            ConfidenceValue::Array(items) => ValueModel::Array(items_model(items@)),
            ConfidenceValue::Struct(s) => ValueModel::Struct(fields_model(s.fields@)),
        }
    }

    /// Well-formedness: every struct container reached from this value has
    /// unique field names.
    pub open spec fn wf(self) -> bool
        decreases self,
    {
        match self {
            ConfidenceValue::Array(items) => items_wf(items@),
            ConfidenceValue::Struct(s) => s.wf(),
            _ => true,
        }
    }
}

/// The models of a sequence of values, element by element.
pub open spec fn items_model(items: Seq<ConfidenceValue>) -> Seq<ValueModel>
    decreases items,
{
    if items.len() == 0 {
        Seq::empty()
    } else {
        items_model(items.drop_last()).push(items.last().model())
    }
}

/// Well-formedness of every value in a sequence.
pub open spec fn items_wf(items: Seq<ConfidenceValue>) -> bool
    decreases items,
{
    items.len() == 0 || (items_wf(items.drop_last()) && items.last().wf())
}

/// The map a sequence of fields stands for; a later entry overrides an
/// earlier one with the same name.
pub open spec fn fields_model(fields: Seq<(String, ConfidenceValue)>) -> Map<Seq<char>, ValueModel>
    decreases fields,
{
    if fields.len() == 0 {
        Map::empty()
    } else {
        fields_model(fields.drop_last()).insert(fields.last().0@, fields.last().1.model())
    }
}

/// Well-formedness of every value in a sequence of fields.
pub open spec fn fields_values_wf(fields: Seq<(String, ConfidenceValue)>) -> bool
    decreases fields,
{
    fields.len() == 0 || (fields_values_wf(fields.drop_last()) && fields.last().1.wf())
}

/// No two fields share a name.
pub open spec fn keys_unique(fields: Seq<(String, ConfidenceValue)>) -> bool {
    forall|i: int, j: int| 0 <= i < j < fields.len() ==> fields[i].0@ != fields[j].0@
}

/// The model of a sequence of values has one entry per value, in place.
pub proof fn lemma_items_model_index(items: Seq<ConfidenceValue>)
    ensures
        items_model(items).len() == items.len(),
        forall|i: int|
            0 <= i < items.len() ==> items_model(items)[i] == (#[trigger] items[i]).model(),
    decreases items,
{
    if items.len() > 0 {
        lemma_items_model_index(items.drop_last());
        assert forall|i: int|
            0 <= i < items.len() implies items_model(items)[i] == (
        #[trigger] items[i]).model() by {
            if i < items.len() - 1 {
                assert(items.drop_last()[i] == items[i]);
            } else {
                assert(items.last() == items[i]);
            }
        }
    }
}

/// A field name is in the model's domain exactly when some field carries it.
pub proof fn lemma_fields_model_dom(fields: Seq<(String, ConfidenceValue)>, k: Seq<char>)
    ensures
        fields_model(fields).contains_key(k) <==> (exists|i: int|
            0 <= i < fields.len() && fields[i].0@ == k),
    decreases fields,
{
    if fields.len() > 0 {
        lemma_fields_model_dom(fields.drop_last(), k);
        if fields.last().0@ != k {
            if exists|i: int| 0 <= i < fields.len() && fields[i].0@ == k {
                let i = choose|i: int| 0 <= i < fields.len() && fields[i].0@ == k;
                assert(fields.drop_last()[i] == fields[i]);
            }
        }
    }
}

/// The final field of a given name is what the model assigns that name.
pub proof fn lemma_fields_model_last(fields: Seq<(String, ConfidenceValue)>, i: int)
    requires
        0 <= i < fields.len(),
        forall|j: int| i < j < fields.len() ==> fields[j].0@ != fields[i].0@,
    ensures
        fields_model(fields).contains_key(fields[i].0@),
        fields_model(fields)[fields[i].0@] == fields[i].1.model(),
    decreases fields,
{
    if i < fields.len() - 1 {
        assert(fields.drop_last()[i] == fields[i]);
        assert(forall|j: int|
            i < j < fields.len() - 1 ==> #[trigger] fields.drop_last()[j].0@ == fields[j].0@);
        lemma_fields_model_last(fields.drop_last(), i);
        assert(fields.last().0@ != fields[i].0@);
    }
}

/// With unique names, each field's value is what the model assigns its name.
pub proof fn lemma_fields_model_index(fields: Seq<(String, ConfidenceValue)>, i: int)
    requires
        keys_unique(fields),
        0 <= i < fields.len(),
    ensures
        fields_model(fields).contains_key(fields[i].0@),
        fields_model(fields)[fields[i].0@] == fields[i].1.model(),
    decreases fields,
{
    if i < fields.len() - 1 {
        assert(fields.drop_last()[i] == fields[i]);
        lemma_fields_model_index(fields.drop_last(), i);
        assert(fields[i].0@ != fields.last().0@);
    }
}

/// Values at every index are well-formed when the sequence is.
pub proof fn lemma_items_wf_index(items: Seq<ConfidenceValue>, i: int)
    requires
        items_wf(items),
        0 <= i < items.len(),
    ensures
        items[i].wf(),
    decreases items,
{
    if i < items.len() - 1 {
        assert(items.drop_last()[i] == items[i]);
        lemma_items_wf_index(items.drop_last(), i);
    }
}

/// Field values at every index are well-formed when the sequence is.
pub proof fn lemma_fields_values_wf_index(fields: Seq<(String, ConfidenceValue)>, i: int)
    requires
        fields_values_wf(fields),
        0 <= i < fields.len(),
    ensures
        fields[i].1.wf(),
    decreases fields,
{
    if i < fields.len() - 1 {
        assert(fields.drop_last()[i] == fields[i]);
        lemma_fields_values_wf_index(fields.drop_last(), i);
    }
}

/// Replacing the final field of a given name by one with the same name
/// updates the model at that name alone.
pub proof fn lemma_fields_model_update(
    fields: Seq<(String, ConfidenceValue)>,
    i: int,
    p: (String, ConfidenceValue),
)
    requires
        0 <= i < fields.len(),
        fields[i].0@ == p.0@,
        forall|j: int| i < j < fields.len() ==> fields[j].0@ != p.0@,
    ensures
        fields_model(fields.update(i, p)) == fields_model(fields).insert(p.0@, p.1.model()),
    decreases fields,
{
    let updated = fields.update(i, p);
    if i == fields.len() - 1 {
        assert(updated.drop_last() =~= fields.drop_last());
        assert(updated.last() == p);
        assert(fields_model(updated) =~= fields_model(fields).insert(p.0@, p.1.model()));
    } else {
        assert(updated.drop_last() =~= fields.drop_last().update(i, p));
        assert(fields.drop_last()[i] == fields[i]);
        assert(forall|j: int|
            i < j < fields.len() - 1 ==> #[trigger] fields.drop_last()[j].0@ == fields[j].0@);
        lemma_fields_model_update(fields.drop_last(), i, p);
        assert(updated.last() == fields.last());
        assert(fields.last().0@ != p.0@);
        assert(fields_model(updated) =~= fields_model(fields).insert(p.0@, p.1.model()));
    }
}

/// Replacing a field by a well-formed one keeps the field values
/// well-formed.
pub proof fn lemma_update_values_wf(
    fields: Seq<(String, ConfidenceValue)>,
    i: int,
    p: (String, ConfidenceValue),
)
    requires
        fields_values_wf(fields),
        0 <= i < fields.len(),
        p.1.wf(),
    ensures
        fields_values_wf(fields.update(i, p)),
    decreases fields,
{
    let updated = fields.update(i, p);
    if i == fields.len() - 1 {
        assert(updated.drop_last() =~= fields.drop_last());
        assert(updated.last() == p);
    } else {
        assert(updated.drop_last() =~= fields.drop_last().update(i, p));
        lemma_update_values_wf(fields.drop_last(), i, p);
        assert(updated.last() == fields.last());
    }
}

impl ConfidenceValue {
    /// Return `true` if this is a bool value.
    pub fn is_bool(&self) -> (r: bool)
        ensures
            r == (self.model() is Bool),
    {
        matches!(self, ConfidenceValue::Bool(_))
    }

    /// Try to convert `self` to bool.
    pub fn as_bool(&self) -> (r: Option<bool>)
        ensures
            r matches Some(b) ==> self.model() == ValueModel::Bool(b),
            r is Some <==> self.model() is Bool,
    {
        match self {
            ConfidenceValue::Bool(value) => Some(*value),
            _ => None,
        }
    }

    /// Return `true` if this is an int value.
    pub fn is_i64(&self) -> (r: bool)
        ensures
            r == (self.model() is Int),
    {
        matches!(self, ConfidenceValue::Int(_))
    }

    /// Try to convert `self` to int.
    pub fn as_i64(&self) -> (r: Option<i64>)
        ensures
            r matches Some(i) ==> self.model() == ValueModel::Int(i),
            r is Some <==> self.model() is Int,
    {
        match self {
            ConfidenceValue::Int(value) => Some(*value),
            _ => None,
        }
    }

    /// Return `true` if this is a double-precision value.
    pub fn is_f64(&self) -> (r: bool)
        ensures
            r == (self.model() is Float),
    {
        matches!(self, ConfidenceValue::Float(_))
    }

    /// Try to convert `self` to the bit pattern of its double-precision
    /// value.
    pub fn as_f64(&self) -> (r: Option<u64>)
        ensures
            r matches Some(bits) ==> self.model() == ValueModel::Float(bits),
            r is Some <==> self.model() is Float,
    {
        match self {
            ConfidenceValue::Float(value) => Some(*value),
            _ => None,
        }
    }

    /// Return `true` if this is a string value.
    pub fn is_str(&self) -> (r: bool)
        ensures
            r == (self.model() is Str),
    {
        matches!(self, ConfidenceValue::String(_))
    }

    /// Try to convert `self` to str.
    pub fn as_str(&self) -> (r: Option<&str>)
        ensures
            r matches Some(s) ==> self.model() == ValueModel::Str(s@),
            r is Some <==> self.model() is Str,
    {
        match self {
            ConfidenceValue::String(value) => Some(value.as_str()),
            _ => None,
        }
    }

    /// Return `true` if this is an array.
    pub fn is_array(&self) -> (r: bool)
        ensures
            r == (self.model() is Array),
    {
        matches!(self, ConfidenceValue::Array(_))
    }

    /// Try to convert `self` to vector.
    pub fn as_array(&self) -> (r: Option<&Vec<ConfidenceValue>>)
        ensures
            r matches Some(items) ==> self.model() == ValueModel::Array(items_model(items@)),
            r is Some <==> self.model() is Array,
    {
        match self {
            ConfidenceValue::Array(value) => Some(value),
            _ => None,
        }
    }

    /// Return `true` if this is a struct.
    pub fn is_struct(&self) -> (r: bool)
        ensures
            r == (self.model() is Struct),
    {
        matches!(self, ConfidenceValue::Struct(_))
    }

    /// Try to convert `self` to [`StructValue`].
    pub fn as_struct(&self) -> (r: Option<&StructValue>)
        ensures
            r matches Some(s) ==> self.model() == ValueModel::Struct(s.model()) && (self.wf()
                ==> s.wf()),
            r is Some <==> self.model() is Struct,
    {
        match self {
            ConfidenceValue::Struct(value) => Some(value),
            _ => None,
        }
    }
}

/// Two field sequences whose names, value models and value well-formedness
/// agree pointwise stand for the same map.
pub proof fn lemma_fields_congruence(
    a: Seq<(String, ConfidenceValue)>,
    b: Seq<(String, ConfidenceValue)>,
)
    requires
        a.len() == b.len(),
        forall|j: int| 0 <= j < a.len() ==> #[trigger] a[j].0@ == b[j].0@,
        forall|j: int| 0 <= j < a.len() ==> #[trigger] a[j].1.model() == b[j].1.model(),
        forall|j: int| 0 <= j < a.len() ==> #[trigger] a[j].1.wf() == b[j].1.wf(),
    ensures
        fields_model(a) == fields_model(b),
        fields_values_wf(a) == fields_values_wf(b),
        keys_unique(a) == keys_unique(b),
    decreases a,
{
    if a.len() > 0 {
        let ad = a.drop_last();
        let bd = b.drop_last();
        assert forall|j: int| 0 <= j < ad.len() implies #[trigger] ad[j].0@ == bd[j].0@
            && ad[j].1.model() == bd[j].1.model() && ad[j].1.wf() == bd[j].1.wf() by {
            assert(ad[j] == a[j]);
            assert(bd[j] == b[j]);
        }
        lemma_fields_congruence(ad, bd);
        assert(a.last() == a[a.len() - 1]);
        assert(b.last() == b[a.len() - 1]);
        assert(a[a.len() - 1].0@ == b[a.len() - 1].0@);
        assert(a[a.len() - 1].1.model() == b[a.len() - 1].1.model());
        assert(a[a.len() - 1].1.wf() == b[a.len() - 1].1.wf());
        assert(fields_model(a) == fields_model(b));
        if keys_unique(a) {
            assert forall|i: int, j: int| 0 <= i < j < b.len() implies b[i].0@ != b[j].0@ by {
                assert(a[i].0@ == b[i].0@);
                assert(a[j].0@ == b[j].0@);
            }
        }
        if keys_unique(b) {
            assert forall|i: int, j: int| 0 <= i < j < a.len() implies a[i].0@ != a[j].0@ by {
                assert(a[i].0@ == b[i].0@);
                assert(a[j].0@ == b[j].0@);
            }
        }
    } else {
        assert(a.len() == 0 && b.len() == 0);
    }
}

impl Clone for ConfidenceValue {
    /// A deep copy with the same model and the same well-formedness.
    fn clone(&self) -> (r: Self)
        ensures
            r.model() == self.model(),
            r.wf() == self.wf(),
        decreases self,
    {
        match self {
            ConfidenceValue::Bool(b) => ConfidenceValue::Bool(*b),
            ConfidenceValue::Int(i) => ConfidenceValue::Int(*i),
            ConfidenceValue::Float(bits) => ConfidenceValue::Float(*bits),
            ConfidenceValue::String(s) => ConfidenceValue::String(s.clone()),
            ConfidenceValue::Array(items) => {
                let n = items.len();
                let mut out: Vec<ConfidenceValue> = Vec::new();
                for idx in 0..n
                    invariant
                        *self == ConfidenceValue::Array(*items),
                        n == items@.len(),
                        out@.len() == idx,
                        items_model(out@) == items_model(items@.subrange(0, idx as int)),
                        items_wf(out@) == items_wf(items@.subrange(0, idx as int)),
                    decreases n - idx,
                {
                    proof {
                        assert(decreases_to!(*self => self->Array_0));
                        assert(decreases_to!(self->Array_0 => self->Array_0@));
                        assert(decreases_to!(self->Array_0@ => self->Array_0@[idx as int]));
                        assert(self->Array_0@[idx as int] == items@[idx as int]);
                        assert(decreases_to!(*self => items@[idx as int]));
                    }
                    let cloned = items[idx].clone();
                    proof {
                        let pre = items@.subrange(0, idx as int);
                        let post = items@.subrange(0, idx + 1 as int);
                        assert(post.drop_last() =~= pre);
                        assert(post.last() == items@[idx as int]);
                        assert(out@.push(cloned).drop_last() =~= out@);
                    }
                    out.push(cloned);
                }
                proof {
                    assert(items@.subrange(0, n as int) =~= items@);
                }
                ConfidenceValue::Array(out)
            },
            ConfidenceValue::Struct(s) => ConfidenceValue::Struct(s.clone()),
        }
    }
}

impl From<bool> for ConfidenceValue {
    fn from(value: bool) -> (r: Self)
        ensures
            r == ConfidenceValue::Bool(value),
    {
        ConfidenceValue::Bool(value)
    }
}

impl vstd::std_specs::convert::FromSpecImpl<bool> for ConfidenceValue {
    open spec fn obeys_from_spec() -> bool {
        true
    }

    open spec fn from_spec(value: bool) -> Self {
        ConfidenceValue::Bool(value)
    }
}

impl From<i64> for ConfidenceValue {
    fn from(value: i64) -> (r: Self)
        ensures
            r == ConfidenceValue::Int(value),
    {
        ConfidenceValue::Int(value)
    }
}

impl vstd::std_specs::convert::FromSpecImpl<i64> for ConfidenceValue {
    open spec fn obeys_from_spec() -> bool {
        true
    }

    open spec fn from_spec(value: i64) -> Self {
        ConfidenceValue::Int(value)
    }
}

impl From<String> for ConfidenceValue {
    fn from(value: String) -> (r: Self)
        ensures
            r == ConfidenceValue::String(value),
    {
        ConfidenceValue::String(value)
    }
}

impl vstd::std_specs::convert::FromSpecImpl<String> for ConfidenceValue {
    open spec fn obeys_from_spec() -> bool {
        true
    }

    open spec fn from_spec(value: String) -> Self {
        ConfidenceValue::String(value)
    }
}

impl From<StructValue> for ConfidenceValue {
    fn from(value: StructValue) -> (r: Self)
        ensures
            r == ConfidenceValue::Struct(value),
    {
        ConfidenceValue::Struct(value)
    }
}

impl vstd::std_specs::convert::FromSpecImpl<StructValue> for ConfidenceValue {
    open spec fn obeys_from_spec() -> bool {
        true
    }

    open spec fn from_spec(value: StructValue) -> Self {
        ConfidenceValue::Struct(value)
    }
}

/// Structural equality of two values: scalars by value, strings by their
/// characters, arrays element by element, struct containers field by
/// field in order.
pub open spec fn value_eq(a: ConfidenceValue, b: ConfidenceValue) -> bool
    decreases a,
{
    match a {
        ConfidenceValue::Bool(x) => b matches ConfidenceValue::Bool(y) && x == y,
        ConfidenceValue::Int(x) => b matches ConfidenceValue::Int(y) && x == y,
        ConfidenceValue::Float(x) => b matches ConfidenceValue::Float(y) && x == y,
        ConfidenceValue::String(x) => b matches ConfidenceValue::String(y) && x@ == y@,
        ConfidenceValue::Array(xs) => b matches ConfidenceValue::Array(ys) && xs@.len()
            == ys@.len() && (forall|i: int|
            0 <= i < xs@.len() ==> value_eq(#[trigger] xs@[i], ys@[i])),
        ConfidenceValue::Struct(x) => b matches ConfidenceValue::Struct(y) && x.fields@.len()
            == y.fields@.len() && (forall|i: int|
            0 <= i < x.fields@.len() ==> (#[trigger] x.fields@[i]).0@ == y.fields@[i].0@
                && value_eq(x.fields@[i].1, y.fields@[i].1)),
    }
}

impl PartialEq for ConfidenceValue {
    fn eq(&self, other: &Self) -> (r: bool) {
        value_eq_exec(self, other)
    }
}

impl vstd::std_specs::cmp::PartialEqSpecImpl for ConfidenceValue {
    open spec fn obeys_eq_spec() -> bool {
        true
    }

    open spec fn eq_spec(&self, other: &Self) -> bool {
        value_eq(*self, *other)
    }
}

impl PartialEq for StructValue {
    fn eq(&self, other: &Self) -> (r: bool) {
        fields_eq_exec(&self.fields, &other.fields)
    }
}

impl vstd::std_specs::cmp::PartialEqSpecImpl for StructValue {
    open spec fn obeys_eq_spec() -> bool {
        true
    }

    open spec fn eq_spec(&self, other: &Self) -> bool {
        value_eq(ConfidenceValue::Struct(*self), ConfidenceValue::Struct(*other))
    }
}

/// Decide structural equality of two values at run time.
fn value_eq_exec(a: &ConfidenceValue, b: &ConfidenceValue) -> (r: bool)
    ensures
        r == value_eq(*a, *b),
    decreases *a,
{
    match a {
        ConfidenceValue::Bool(x) => match b {
            ConfidenceValue::Bool(y) => *x == *y,
            _ => false,
        },
        ConfidenceValue::Int(x) => match b {
            ConfidenceValue::Int(y) => *x == *y,
            _ => false,
        },
        ConfidenceValue::Float(x) => match b {
            ConfidenceValue::Float(y) => *x == *y,
            _ => false,
        },
        ConfidenceValue::String(x) => match b {
            ConfidenceValue::String(y) => *x == *y,
            _ => false,
        },
        ConfidenceValue::Array(xs) => match b {
            ConfidenceValue::Array(ys) => {
                if xs.len() != ys.len() {
                    return false;
                }
                let n = xs.len();
                for i in 0..n
                    invariant
                        *a == ConfidenceValue::Array(*xs),
                        *b == ConfidenceValue::Array(*ys),
                        n == xs@.len() && n == ys@.len(),
                        forall|j: int| 0 <= j < i ==> value_eq(#[trigger] xs@[j], ys@[j]),
                    decreases n - i,
                {
                    proof {
                        assert(decreases_to!(*a => a->Array_0));
                        assert(decreases_to!(a->Array_0 => a->Array_0@));
                        assert(decreases_to!(a->Array_0@ => a->Array_0@[i as int]));
                        assert(decreases_to!(*a => xs@[i as int]));
                    }
                    if !value_eq_exec(&xs[i], &ys[i]) {
                        return false;
                    }
                }
                true
            },
            _ => false,
        },
        ConfidenceValue::Struct(x) => match b {
            ConfidenceValue::Struct(y) => {
                proof {
                    assert(decreases_to!(*a => a->Struct_0));
                    assert(decreases_to!(a->Struct_0 => a->Struct_0.fields));
                }
                fields_eq_exec(&x.fields, &y.fields)
            },
            _ => false,
        },
    }
}

/// Decide structural equality of two field sequences at run time.
fn fields_eq_exec(
    xs: &Vec<(String, ConfidenceValue)>,
    ys: &Vec<(String, ConfidenceValue)>,
) -> (r: bool)
    ensures
        r == (xs@.len() == ys@.len() && (forall|i: int|
            0 <= i < xs@.len() ==> (#[trigger] xs@[i]).0@ == ys@[i].0@ && value_eq(
                xs@[i].1,
                ys@[i].1,
            ))),
    decreases *xs,
{
    if xs.len() != ys.len() {
        return false;
    }
    let n = xs.len();
    for i in 0..n
        invariant
            n == xs@.len() && n == ys@.len(),
            forall|j: int|
                0 <= j < i ==> (#[trigger] xs@[j]).0@ == ys@[j].0@ && value_eq(
                    xs@[j].1,
                    ys@[j].1,
                ),
        decreases n - i,
    {
        if xs[i].0 != ys[i].0 {
            return false;
        }
        proof {
            assert(decreases_to!(*xs => xs@));
            assert(decreases_to!(xs@ => xs@[i as int]));
            assert(decreases_to!(xs@[i as int] => xs@[i as int].1));
            assert(decreases_to!(*xs => xs@[i as int].1));
        }
        if !value_eq_exec(&xs[i].1, &ys[i].1) {
            return false;
        }
    }
    true
}

impl ConfidenceValue {
    /// Decide well-formedness at run time.
    pub fn is_wf(&self) -> (r: bool)
        ensures
            r == self.wf(),
        decreases *self,
    {
        match self {
            ConfidenceValue::Array(items) => {
                let n = items.len();
                for idx in 0..n
                    invariant
                        *self == ConfidenceValue::Array(*items),
                        n == items@.len(),
                        items_wf(items@.subrange(0, idx as int)),
                    decreases n - idx,
                {
                    proof {
                        assert(decreases_to!(*self => self->Array_0));
                        assert(decreases_to!(self->Array_0 => self->Array_0@));
                        assert(decreases_to!(self->Array_0@ => self->Array_0@[idx as int]));
                        assert(decreases_to!(*self => items@[idx as int]));
                    }
                    let ok = items[idx].is_wf();
                    proof {
                        let pre = items@.subrange(0, idx as int);
                        let post = items@.subrange(0, idx + 1 as int);
                        assert(post.drop_last() =~= pre);
                        assert(post.last() == items@[idx as int]);
                    }
                    if !ok {
                        proof {
                            lemma_items_wf_prefix(items@, idx as int);
                        }
                        return false;
                    }
                }
                proof {
                    assert(items@.subrange(0, n as int) =~= items@);
                }
                true
            },
            ConfidenceValue::Struct(s) => {
                proof {
                    assert(decreases_to!(*self => self->Struct_0));
                }
                s.is_wf()
            },
            _ => true,
        }
    }
}

/// A sequence with a value that is not well-formed is not well-formed.
pub proof fn lemma_items_wf_prefix(items: Seq<ConfidenceValue>, i: int)
    requires
        0 <= i < items.len(),
        !items[i].wf(),
    ensures
        !items_wf(items),
    decreases items,
{
    if i < items.len() - 1 {
        assert(items.drop_last()[i] == items[i]);
        lemma_items_wf_prefix(items.drop_last(), i);
    }
}

/// A field sequence with a value that is not well-formed is not
/// well-formed.
pub proof fn lemma_fields_values_wf_prefix(fields: Seq<(String, ConfidenceValue)>, i: int)
    requires
        0 <= i < fields.len(),
        !fields[i].1.wf(),
    ensures
        !fields_values_wf(fields),
    decreases fields,
{
    if i < fields.len() - 1 {
        assert(fields.drop_last()[i] == fields[i]);
        lemma_fields_values_wf_prefix(fields.drop_last(), i);
    }
}

impl StructValue {
    /// Decide well-formedness at run time.
    pub fn is_wf(&self) -> (r: bool)
        ensures
            r == self.wf(),
        decreases *self,
    {
        let n = self.fields.len();
        for i in 0..n
            invariant
                n == self.fields@.len(),
                forall|a: int, b: int| 0 <= a < b < i ==> self.fields@[a].0@ != self.fields@[b].0@,
                fields_values_wf(self.fields@.subrange(0, i as int)),
            decreases n - i,
        {
            for j in 0..i
                invariant
                    i < n,
                    n == self.fields@.len(),
                    forall|b: int| 0 <= b < j ==> self.fields@[b].0@ != self.fields@[i as int].0@,
                decreases i - j,
            {
                if self.fields[j].0 == self.fields[i].0 {
                    return false;
                }
            }
            proof {
                assert(decreases_to!(*self => self.fields@[i as int].1));
            }
            let ok = self.fields[i].1.is_wf();
            proof {
                let pre = self.fields@.subrange(0, i as int);
                let post = self.fields@.subrange(0, i + 1 as int);
                assert(post.drop_last() =~= pre);
                assert(post.last() == self.fields@[i as int]);
            }
            if !ok {
                proof {
                    lemma_fields_values_wf_prefix(self.fields@, i as int);
                }
                return false;
            }
        }
        proof {
            assert(self.fields@.subrange(0, n as int) =~= self.fields@);
        }
        true
    }
}

impl Clone for StructValue {
    /// A deep copy with the same model and the same well-formedness.
    fn clone(&self) -> (r: Self)
        ensures
            r.model() == self.model(),
            r.wf() == self.wf(),
        decreases self,
    {
        let n = self.fields.len();
        let mut out: Vec<(String, ConfidenceValue)> = Vec::new();
        for idx in 0..n
            invariant
                n == self.fields@.len(),
                out@.len() == idx,
                forall|j: int| 0 <= j < idx ==> #[trigger] out@[j].0@ == self.fields@[j].0@,
                forall|j: int|
                    0 <= j < idx ==> #[trigger] out@[j].1.model() == self.fields@[j].1.model(),
                forall|j: int| 0 <= j < idx ==> #[trigger] out@[j].1.wf() == self.fields@[j].1.wf(),
            decreases n - idx,
        {
            proof {
                assert(decreases_to!(*self => self.fields@[idx as int].1));
            }
            let key = self.fields[idx].0.clone();
            let value = self.fields[idx].1.clone();
            let ghost prev = out@;
            out.push((key, value));
            proof {
                assert forall|j: int| 0 <= j < idx + 1 implies #[trigger] out@[j].0@
                    == self.fields@[j].0@ && out@[j].1.model() == self.fields@[j].1.model()
                    && out@[j].1.wf() == self.fields@[j].1.wf() by {
                    if j < idx {
                        assert(out@[j] == prev[j]);
                    } else {
                        assert(out@[j] == (key, value));
                    }
                }
            }
        }
        proof {
            lemma_fields_congruence(out@, self.fields@);
        }
        StructValue { fields: out }
    }
}

impl View for StructValue {
    type V = Map<Seq<char>, ValueModel>;

    open spec fn view(&self) -> Map<Seq<char>, ValueModel> {
        self.model()
    }
}

impl StructValue {
    /// The mathematical model of this container: a map from field name to
    /// value model.
    pub open spec fn model(self) -> Map<Seq<char>, ValueModel>
        decreases self,
    {
        fields_model(self.fields@)
    }

    /// Well-formedness: unique field names here and in every nested
    /// container.
    pub open spec fn wf(self) -> bool
        decreases self,
    {
        keys_unique(self.fields@) && fields_values_wf(self.fields@)
    }

    /// An empty struct container.
    pub fn new() -> (r: StructValue)
        ensures
            r.model() == Map::<Seq<char>, ValueModel>::empty(),
            r.wf(),
    {
        StructValue { fields: Vec::new() }
    }
}

impl Default for StructValue {
    /// The empty struct container.
    fn default() -> (r: StructValue)
        ensures
            r.model() == Map::<Seq<char>, ValueModel>::empty(),
            r.wf(),
    {
        StructValue { fields: Vec::new() }
    }
}

impl StructValue {

    /// Look a field up by name.
    pub fn get(&self, key: &str) -> (r: Option<&ConfidenceValue>)
        ensures
            r is Some <==> self.model().contains_key(key@),
            (r matches Some(v) ==> v.model() == self.model()[key@]),
            self.wf() ==> (r matches Some(v) ==> v.wf()),
    {
        let owned: String = key.to_owned();
        let mut i = self.fields.len();
        while i > 0
            invariant
                owned@ == key@,
                i <= self.fields.len(),
                forall|j: int| i <= j < self.fields@.len() ==> self.fields@[j].0@ != key@,
            decreases i,
        {
            i = i - 1;
            if self.fields[i].0 == owned {
                proof {
                    lemma_fields_model_last(self.fields@, i as int);
                    if self.wf() {
                        lemma_fields_values_wf_index(self.fields@, i as int);
                    }
                }
                return Some(&self.fields[i].1);
            }
        }
        proof {
            lemma_fields_model_dom(self.fields@, key@);
        }
        None
    }

    /// Append given `key` and `value` to `self` and return it.
    #[must_use]
    pub fn with_field(self, key: &str, value: ConfidenceValue) -> (r: StructValue)
        ensures
            r.model() == self.model().insert(key@, value.model()),
            self.wf() && value.wf() ==> r.wf(),
    {
        let mut updated = self;
        updated.add_field(key, value);
        updated
    }

    /// Append given `key` and `value` to `self` in place, overwriting any
    /// field of the same name.
    pub fn add_field(&mut self, key: &str, value: ConfidenceValue)
        ensures
            final(self).model() == old(self).model().insert(key@, value.model()),
            old(self).wf() && value.wf() ==> final(self).wf(),
    {
        let owned: String = key.to_owned();
        let mut i = self.fields.len();
        while i > 0
            invariant
                owned@ == key@,
                i <= self.fields.len(),
                *self == *old(self),
                forall|j: int| i <= j < self.fields@.len() ==> self.fields@[j].0@ != key@,
            decreases i,
        {
            i = i - 1;
            if self.fields[i].0 == owned {
                proof {
                    lemma_fields_model_update(self.fields@, i as int, (owned, value));
                    if old(self).wf() && value.wf() {
                        lemma_update_values_wf(old(self).fields@, i as int, (owned, value));
                        assert(forall|k: int|
                            0 <= k < old(self).fields@.len() && k != i
                                ==> old(self).fields@.update(i as int, (owned, value))[k].0@
                                    == #[trigger] old(self).fields@[k].0@);
                    }
                }
                self.fields[i] = (owned, value);
                return;
            }
        }
        proof {
            assert(self.fields@.push((owned, value)).drop_last() =~= self.fields@);
            if old(self).wf() && value.wf() {
                assert(fields_values_wf(self.fields@.push((owned, value))));
            }
        }
        self.fields.push((owned, value));
    }
}

} // verus!
