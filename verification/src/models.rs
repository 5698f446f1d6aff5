//! Configuration, wire-level request and response shapes, the flag schema,
//! and the schema-driven decoder from wire JSON into the value model.
use crate::confidence_value::fields_model;
use crate::confidence_value::fields_values_wf;
use crate::confidence_value::keys_unique;
use crate::confidence_value::ConfidenceValue;
use crate::confidence_value::StructValue;
use crate::confidence_value::ValueModel;
use crate::details::EvaluationReason;
use crate::wire::wire_lookup;
use crate::wire::wire_models;
use crate::wire::wire_object_models;
use crate::wire::wire_object_get;
use crate::wire::WireValue;
use vstd::prelude::*;

verus! {

broadcast use vstd::std_specs::vec::group_vec_axioms, vstd::seq::group_seq_axioms;

/// Why a resolve round trip failed.
#[derive(Clone, Copy, PartialEq, Eq, Structural, Debug)]
pub enum ResolveError {
    /// The transport failed or the response was not a success.
    NetworkError,
    /// A request or response body could not be (de)serialized.
    SerializationError,
}

/// What a client needs to reach the resolver service.
pub struct APIConfig {
    /// The client secret sent with every request.
    pub api_key: String,
    /// The region whose endpoint is addressed.
    pub region: Region,
}

impl Clone for APIConfig {
    /// A copy with the same key and region.
    fn clone(&self) -> (r: Self)
        ensures
            r.api_key@ == self.api_key@,
            r.region == self.region,
    {
        APIConfig { api_key: self.api_key.clone(), region: self.region }
    }
}

/// The service region a client talks to.
#[derive(Clone, Copy, PartialEq, Eq, Structural, Debug)]
pub enum Region {
    US,
    EU,
    Global,
}

/// A capability to name one's base URL.
pub trait APIURL {
    /// The base URL, as a sequence of characters.
    spec fn spec_url(&self) -> Seq<char>;

    /// The base URL of the service.
    fn url(&self) -> (r: String)
        ensures
            r@ == self.spec_url(),
    ;
}

impl APIURL for Region {
    open spec fn spec_url(&self) -> Seq<char> {
        match *self {
            Region::EU => "https://resolver.eu.confidence.dev"@,
            Region::US => "https://resolver.us.confidence.dev"@,
            Region::Global => "https://resolver.confidence.dev"@,
        }
    }

    fn url(&self) -> (r: String) {
        match self {
            Region::EU => "https://resolver.eu.confidence.dev".to_owned(),
            Region::US => "https://resolver.us.confidence.dev".to_owned(),
            Region::Global => "https://resolver.confidence.dev".to_owned(),
        }
    }
}

/// The type a schema declares for one field.
#[derive(Debug)]
pub enum SchemaType {
    IntType,
    DoubleType,
    StringType,
    BoolType,
    /// A nested struct, described by its own schema.
    StructType(Box<FlagSchema>),
}

/// A recursive type descriptor: which fields of a flag's value are
/// decodable, and as what.
#[derive(Debug)]
pub struct FlagSchema {
    /// The declared fields and their types.
    pub schema: Vec<(String, SchemaType)>,
}

/// Mathematical model of a [`SchemaType`]: nested schemas become maps from
/// field name to model, so that insertion order is irrelevant.
pub enum SchemaTypeModel {
    Int,
    Double,
    Str,
    Bool,
    Struct(Map<Seq<char>, SchemaTypeModel>),
}

impl SchemaType {
    /// The mathematical model of this declared type.
    pub open spec fn model(self) -> SchemaTypeModel
        decreases self,
    {
        match self {
            SchemaType::IntType => SchemaTypeModel::Int,
            SchemaType::DoubleType => SchemaTypeModel::Double,
            SchemaType::StringType => SchemaTypeModel::Str,
            SchemaType::BoolType => SchemaTypeModel::Bool,
            SchemaType::StructType(sub) => SchemaTypeModel::Struct(schema_model(sub.schema@)),
        }
    }

    /// Well-formedness: every nested schema has unique field names.
    pub open spec fn wf(self) -> bool
        decreases self,
    {
        match self {
            SchemaType::StructType(sub) => sub.wf(),
            _ => true,
        }
    }
}

/// The map a sequence of schema fields stands for; a later entry overrides
/// an earlier one with the same name.
pub open spec fn schema_model(fields: Seq<(String, SchemaType)>) -> Map<Seq<char>, SchemaTypeModel>
    decreases fields,
{
    if fields.len() == 0 {
        Map::empty()
    } else {
        schema_model(fields.drop_last()).insert(fields.last().0@, fields.last().1.model())
    }
}

/// Well-formedness of every declared type in a sequence of schema fields.
pub open spec fn schema_fields_wf(fields: Seq<(String, SchemaType)>) -> bool
    decreases fields,
{
    fields.len() == 0 || (schema_fields_wf(fields.drop_last()) && fields.last().1.wf())
}

/// No two schema fields share a name.
pub open spec fn schema_keys_unique(fields: Seq<(String, SchemaType)>) -> bool {
    forall|i: int, j: int| 0 <= i < j < fields.len() ==> fields[i].0@ != fields[j].0@
}

/// Schema field types at every index are well-formed when the sequence is.
pub proof fn lemma_schema_fields_wf_index(fields: Seq<(String, SchemaType)>, i: int)
    requires
        schema_fields_wf(fields),
        0 <= i < fields.len(),
    ensures
        fields[i].1.wf(),
    decreases fields,
{
    if i < fields.len() - 1 {
        assert(fields.drop_last()[i] == fields[i]);
        lemma_schema_fields_wf_index(fields.drop_last(), i);
    }
}

impl FlagSchema {
    /// The mathematical model of this schema: a map from field name to
    /// declared type.
    pub open spec fn model(self) -> Map<Seq<char>, SchemaTypeModel>
        decreases self,
    {
        schema_model(self.schema@)
    }

    /// Well-formedness: unique field names here and in every nested
    /// schema.
    pub open spec fn wf(self) -> bool
        decreases self,
    {
        schema_keys_unique(self.schema@) && schema_fields_wf(self.schema@)
    }
}

/// A wire value as seen through an optional reference.
pub open spec fn opt_value(w: Option<&WireValue>) -> Option<WireValue> {
    match w {
        Some(x) => Some(*x),
        None => None,
    }
}

/// What one declared field decodes to: the wire reading that fits the
/// declared type, or that type's zero value on absence or mismatch.
pub open spec fn spec_decode_field(w: Option<WireValue>, t: SchemaType) -> ValueModel
    decreases t, 0int,
{
    match t {
        SchemaType::BoolType => ValueModel::Bool(
            match w {
                Some(WireValue::Bool(b)) => b,
                _ => false,
            },
        ),
        SchemaType::IntType => ValueModel::Int(
            match w {
                Some(WireValue::Number(n)) => match n.as_int {
                    Some(i) => i,
                    None => 0,
                },
                _ => 0,
            },
        ),
        SchemaType::DoubleType => ValueModel::Float(
            match w {
                Some(WireValue::Number(n)) => match n.as_double_bits {
                    Some(bits) => bits,
                    None => 0,
                },
                _ => 0,
            },
        ),
        SchemaType::StringType => ValueModel::Str(
            match w {
                Some(WireValue::String(s)) => s@,
                _ => Seq::empty(),
            },
        ),
        SchemaType::StructType(sub) => ValueModel::Struct(spec_decode_struct(w, sub.schema@)),
    }
}

/// The struct a wire object decodes to under the given schema fields: one
/// entry per declared field, each by [`spec_decode_field`].
pub open spec fn spec_decode_fields(
    fs: Seq<(String, WireValue)>,
    schema: Seq<(String, SchemaType)>,
) -> Map<Seq<char>, ValueModel>
    decreases schema, 0int,
{
    if schema.len() == 0 {
        Map::empty()
    } else {
        spec_decode_fields(fs, schema.drop_last()).insert(
            schema.last().0@,
            spec_decode_field(wire_lookup(fs, schema.last().0@), schema.last().1),
        )
    }
}

/// The struct a wire value decodes to under the given schema fields:
/// empty unless the wire value is an object.
pub open spec fn spec_decode_struct(
    w: Option<WireValue>,
    schema: Seq<(String, SchemaType)>,
) -> Map<Seq<char>, ValueModel>
    decreases schema, 1int,
{
    match w {
        Some(WireValue::Object(fs)) => spec_decode_fields(fs@, schema),
        _ => Map::empty(),
    }
}

/// The struct a wire value decodes to under an optional schema: empty
/// without a schema.
pub open spec fn spec_decode(w: Option<WireValue>, schema: Option<FlagSchema>) -> Map<
    Seq<char>,
    ValueModel,
> {
    match schema {
        Some(s) => spec_decode_struct(w, s.schema@),
        None => Map::empty(),
    }
}

/// Decode one declared field from its wire value.
fn decode_field(w: Option<&WireValue>, t: &SchemaType) -> (r: ConfidenceValue)
    ensures
        r.model() == spec_decode_field(opt_value(w), *t),
        t.wf() ==> r.wf(),
    decreases *t, 0int,
{
    match t {
        SchemaType::BoolType => ConfidenceValue::Bool(
            match w {
                Some(WireValue::Bool(b)) => *b,
                _ => false,
            },
        ),
        SchemaType::IntType => ConfidenceValue::Int(
            match w {
                Some(WireValue::Number(n)) => match n.as_int {
                    Some(i) => i,
                    None => 0,
                },
                _ => 0,
            },
        ),
        SchemaType::DoubleType => ConfidenceValue::Float(
            match w {
                Some(WireValue::Number(n)) => match n.as_double_bits {
                    Some(bits) => bits,
                    None => 0,
                },
                _ => 0,
            },
        ),
        SchemaType::StringType => ConfidenceValue::String(
            match w {
                Some(WireValue::String(s)) => s.clone(),
                _ => String::new(),
            },
        ),
        SchemaType::StructType(sub) => match w {
            Some(WireValue::Object(fs)) => ConfidenceValue::Struct(
                decode_object_fields(fs, &sub.schema),
            ),
            _ => ConfidenceValue::Struct(StructValue::new()),
        },
    }
}

/// Decode every declared field of a schema from a wire object's fields.
fn decode_object_fields(fs: &Vec<(String, WireValue)>, schema: &Vec<(String, SchemaType)>) -> (r:
    StructValue)
    ensures
        r.model() == spec_decode_fields(fs@, schema@),
        schema_keys_unique(schema@) && schema_fields_wf(schema@) ==> r.wf(),
    decreases schema@, 1int,
{
    let n = schema.len();
    let mut out: Vec<(String, ConfidenceValue)> = Vec::new();
    proof {
        assert(schema@.subrange(0, 0) =~= Seq::<(String, SchemaType)>::empty());
    }
    for i in 0..n
        invariant
            n == schema@.len(),
            out@.len() == i,
            forall|j: int| 0 <= j < i ==> #[trigger] out@[j].0@ == schema@[j].0@,
            fields_model(out@) == spec_decode_fields(fs@, schema@.subrange(0, i as int)),
            schema_keys_unique(schema@) && schema_fields_wf(schema@) ==> fields_values_wf(out@),
        decreases n - i,
    {
        let key = schema[i].0.clone();
        let w = wire_object_get(fs, key.as_str());
        proof {
            assert(decreases_to!(schema@ => schema@[i as int]));
            assert(decreases_to!(schema@ => schema@[i as int].1));
        }
        let v = decode_field(w, &schema[i].1);
        let ghost prev = out@;
        let ghost pre = schema@.subrange(0, i as int);
        let ghost post = schema@.subrange(0, i + 1 as int);
        out.push((key, v));
        proof {
            assert(post.drop_last() =~= pre);
            assert(post.last() == schema@[i as int]);
            assert(out@.drop_last() =~= prev);
            assert(opt_value(w) == wire_lookup(fs@, schema@[i as int].0@));
            assert(fields_model(out@) == spec_decode_fields(fs@, post));
            assert forall|j: int| 0 <= j < i + 1 implies #[trigger] out@[j].0@
                == schema@[j].0@ by {
                if j < i {
                    assert(out@[j] == prev[j]);
                }
            }
            if schema_keys_unique(schema@) && schema_fields_wf(schema@) {
                lemma_schema_fields_wf_index(schema@, i as int);
                assert(fields_values_wf(out@));
            }
        }
    }
    proof {
        assert(schema@.subrange(0, n as int) =~= schema@);
    }
    let r = StructValue { fields: out };
    proof {
        if schema_keys_unique(schema@) && schema_fields_wf(schema@) {
            assert forall|i: int, j: int| 0 <= i < j < r.fields@.len() implies r.fields@[i].0@
                != r.fields@[j].0@ by {
                assert(r.fields@[i].0@ == schema@[i].0@);
                assert(r.fields@[j].0@ == schema@[j].0@);
            }
            assert(keys_unique(r.fields@));
        }
    }
    r
}

/// A schema as seen through an optional reference.
pub open spec fn opt_schema(s: Option<&FlagSchema>) -> Option<FlagSchema> {
    match s {
        Some(x) => Some(*x),
        None => None,
    }
}

/// Well-formedness of an optional schema.
pub open spec fn opt_schema_wf(s: Option<FlagSchema>) -> bool {
    match s {
        Some(x) => x.wf(),
        None => true,
    }
}

/// Convert a raw wire JSON value, under an optional schema, into a struct
/// of the value model: each declared field is read with a
/// variant-appropriate default, undeclared wire fields are dropped, and
/// without a schema, or with a wire value that is absent or not an
/// object, the result is the empty struct.
pub fn decode_value(value: Option<&WireValue>, schema: Option<&FlagSchema>) -> (r: StructValue)
    ensures
        r.model() == spec_decode(opt_value(value), opt_schema(schema)),
        opt_schema_wf(opt_schema(schema)) ==> r.wf(),
{
    match schema {
        None => StructValue::new(),
        Some(s) => match value {
            Some(WireValue::Object(fs)) => decode_object_fields(fs, &s.schema),
            _ => StructValue::new(),
        },
    }
}

/// One flag of a resolver response, as it crosses the wire: its value
/// still raw JSON, its schema alongside.
#[derive(Debug)]
pub struct NetworkResolvedFlag {
    /// The flag identifier, in the form `flags/<name>`.
    pub flag: String,
    /// The variant identifier the value came from.
    pub variant: String,
    /// The raw JSON value of the flag, when present.
    pub value: Option<WireValue>,
    /// The service's resolve reason, verbatim.
    pub reason: String,
    /// The schema declaring the decodable fields of `value`.
    pub flag_schema: Option<FlagSchema>,
}

/// A resolver response as it crosses the wire.
#[derive(Debug)]
pub struct NetworkResolvedFlags {
    /// The flags the service resolved.
    pub resolve_flags: Vec<NetworkResolvedFlag>,
    /// An opaque token the service hands back.
    pub resolve_token: String,
}

/// One resolved flag, its value decoded into the value model.
#[derive(Debug)]
pub struct ResolvedFlag {
    /// The flag identifier, in the form `flags/<name>`.
    pub flag: String,
    /// The variant identifier the value came from, when known.
    pub variant: Option<String>,
    /// The decoded value of the whole flag.
    pub value: StructValue,
    /// The resolve reason, when known.
    pub reason: Option<EvaluationReason>,
}

/// A decoded resolver response.
#[derive(Debug)]
pub struct ResolvedFlags {
    /// An opaque token the service hands back.
    pub resolve_token: String,
    /// The flags the service resolved.
    pub flags: Vec<ResolvedFlag>,
}

/// How a decoded flag relates to its wire form.
pub open spec fn resolved_from(n: NetworkResolvedFlag, r: ResolvedFlag) -> bool {
    &&& r.flag@ == n.flag@
    &&& r.variant matches Some(v) && v@ == n.variant@
    &&& r.value.model() == spec_decode(n.value, n.flag_schema)
    &&& opt_schema_wf(n.flag_schema) ==> r.value.wf()
    &&& r.reason matches Some(EvaluationReason::Other(s)) && s@ == n.reason@
}

impl NetworkResolvedFlag {
    /// Decode this wire flag: its value through the schema, identifiers
    /// carried over.
    pub fn into_resolved(self) -> (r: ResolvedFlag)
        ensures
            resolved_from(self, r),
    {
        let value = decode_value(self.value.as_ref(), self.flag_schema.as_ref());
        ResolvedFlag {
            flag: self.flag,
            variant: Some(self.variant),
            value,
            reason: Some(EvaluationReason::Other(self.reason)),
        }
    }
}

impl NetworkResolvedFlags {
    /// Decode a whole wire response, flag by flag.
    pub fn into_resolved(self) -> (r: ResolvedFlags)
        ensures
            r.resolve_token@ == self.resolve_token@,
            r.flags@.len() == self.resolve_flags@.len(),
            forall|i: int|
                0 <= i < r.flags@.len() ==> resolved_from(
                    self.resolve_flags@[i],
                    #[trigger] r.flags@[i],
                ),
    {
        let mut flags: Vec<ResolvedFlag> = Vec::new();
        let mut remaining = self.resolve_flags;
        let ghost all = remaining@;
        let n = remaining.len();
        let mut i: usize = 0;
        while i < n
            invariant
                n == all.len(),
                remaining@ == all.skip(i as int),
                flags@.len() == i,
                i <= n,
                forall|j: int|
                    0 <= j < i ==> resolved_from(all[j], #[trigger] flags@[j]),
            decreases n - i,
        {
            proof {
                assert(all.skip(i as int)[0] == all[i as int]);
                assert(all.skip(i as int).skip(1) =~= all.skip(i + 1 as int));
            }
            let network_flag = remaining.remove(0);
            let resolved = network_flag.into_resolved();
            flags.push(resolved);
            i = i + 1;
        }
        ResolvedFlags { resolve_token: self.resolve_token, flags }
    }
}

/// Static identity of this SDK, sent with every request.
#[derive(Debug)]
pub struct SDK {
    /// The SDK identifier.
    pub id: String,
    /// The SDK version.
    pub version: String,
}

/// The body of a resolve request, ready for wire serialization.
#[derive(Debug)]
pub struct ResolveRequest {
    /// The client secret.
    pub client_secret: String,
    /// Whether the resolution is applied immediately.
    pub apply: bool,
    /// The identity of this SDK.
    pub sdk: SDK,
    /// The evaluation context, already in wire form.
    pub evaluation_context: Vec<(String, WireValue)>,
    /// The flag identifiers to resolve, in the form `flags/<name>`.
    pub flags: Vec<String>,
}

/// Whether a value model has the shape a declared type produces: the
/// matching scalar variant, or a struct shaped exactly like the declared
/// sub-schema.
pub open spec fn model_fits(m: ValueModel, t: SchemaType) -> bool
    decreases t,
{
    match t {
        SchemaType::BoolType => m is Bool,
        SchemaType::IntType => m is Int,
        SchemaType::DoubleType => m is Float,
        SchemaType::StringType => m is Str,
        SchemaType::StructType(sub) => m matches ValueModel::Struct(fm) && struct_fits(
            fm,
            sub.schema@,
        ),
    }
}

/// Whether a struct model is shaped exactly like a schema: its domain is
/// the schema's field set and each entry fits its declared type.
pub open spec fn struct_fits(
    fm: Map<Seq<char>, ValueModel>,
    schema: Seq<(String, SchemaType)>,
) -> bool
    decreases schema,
{
    &&& forall|k: Seq<char>|
        #[trigger] fm.contains_key(k) ==> exists|i: int|
            0 <= i < schema.len() && (#[trigger] schema[i]).0@ == k
    &&& forall|i: int|
        0 <= i < schema.len() ==> fm.contains_key((#[trigger] schema[i]).0@) && model_fits(
            fm[schema[i].0@],
            schema[i].1,
        )
}

/// Whether a wire object covers a schema: every declared field is present
/// with a reading of the declared type, nested schemas covered in turn.
pub open spec fn wire_covers(fs: Seq<(String, WireValue)>, schema: Seq<(String, SchemaType)>) -> bool
    decreases schema,
{
    forall|i: int|
        0 <= i < schema.len() ==> wire_field_covers(
            wire_lookup(fs, (#[trigger] schema[i]).0@),
            schema[i].1,
        )
}

/// Whether one wire reading covers one declared type.
pub open spec fn wire_field_covers(w: Option<WireValue>, t: SchemaType) -> bool
    decreases t,
{
    match t {
        SchemaType::BoolType => w matches Some(WireValue::Bool(_)),
        SchemaType::IntType => w matches Some(WireValue::Number(n)) && n.as_int is Some,
        SchemaType::DoubleType => w matches Some(WireValue::Number(n)) && n.as_double_bits is Some,
        SchemaType::StringType => w matches Some(WireValue::String(_)),
        SchemaType::StructType(sub) => w matches Some(WireValue::Object(fs)) && wire_covers(
            fs@,
            sub.schema@,
        ),
    }
}

/// A name is in a decoded struct's domain exactly when the schema
/// declares it: decoding drops every undeclared wire field and fills
/// every declared one.
pub proof fn lemma_decode_fields_dom(
    fs: Seq<(String, WireValue)>,
    schema: Seq<(String, SchemaType)>,
    k: Seq<char>,
)
    ensures
        spec_decode_fields(fs, schema).contains_key(k) <==> exists|i: int|
            0 <= i < schema.len() && (#[trigger] schema[i]).0@ == k,
    decreases schema,
{
    if schema.len() > 0 {
        lemma_decode_fields_dom(fs, schema.drop_last(), k);
        if schema.last().0@ != k {
            if exists|i: int| 0 <= i < schema.len() && (#[trigger] schema[i]).0@ == k {
                let i = choose|i: int| 0 <= i < schema.len() && (#[trigger] schema[i]).0@ == k;
                assert(schema.drop_last()[i] == schema[i]);
            }
        } else {
            assert(schema.last() == schema[schema.len() - 1]);
        }
    }
}

/// With unique names, each declared field decodes to the reading of its
/// own wire field under its own declared type.
pub proof fn lemma_decode_fields_index(
    fs: Seq<(String, WireValue)>,
    schema: Seq<(String, SchemaType)>,
    i: int,
)
    requires
        schema_keys_unique(schema),
        0 <= i < schema.len(),
    ensures
        spec_decode_fields(fs, schema).contains_key(schema[i].0@),
        spec_decode_fields(fs, schema)[schema[i].0@] == spec_decode_field(
            wire_lookup(fs, schema[i].0@),
            schema[i].1,
        ),
    decreases schema,
{
    if i < schema.len() - 1 {
        assert(schema.drop_last()[i] == schema[i]);
        lemma_decode_fields_index(fs, schema.drop_last(), i);
        assert(schema[i].0@ != schema.last().0@);
    } else {
        assert(schema.last() == schema[i]);
    }
}

/// A covered declared field decodes to a struct model that fits its
/// schema; together with [`lemma_decode_fields_fits`] this says a decoded
/// struct is shaped exactly like its schema wherever the wire covers it.
pub proof fn lemma_decode_field_fits(w: Option<WireValue>, t: SchemaType)
    requires
        t.wf(),
        wire_field_covers(w, t),
    ensures
        model_fits(spec_decode_field(w, t), t),
    decreases t,
{
    match t {
        SchemaType::StructType(sub) => {
            let fs = w->Some_0->Object_0;
            lemma_decode_fields_fits(fs@, sub.schema@);
        },
        _ => {},
    }
}

/// A decoded struct over a covering wire object is shaped exactly like
/// its schema.
pub proof fn lemma_decode_fields_fits(
    fs: Seq<(String, WireValue)>,
    schema: Seq<(String, SchemaType)>,
)
    requires
        schema_keys_unique(schema),
        schema_fields_wf(schema),
        wire_covers(fs, schema),
    ensures
        struct_fits(spec_decode_fields(fs, schema), schema),
    decreases schema,
{
    let d = spec_decode_fields(fs, schema);
    assert forall|k: Seq<char>| #[trigger] d.contains_key(k) implies exists|i: int|
        0 <= i < schema.len() && (#[trigger] schema[i]).0@ == k by {
        lemma_decode_fields_dom(fs, schema, k);
    }
    assert forall|i: int| 0 <= i < schema.len() implies d.contains_key((#[trigger] schema[i]).0@)
        && model_fits(d[schema[i].0@], schema[i].1) by {
        lemma_decode_fields_index(fs, schema, i);
        lemma_schema_fields_wf_index(schema, i);
        lemma_decode_field_fits(wire_lookup(fs, schema[i].0@), schema[i].1);
    }
}

/// Decoding a faithful wire rendering of a model that fits the declared
/// type gives that model back exactly.
pub proof fn lemma_decode_field_exact(w: WireValue, t: SchemaType, m: ValueModel)
    requires
        t.wf(),
        wire_models(w, m),
        model_fits(m, t),
    ensures
        spec_decode_field(Some(w), t) == m,
    decreases t,
{
    match t {
        SchemaType::StructType(sub) => {
            let fm = m->Struct_0;
            let fs = w->Object_0;
            lemma_decode_fields_exact(fs@, fm, sub.schema@);
        },
        _ => {},
    }
}

/// Decoding a faithful wire rendering of a struct model that fits the
/// schema gives that model back exactly.
pub proof fn lemma_decode_fields_exact(
    fs: Seq<(String, WireValue)>,
    fm: Map<Seq<char>, ValueModel>,
    schema: Seq<(String, SchemaType)>,
)
    requires
        schema_keys_unique(schema),
        schema_fields_wf(schema),
        wire_object_models(fs, fm),
        struct_fits(fm, schema),
    ensures
        spec_decode_fields(fs, schema) == fm,
    decreases schema,
{
    let d = spec_decode_fields(fs, schema);
    assert forall|k: Seq<char>| #[trigger] d.contains_key(k) implies fm.contains_key(k) by {
        lemma_decode_fields_dom(fs, schema, k);
        let i = choose|i: int| 0 <= i < schema.len() && (#[trigger] schema[i]).0@ == k;
        assert(fm.contains_key(schema[i].0@));
    }
    assert forall|k: Seq<char>| #[trigger] fm.contains_key(k) implies d.contains_key(k)
        && d[k] == fm[k] by {
        let i = choose|i: int| 0 <= i < schema.len() && (#[trigger] schema[i]).0@ == k;
        lemma_decode_fields_index(fs, schema, i);
        lemma_schema_fields_wf_index(schema, i);
        let v = wire_lookup(fs, k)->Some_0;
        assert(wire_lookup(fs, k) matches Some(vv) && wire_models(vv, fm[k]));
        lemma_decode_field_exact(v, schema[i].1, fm[k]);
    }
    assert(d =~= fm);
}

/// Decoding round trip, part one: decoding keeps exactly the declared
/// fields. The decoded struct's domain is the schema's field set — every
/// undeclared wire field is dropped — and wherever the wire object
/// covers the schema, each declared field's value is preserved exactly:
/// decoding, rendering back to wire JSON and decoding again yields the
/// same struct model (see [`lemma_decode_round_trip`]).
pub proof fn lemma_decode_preserves_declared(
    fs: Seq<(String, WireValue)>,
    schema: Seq<(String, SchemaType)>,
    i: int,
    m: ValueModel,
)
    requires
        schema_keys_unique(schema),
        schema_fields_wf(schema),
        0 <= i < schema.len(),
        wire_lookup(fs, schema[i].0@) matches Some(v) && wire_models(v, m),
        model_fits(m, schema[i].1),
    ensures
        spec_decode_fields(fs, schema).contains_key(schema[i].0@),
        spec_decode_fields(fs, schema)[schema[i].0@] == m,
{
    lemma_decode_fields_index(fs, schema, i);
    lemma_schema_fields_wf_index(schema, i);
    let v = wire_lookup(fs, schema[i].0@)->Some_0;
    lemma_decode_field_exact(v, schema[i].1, m);
}

/// Decoding round trip, part two: re-decoding a decoded struct's wire
/// form against the same schema is idempotent, for any wire object that
/// covers the schema's fields.
pub proof fn lemma_decode_round_trip(
    fs: Seq<(String, WireValue)>,
    schema: FlagSchema,
    w2: WireValue,
)
    requires
        schema.wf(),
        wire_covers(fs, schema.schema@),
        wire_models(w2, ValueModel::Struct(spec_decode_fields(fs, schema.schema@))),
    ensures
        spec_decode_struct(Some(w2), schema.schema@) == spec_decode_fields(fs, schema.schema@),
{
    let d = spec_decode_fields(fs, schema.schema@);
    lemma_decode_fields_fits(fs, schema.schema@);
    let fs2 = w2->Object_0;
    lemma_decode_fields_exact(fs2@, d, schema.schema@);
}

} // verus!
