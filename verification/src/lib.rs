//! A feature-flag client core: a tagged value model, schema-driven decoding
//! of wire JSON into that model, dotted-path navigation into nested flag
//! values, type coercion with default fallback, and immutable context
//! scoping. Network transport and wire serialization sit outside this
//! crate; the resolver contract lets any implementation stand in.
use vstd::prelude::*;

pub mod confidence_value;
pub mod contextual_confidence;
pub mod conversion_trait;
pub mod details;
pub mod evaluation_error;
pub mod event_sender;
pub mod flag_schema_deserializer;
pub mod models;
pub mod resolve;
pub mod wire;

use crate::confidence_value::ConfidenceValue;
use crate::confidence_value::StructValue;
use crate::confidence_value::ValueModel;
use crate::conversion_trait::TypeConversionTrait;
use crate::details::EvaluationDetails;
use crate::details::EvaluationReason;
use crate::evaluation_error::EvaluationError;
use crate::evaluation_error::EvaluationErrorCode;
use crate::models::APIConfig;
use crate::models::ResolveError;
use crate::models::ResolvedFlag;
use crate::models::ResolvedFlags;
use crate::resolve::spec_flag_name;
use crate::resolve::NetworkFlagResolver;

verus! {

broadcast use vstd::std_specs::vec::group_vec_axioms, vstd::seq::group_seq_axioms;

/// Identity of this SDK, sent with every resolve and event request.
pub const SDK_ID: &'static str = "SDK_ID_RUST_PROVIDER";

/// Version string of this SDK, sent with every resolve and event request.
pub fn get_sdk_version() -> (r: String)
    ensures
        r@ == "&root.version"@,
{
    let version = "&root.version";
    version.to_owned()
}

/// The segments of a sequence of characters split at a separator: always
/// at least one segment, the separators themselves dropped.
pub open spec fn spec_split(s: Seq<char>, sep: char) -> Seq<Seq<char>>
    decreases s.len(),
{
    if s.len() == 0 {
        seq![Seq::<char>::empty()]
    } else {
        let rest = spec_split(s.drop_first(), sep);
        if s[0] == sep {
            seq![Seq::<char>::empty()] + rest
        } else {
            seq![seq![s[0]] + rest[0]] + rest.drop_first()
        }
    }
}

/// A split yields at least one segment.
pub proof fn lemma_spec_split_len(s: Seq<char>, sep: char)
    ensures
        spec_split(s, sep).len() >= 1,
    decreases s.len(),
{
    if s.len() > 0 {
        lemma_spec_split_len(s.drop_first(), sep);
    }
}

/// Split a flag key at the dots: the first segment is the flag name, the
/// rest are the property path.
pub fn split_flag_key(key: &str) -> (r: Vec<String>)
    ensures
        r@.len() == spec_split(key@, '.').len(),
        forall|i: int| 0 <= i < r@.len() ==> (#[trigger] r@[i])@ == spec_split(key@, '.')[i],
{
    let ghost full = spec_split(key@, '.');
    let n = key.unicode_len();
    let mut segs: Vec<String> = Vec::new();
    let mut start: usize = 0;
    proof {
        lemma_spec_split_len(key@, '.');
        assert(key@.skip(0) =~= key@);
        assert(key@.subrange(0, 0) =~= Seq::<char>::empty());
    }
    for i in 0..n
        invariant
            n == key@.len(),
            start <= i <= n,
            full == spec_split(key@, '.'),
            full.len() >= 1,
            spec_split(key@.skip(i as int), '.').len() >= 1,
            segs@.len() + spec_split(key@.skip(i as int), '.').len() == full.len(),
            forall|j: int| 0 <= j < segs@.len() ==> (#[trigger] segs@[j])@ == full[j],
            full[segs@.len() as int] == key@.subrange(start as int, i as int) + spec_split(
                key@.skip(i as int),
                '.',
            )[0],
            forall|j: int|
                1 <= j < spec_split(key@.skip(i as int), '.').len() ==> #[trigger] full[segs@.len()
                    + j] == spec_split(key@.skip(i as int), '.')[j],
        decreases n - i,
    {
        let c = key.get_char(i);
        let ghost tail = spec_split(key@.skip(i as int), '.');
        let ghost tail_next = spec_split(key@.skip(i + 1 as int), '.');
        proof {
            lemma_spec_split_len(key@.skip(i + 1 as int), '.');
            assert(key@.skip(i as int)[0] == key@[i as int]);
            assert(key@.skip(i as int).drop_first() =~= key@.skip(i + 1 as int));
            assert(key@.skip(i as int).len() == n - i);
        }
        if c == '.' {
            proof {
                assert(tail == seq![Seq::<char>::empty()] + tail_next);
                assert(tail[0] =~= Seq::<char>::empty());
                assert(full[segs@.len() as int] =~= key@.subrange(start as int, i as int));
                assert(forall|j: int|
                    0 <= j < tail_next.len() ==> tail[j + 1] == #[trigger] tail_next[j]);
            }
            let seg = key.substring_char(start, i).to_owned();
            let ghost prev = segs@;
            segs.push(seg);
            start = i + 1;
            proof {
                assert(forall|j: int| 0 <= j < prev.len() ==> #[trigger] segs@[j] == prev[j]);
                assert(segs@[prev.len() as int]@ == full[prev.len() as int]);
                assert(key@.subrange(start as int, i + 1 as int) =~= Seq::<char>::empty());
                assert(key@.subrange(start as int, i + 1 as int) + tail_next[0] =~= tail_next[0]);
                assert forall|j: int| 1 <= j < tail_next.len() implies #[trigger] full[segs@.len()
                    + j] == tail_next[j] by {
                    assert(full[prev.len() + (j + 1)] == tail[j + 1]);
                    assert(tail[(j - 1) + 1] == tail_next[j - 1]);
                    assert(tail[j + 1] == tail_next[j]);
                }
            }
        } else {
            proof {
                assert(tail == seq![seq![key@[i as int]] + tail_next[0]] + tail_next.drop_first());
                assert(tail[0] == seq![key@[i as int]] + tail_next[0]);
                assert(key@.subrange(start as int, i + 1 as int) =~= key@.subrange(
                    start as int,
                    i as int,
                ) + seq![key@[i as int]]);
                assert(key@.subrange(start as int, i + 1 as int) + tail_next[0] =~= key@.subrange(
                    start as int,
                    i as int,
                ) + tail[0]);
                assert(forall|j: int|
                    1 <= j < tail_next.len() ==> tail[j] == #[trigger] tail_next[j]) by {
                    assert(forall|j: int|
                        1 <= j < tail_next.len() ==> #[trigger] tail_next.drop_first()[j - 1]
                            == tail_next[j]);
                }
                assert(tail.len() == tail_next.len());
            }
        }
    }
    proof {
        assert(key@.skip(n as int) =~= Seq::<char>::empty());
        assert(spec_split(key@.skip(n as int), '.') == seq![Seq::<char>::empty()]);
        assert(full[segs@.len() as int] =~= key@.subrange(start as int, n as int));
    }
    let last = key.substring_char(start, n).to_owned();
    let ghost prev = segs@;
    segs.push(last);
    proof {
        assert(forall|j: int| 0 <= j < prev.len() ==> #[trigger] segs@[j] == prev[j]);
    }
    segs
}

/// The views of a path's segments.
pub open spec fn path_views(path: Seq<String>) -> Seq<Seq<char>> {
    path.map_values(|s: String| s@)
}

/// Where a dotted property path leads inside a decoded struct.
pub enum WalkOutcome {
    /// A non-struct leaf was reached; any remaining segments were
    /// ignored.
    Leaf(ValueModel),
    /// The path was exhausted while still on a struct: that whole struct.
    Whole(Map<Seq<char>, ValueModel>),
    /// Some segment named no field of the struct at hand.
    Missing,
}

/// Walk a property path through a struct model: a missing field stops the
/// walk, a nested struct is descended into, and a non-struct leaf is
/// taken immediately, clipping any remaining segments.
pub open spec fn spec_walk(fields: Map<Seq<char>, ValueModel>, path: Seq<Seq<char>>) -> WalkOutcome
    decreases path.len(),
{
    if path.len() == 0 {
        WalkOutcome::Whole(fields)
    } else if !fields.contains_key(path[0]) {
        WalkOutcome::Missing
    } else {
        match fields[path[0]] {
            ValueModel::Struct(sub) => spec_walk(sub, path.drop_first()),
            m => WalkOutcome::Leaf(m),
        }
    }
}

/// The view of an optional string.
pub open spec fn opt_view(o: Option<String>) -> Option<Seq<char>> {
    match o {
        Some(s) => Some(s@),
        None => None,
    }
}

/// What walking a property path through a resolved flag must yield: a
/// leaf with reason `TargetingMatch`, the whole struct with reason
/// `Default`, or a not-found error.
pub open spec fn walk_post(
    flag: ResolvedFlag,
    path: Seq<Seq<char>>,
    r: Result<EvaluationDetails<ConfidenceValue>, EvaluationError>,
) -> bool {
    match spec_walk(flag.value.model(), path) {
        WalkOutcome::Leaf(m) => r matches Ok(d) && d.value.model() == m && d.reason == Some(
            EvaluationReason::TargetingMatch,
        ) && opt_view(d.variant) == opt_view(flag.variant) && d.flag_metadata is None,
        WalkOutcome::Whole(fm) => r matches Ok(d) && d.value.model() == ValueModel::Struct(fm)
            && d.reason == Some(EvaluationReason::Default) && opt_view(d.variant) == opt_view(
            flag.variant,
        ) && d.flag_metadata is None,
        WalkOutcome::Missing => r matches Err(e) && e.code is FlagNotFound && (e.message matches Some(
            m,
        ) && m@ == "The fetched flag name doesn't match"@),
    }
}

/// What evaluating a flag key against a resolver's answer must yield: a
/// not-found error on an empty answer or a name mismatch, else the walk's
/// outcome on the first answered flag.
pub open spec fn resolution_post(
    key: Seq<char>,
    flags: Seq<ResolvedFlag>,
    r: Result<EvaluationDetails<ConfidenceValue>, EvaluationError>,
) -> bool {
    if flags.len() == 0 {
        r matches Err(e) && e.code is FlagNotFound && (e.message matches Some(m) && m@
            == "could not fetch the flag"@)
    } else if flags[0].flag@ != spec_flag_name(key) {
        r matches Err(e) && e.code is FlagNotFound && (e.message matches Some(m) && m@
            == "The fetched flag name doesn't match"@)
    } else {
        walk_post(flags[0], spec_split(key, '.').drop_first(), r)
    }
}

/// An error for a malformed (empty) flag key.
pub open spec fn invalid_format_error(e: EvaluationError) -> bool {
    e.code is FlagNotFound && (e.message matches Some(m) && m@ == "Invalid flag key format"@)
}

/// An error carried up from the resolver, collapsed into `FlagNotFound`
/// with the original cause kept in the message.
pub open spec fn resolver_error(e: EvaluationError) -> bool {
    e.code is FlagNotFound && (e.message matches Some(m) && (m@
        == "could not fetch the flag: network error"@ || m@
        == "could not fetch the flag: serialization error"@))
}

/// What the strict top-level coercion of an evaluation must yield: the
/// coerced value with fallback reason and variant when the variant
/// matches the requested type, a `TypeMismatch` error naming the key
/// otherwise.
pub open spec fn coercion_post<T: TypeConversionTrait>(
    key: Seq<char>,
    d: EvaluationDetails<ConfidenceValue>,
    default: T::V,
    r: Result<EvaluationDetails<T>, EvaluationError>,
) -> bool {
    if T::spec_matches(d.value.model()) {
        r matches Ok(out) && out.value@ == T::spec_process(d.value.model(), default)
            && out.reason == (if d.reason is Some {
            d.reason
        } else {
            Some(EvaluationReason::Static)
        }) && opt_view(out.variant) == (if d.variant is Some {
            opt_view(d.variant)
        } else {
            Some("unknown"@)
        }) && out.flag_metadata is None
    } else {
        r matches Err(e) && e.code is TypeMismatch && (e.message matches Some(m) && m@
            == "schema type is different for "@ + key)
    }
}

/// What a flag lookup must yield, given what the resolver answered: the
/// evaluation of the answer followed by the strict coercion of its value.
pub open spec fn get_flag_post<T: TypeConversionTrait>(
    key: Seq<char>,
    flags: Seq<ResolvedFlag>,
    default: T::V,
    r: Result<EvaluationDetails<T>, EvaluationError>,
) -> bool {
    ||| exists|d: EvaluationDetails<ConfidenceValue>|
        resolution_post(key, flags, Ok(d)) && #[trigger] coercion_post::<T>(key, d, default, r)
    ||| (r matches Err(e) && resolution_post(key, flags, Err(e)))
}

/// Coerce an evaluation's value to the requested type, strictly: a
/// variant mismatch surfaces a `TypeMismatch` error naming the flag key;
/// a missing reason falls back to `Static`, a missing variant to
/// `"unknown"`.
pub fn coerce_details<T: TypeConversionTrait>(
    flag_key: &str,
    details: EvaluationDetails<ConfidenceValue>,
    default_value: T,
) -> (r: Result<EvaluationDetails<T>, EvaluationError>)
    ensures
        coercion_post::<T>(flag_key@, details, default_value@, r),
{
    if T::matches_type(&details.value) {
        let value = default_value.process(&details.value, &default_value);
        let reason = match details.reason {
            Some(given) => Some(given),
            None => Some(EvaluationReason::Static),
        };
        let variant = match details.variant {
            Some(given) => Some(given),
            None => Some("unknown".to_owned()),
        };
        Ok(EvaluationDetails { value, reason, variant, flag_metadata: None })
    } else {
        let message = String::from_str("schema type is different for ").concat(flag_key);
        Err(EvaluationError { code: EvaluationErrorCode::TypeMismatch, message: Some(message) })
    }
}

/// A flag client: configuration, the evaluation context it owns, and the
/// resolver it consults.
pub struct Confidence<R> {
    /// What the client needs to reach the resolver service.
    pub api_config: APIConfig,
    /// The evaluation context this client carries.
    pub context: StructValue,
    /// The resolver consulted for every lookup.
    pub resolver: R,
}

impl<R: NetworkFlagResolver> Confidence<R> {
    /// A new client over the given configuration and resolver, its
    /// context seeded with a `targeting_key` entry.
    pub fn new(api_config: APIConfig, resolver: R) -> (r: Self)
        ensures
            r.context.model() == Map::<Seq<char>, ValueModel>::empty().insert(
                "targeting_key"@,
                ValueModel::Str("Sample"@),
            ),
            r.context.wf(),
            r.api_config.api_key@ == api_config.api_key@,
            r.api_config.region == api_config.region,
    {
        let context = StructValue::new().with_field(
            "targeting_key",
            ConfidenceValue::String("Sample".to_owned()),
        );
        Confidence { api_config, context, resolver }
    }

    /// Ask the resolver for the flag behind a key, against the given
    /// context.
    pub fn fetch_resolved_flags(&self, flag_key: &str, evaluation_context: &StructValue) -> Result<
        ResolvedFlags,
        ResolveError,
    > {
        self.resolver.resolve(&self.api_config, vec![flag_key.to_owned()], evaluation_context)
    }

    /// Walk a property path through a resolved flag's decoded value.
    pub fn process_flag(&self, resolved_flag: &ResolvedFlag, property_path: &Vec<String>) -> (r:
        Result<EvaluationDetails<ConfidenceValue>, EvaluationError>)
        ensures
            walk_post(*resolved_flag, path_views(property_path@), r),
    {
        let ghost path = path_views(property_path@);
        let mut last_struct: &StructValue = &resolved_flag.value;
        let n = property_path.len();
        proof {
            assert(path.skip(0) =~= path);
        }
        for i in 0..n
            invariant
                n == property_path@.len(),
                path == path_views(property_path@),
                spec_walk(resolved_flag.value.model(), path) == spec_walk(
                    last_struct.model(),
                    path.skip(i as int),
                ),
        {
            proof {
                assert(path.skip(i as int)[0] == path[i as int]);
                assert(path[i as int] == property_path@[i as int]@);
                assert(path.skip(i as int).drop_first() =~= path.skip(i + 1 as int));
            }
            match last_struct.get(property_path[i].as_str()) {
                Some(found) => match found {
                    ConfidenceValue::Struct(sub) => {
                        last_struct = sub;
                    },
                    leaf => {
                        let variant = match &resolved_flag.variant {
                            Some(v) => Some(v.clone()),
                            None => None,
                        };
                        return Ok(
                            EvaluationDetails {
                                value: leaf.clone(),
                                reason: Some(EvaluationReason::TargetingMatch),
                                variant,
                                flag_metadata: None,
                            },
                        );
                    },
                },
                None => {
                    return Err(
                        EvaluationError {
                            code: EvaluationErrorCode::FlagNotFound,
                            message: Some("The fetched flag name doesn't match".to_owned()),
                        },
                    );
                },
            }
        }
        proof {
            assert(path.skip(n as int) =~= Seq::<Seq<char>>::empty());
        }
        let variant = match &resolved_flag.variant {
            Some(v) => Some(v.clone()),
            None => None,
        };
        Ok(
            EvaluationDetails {
                value: ConfidenceValue::Struct(last_struct.clone()),
                reason: Some(EvaluationReason::Default),
                variant,
                flag_metadata: None,
            },
        )
    }

    /// Evaluate a flag key against a resolver's answer: reject an empty
    /// answer or a name mismatch, else walk the property path through the
    /// first answered flag.
    pub fn evaluate_resolved(&self, flag_key: &str, resolved_flags: &ResolvedFlags) -> (r: Result<
        EvaluationDetails<ConfidenceValue>,
        EvaluationError,
    >)
        ensures
            resolution_post(flag_key@, resolved_flags.flags@, r),
    {
        let mut segments = split_flag_key(flag_key);
        proof {
            lemma_spec_split_len(flag_key@, '.');
        }
        let first = segments.remove(0);
        let flag_name = String::from_str("flags/").concat(first.as_str());
        proof {
            assert(path_views(segments@) =~= spec_split(flag_key@, '.').drop_first());
        }
        if resolved_flags.flags.len() == 0 {
            return Err(
                EvaluationError {
                    code: EvaluationErrorCode::FlagNotFound,
                    message: Some("could not fetch the flag".to_owned()),
                },
            );
        }
        let head = &resolved_flags.flags[0];
        if head.flag == flag_name {
            self.process_flag(head, &segments)
        } else {
            Err(
                EvaluationError {
                    code: EvaluationErrorCode::FlagNotFound,
                    message: Some("The fetched flag name doesn't match".to_owned()),
                },
            )
        }
    }

    /// Resolve a flag key to its value and reason: an empty key is
    /// rejected as malformed; a resolver failure is collapsed into
    /// `FlagNotFound` with the cause kept in the message; any answer is
    /// evaluated by [`Self::evaluate_resolved`].
    pub fn resolve_value(&self, flag_key: &str, evaluation_context: &StructValue) -> (r: Result<
        EvaluationDetails<ConfidenceValue>,
        EvaluationError,
    >)
        ensures
            flag_key@.len() == 0 ==> (r matches Err(e) && invalid_format_error(e)),
            flag_key@.len() > 0 ==> ((r matches Err(e) && resolver_error(e)) || (exists|
                flags: Seq<ResolvedFlag>,
            |
                #[trigger] resolution_post(flag_key@, flags, r))),
    {
        if flag_key.is_empty() {
            return Err(
                EvaluationError {
                    code: EvaluationErrorCode::FlagNotFound,
                    message: Some("Invalid flag key format".to_owned()),
                },
            );
        }
        match self.fetch_resolved_flags(flag_key, evaluation_context) {
            Err(ResolveError::NetworkError) => Err(
                EvaluationError {
                    code: EvaluationErrorCode::FlagNotFound,
                    message: Some("could not fetch the flag: network error".to_owned()),
                },
            ),
            Err(ResolveError::SerializationError) => Err(
                EvaluationError {
                    code: EvaluationErrorCode::FlagNotFound,
                    message: Some("could not fetch the flag: serialization error".to_owned()),
                },
            ),
            Ok(resolved) => {
                let r = self.evaluate_resolved(flag_key, &resolved);
                proof {
                    assert(resolution_post(flag_key@, resolved.flags@, r));
                }
                r
            },
        }
    }

    /// Look a flag up and coerce its value to the requested type,
    /// strictly: the resolution runs against this client's own context,
    /// and a value whose variant does not match the requested type
    /// surfaces a `TypeMismatch` error naming the key.
    pub fn get_flag<T: TypeConversionTrait>(&self, flag_key: &str, default_value: T) -> (r: Result<
        EvaluationDetails<T>,
        EvaluationError,
    >)
        ensures
            flag_key@.len() == 0 ==> (r matches Err(e) && invalid_format_error(e)),
            flag_key@.len() > 0 ==> ((r matches Err(e) && resolver_error(e)) || (exists|
                flags: Seq<ResolvedFlag>,
            |
                #[trigger] get_flag_post::<T>(flag_key@, flags, default_value@, r))),
    {
        match self.resolve_value(flag_key, &self.context) {
            Err(e) => {
                proof {
                    if flag_key@.len() > 0 && !resolver_error(e) {
                        let flags = choose|flags: Seq<ResolvedFlag>|
                            #[trigger] resolution_post(
                                flag_key@,
                                flags,
                                Err::<EvaluationDetails<ConfidenceValue>, EvaluationError>(e),
                            );
                        assert(get_flag_post::<T>(
                            flag_key@,
                            flags,
                            default_value@,
                            Err::<EvaluationDetails<T>, EvaluationError>(e),
                        ));
                    }
                }
                Err(e)
            },
            Ok(details) => {
                let ghost d = details;
                let r = coerce_details(flag_key, details, default_value);
                proof {
                    let flags = choose|flags: Seq<ResolvedFlag>|
                        #[trigger] resolution_post(
                            flag_key@,
                            flags,
                            Ok::<EvaluationDetails<ConfidenceValue>, EvaluationError>(d),
                        );
                    assert(coercion_post::<T>(flag_key@, d, default_value@, r));
                    assert(get_flag_post::<T>(flag_key@, flags, default_value@, r));
                }
                r
            },
        }
    }
}

} // verus!
