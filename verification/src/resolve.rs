//! The pluggable resolver contract, and the request builder of the
//! network resolver: what can be computed and checked of a resolve round
//! trip without performing it.
use crate::confidence_value::StructValue;
use crate::conversion_trait::struct_to_wire_fields;
use crate::get_sdk_version;
use crate::lemma_spec_split_len;
use crate::models::APIConfig;
use crate::models::ResolveError;
use crate::models::ResolveRequest;
use crate::models::ResolvedFlags;
use crate::models::SDK;
use crate::spec_split;
use crate::split_flag_key;
use crate::wire::wire_object_models;
use crate::wire::WireValue;
use crate::SDK_ID;
use vstd::prelude::*;

verus! {

broadcast use vstd::std_specs::vec::group_vec_axioms, vstd::seq::group_seq_axioms;

/// An abstract "resolve these flag names against this context"
/// capability. The network implementation performs a resolve round trip;
/// a deterministic test double may stand in for it. Nothing is promised
/// of the outcome: every caller in this crate handles every answer.
pub trait NetworkFlagResolver {
    /// Resolve the given flag keys against the given evaluation context.
    fn resolve(
        &self,
        config: &APIConfig,
        flags: Vec<String>,
        evaluation_context: &StructValue,
    ) -> Result<ResolvedFlags, ResolveError>;
}

/// The flag name a requested key is normalized to: `flags/` followed by
/// the key's first dot-separated segment.
pub open spec fn spec_flag_name(key: Seq<char>) -> Seq<char> {
    "flags/"@ + spec_split(key, '.')[0]
}

/// The request builder of the network resolver. Building and decoding
/// are verified here; the round trip itself is the caller's.
#[derive(Clone, Copy, Default)]
pub struct ConfidenceResolver;

impl ConfidenceResolver {
    /// Build the body of a resolve request: each requested key normalized
    /// to its flag name, the context rendered as wire JSON, the client
    /// secret and SDK identity alongside, `apply` always set.
    pub fn make_request(
        &self,
        config: &APIConfig,
        flags: &Vec<String>,
        evaluation_context: &StructValue,
    ) -> (r: ResolveRequest)
        requires
            evaluation_context.wf(),
        ensures
            r.client_secret@ == config.api_key@,
            r.apply == true,
            r.sdk.id@ == SDK_ID@,
            r.sdk.version@ == "&root.version"@,
            wire_object_models(r.evaluation_context@, evaluation_context.model()),
            r.flags@.len() == flags@.len(),
            forall|i: int|
                0 <= i < flags@.len() ==> (#[trigger] r.flags@[i])@ == spec_flag_name(
                    flags@[i]@,
                ),
    {
        let n = flags.len();
        let mut normalized: Vec<String> = Vec::new();
        for i in 0..n
            invariant
                n == flags@.len(),
                normalized@.len() == i,
                forall|j: int|
                    0 <= j < i ==> (#[trigger] normalized@[j])@ == spec_flag_name(flags@[j]@),
            decreases n - i,
        {
            let segments = split_flag_key(flags[i].as_str());
            proof {
                lemma_spec_split_len(flags@[i as int]@, '.');
            }
            let name = String::from_str("flags/").concat(segments[0].as_str());
            normalized.push(name);
        }

        let context = struct_to_wire_fields(evaluation_context);
        let sdk = SDK { id: SDK_ID.to_owned(), version: get_sdk_version() };
        ResolveRequest {
            client_secret: config.api_key.clone(),
            apply: true,
            sdk,
            evaluation_context: context,
            flags: normalized,
        }
    }
}

} // verus!
