//! The caller-facing typed answer of a flag evaluation: value, reason,
//! variant and optional metadata.
use crate::confidence_value::ValueModel;
use vstd::prelude::*;

verus! {

broadcast use vstd::std_specs::vec::group_vec_axioms, vstd::seq::group_seq_axioms;

/// The typed answer of one evaluation.
#[derive(Debug)]
pub struct EvaluationDetails<T> {
    /// The value of the evaluation result.
    pub value: T,
    /// Why the evaluation reached this value.
    pub reason: Option<EvaluationReason>,
    /// The variant the value came from, when known.
    pub variant: Option<String>,
    /// Arbitrary properties a provider may attach.
    pub flag_metadata: Option<FlagMetadata>,
}

/// Reason for evaluation.
#[derive(Debug)]
pub enum EvaluationReason {
    /// The resolved value is static (no dynamic evaluation).
    Static,
    /// The resolved value fell back to a pre-configured value (no dynamic
    /// evaluation occurred or dynamic evaluation yielded no result).
    Default,
    /// The resolved value was the result of a dynamic evaluation, such as
    /// a rule or specific user-targeting.
    TargetingMatch,
    /// The resolved value was the result of pseudorandom assignment.
    Split,
    /// The resolved value was retrieved from cache.
    Cached,
    /// The resolved value was the result of the flag being disabled in the
    /// management system.
    Disabled,
    /// The reason for the resolved value could not be determined.
    Unknown,
    /// The resolved value was the result of an error.
    Error,
    /// Other custom reason.
    Other(String),
}

impl EvaluationReason {
    /// Structural equality, with custom reasons compared by their text.
    pub open spec fn same(self, other: EvaluationReason) -> bool {
        match self {
            EvaluationReason::Static => other is Static,
            EvaluationReason::Default => other is Default,
            EvaluationReason::TargetingMatch => other is TargetingMatch,
            EvaluationReason::Split => other is Split,
            EvaluationReason::Cached => other is Cached,
            EvaluationReason::Disabled => other is Disabled,
            EvaluationReason::Unknown => other is Unknown,
            EvaluationReason::Error => other is Error,
            EvaluationReason::Other(a) => other matches EvaluationReason::Other(b) && a@ == b@,
        }
    }

    /// The screaming-case name of this reason, custom reasons by their own
    /// text.
    pub fn to_string(&self) -> (r: String)
        ensures
            *self matches EvaluationReason::Other(reason) ==> r@ == reason@,
            *self == EvaluationReason::Static ==> r@ == "STATIC"@,
            *self == EvaluationReason::Default ==> r@ == "DEFAULT"@,
            *self == EvaluationReason::TargetingMatch ==> r@ == "TARGETING_MATCH"@,
            *self == EvaluationReason::Split ==> r@ == "SPLIT"@,
            *self == EvaluationReason::Cached ==> r@ == "CACHED"@,
            *self == EvaluationReason::Disabled ==> r@ == "DISABLED"@,
            *self == EvaluationReason::Unknown ==> r@ == "UNKNOWN"@,
            *self == EvaluationReason::Error ==> r@ == "ERROR"@,
    {
        match self {
            EvaluationReason::Static => "STATIC".to_owned(),
            EvaluationReason::Default => "DEFAULT".to_owned(),
            EvaluationReason::TargetingMatch => "TARGETING_MATCH".to_owned(),
            EvaluationReason::Split => "SPLIT".to_owned(),
            EvaluationReason::Cached => "CACHED".to_owned(),
            EvaluationReason::Disabled => "DISABLED".to_owned(),
            EvaluationReason::Unknown => "UNKNOWN".to_owned(),
            EvaluationReason::Error => "ERROR".to_owned(),
            EvaluationReason::Other(reason) => reason.clone(),
        }
    }
}

impl Clone for EvaluationReason {
    /// A copy equal to the original.
    fn clone(&self) -> (r: Self)
        ensures
            r == *self,
    {
        match self {
            EvaluationReason::Static => EvaluationReason::Static,
            EvaluationReason::Default => EvaluationReason::Default,
            EvaluationReason::TargetingMatch => EvaluationReason::TargetingMatch,
            EvaluationReason::Split => EvaluationReason::Split,
            EvaluationReason::Cached => EvaluationReason::Cached,
            EvaluationReason::Disabled => EvaluationReason::Disabled,
            EvaluationReason::Unknown => EvaluationReason::Unknown,
            EvaluationReason::Error => EvaluationReason::Error,
            EvaluationReason::Other(reason) => EvaluationReason::Other(reason.clone()),
        }
    }
}

impl PartialEq for EvaluationReason {
    fn eq(&self, other: &Self) -> (r: bool) {
        match self {
            EvaluationReason::Static => matches!(other, EvaluationReason::Static),
            EvaluationReason::Default => matches!(other, EvaluationReason::Default),
            EvaluationReason::TargetingMatch => matches!(other, EvaluationReason::TargetingMatch),
            EvaluationReason::Split => matches!(other, EvaluationReason::Split),
            EvaluationReason::Cached => matches!(other, EvaluationReason::Cached),
            EvaluationReason::Disabled => matches!(other, EvaluationReason::Disabled),
            EvaluationReason::Unknown => matches!(other, EvaluationReason::Unknown),
            EvaluationReason::Error => matches!(other, EvaluationReason::Error),
            EvaluationReason::Other(a) => match other {
                EvaluationReason::Other(b) => *a == *b,
                _ => false,
            },
        }
    }
}

impl vstd::std_specs::cmp::PartialEqSpecImpl for EvaluationReason {
    open spec fn obeys_eq_spec() -> bool {
        true
    }

    open spec fn eq_spec(&self, other: &Self) -> bool {
        self.same(*other)
    }
}

impl Default for EvaluationReason {
    /// The fallback reason is [`EvaluationReason::Unknown`].
    fn default() -> (r: Self)
        ensures
            r == EvaluationReason::Unknown,
    {
        EvaluationReason::Unknown
    }
}

/// A structure which supports definition of arbitrary properties, with
/// keys of type string, and values of type boolean, string, or number.
#[derive(Debug)]
pub struct FlagMetadata {
    /// The fields of the metadata.
    pub values: Vec<(String, FlagMetadataValue)>,
}

/// Supported values of flag metadata fields.
#[derive(Debug)]
pub enum FlagMetadataValue {
    Bool(bool),
    Int(i64),
    /// A double-precision number, carried as its IEEE 754 bit pattern.
    Float(u64),
    String(String),
}

impl FlagMetadataValue {
    /// The mathematical model of this metadata value.
    pub open spec fn model(self) -> ValueModel {
        match self {
            FlagMetadataValue::Bool(b) => ValueModel::Bool(b),
            FlagMetadataValue::Int(i) => ValueModel::Int(i),
            FlagMetadataValue::Float(bits) => ValueModel::Float(bits),
            FlagMetadataValue::String(s) => ValueModel::Str(s@),
        }
    }
}

/// The map a sequence of metadata fields stands for; a later entry
/// overrides an earlier one with the same name.
pub open spec fn metadata_model(values: Seq<(String, FlagMetadataValue)>) -> Map<
    Seq<char>,
    ValueModel,
>
    decreases values,
{
    if values.len() == 0 {
        Map::empty()
    } else {
        metadata_model(values.drop_last()).insert(
            values.last().0@,
            values.last().1.model(),
        )
    }
}

impl FlagMetadata {
    /// The mathematical model of this metadata: a map from name to value
    /// model.
    pub open spec fn model(self) -> Map<Seq<char>, ValueModel> {
        metadata_model(self.values@)
    }

    /// Empty metadata.
    pub fn new() -> (r: FlagMetadata)
        ensures
            r.model() == Map::<Seq<char>, ValueModel>::empty(),
    {
        FlagMetadata { values: Vec::new() }
    }

    /// Append given `key` and `value` to `self` and return it.
    #[must_use]
    pub fn with_value(self, key: &str, value: FlagMetadataValue) -> (r: Self)
        ensures
            r.model() == self.model().insert(key@, value.model()),
    {
        let mut updated = self;
        updated.add_value(key, value);
        updated
    }

    /// Append given `key` and `value` to `self` in place; in the model a
    /// later entry overrides an earlier one of the same name.
    pub fn add_value(&mut self, key: &str, value: FlagMetadataValue)
        ensures
            final(self).model() == old(self).model().insert(key@, value.model()),
    {
        let owned: String = key.to_owned();
        proof {
            assert(self.values@.push((owned, value)).drop_last() =~= self.values@);
        }
        self.values.push((owned, value));
    }
}

} // verus!
