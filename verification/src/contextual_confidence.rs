//! Context scoping: a client owns one evaluation context, mutable in
//! place by its single owner, and derivable into independent scopes that
//! never touch their parent.
use crate::confidence_value::fields_model;
use crate::confidence_value::lemma_fields_values_wf_index;
use crate::confidence_value::ConfidenceValue;
use crate::confidence_value::StructValue;
use crate::confidence_value::ValueModel;
use crate::resolve::NetworkFlagResolver;
use crate::Confidence;
use vstd::prelude::*;

verus! {

broadcast use vstd::std_specs::vec::group_vec_axioms, vstd::seq::group_seq_axioms;

/// A capability to carry and derive evaluation context.
pub trait Contextual: Sized {
    /// The evaluation context carried.
    spec fn spec_context(&self) -> Map<Seq<char>, ValueModel>;

    /// Whether the carried context is well-formed.
    spec fn spec_context_wf(&self) -> bool;

    /// Insert or overwrite one context entry in place.
    fn put_context(&mut self, key: &str, value: ConfidenceValue)
        ensures
            final(self).spec_context() == old(self).spec_context().insert(key@, value.model()),
            old(self).spec_context_wf() && value.wf() ==> final(self).spec_context_wf(),
    ;

    /// A copy of the carried context.
    fn get_context(&self) -> (r: StructValue)
        ensures
            r.model() == self.spec_context(),
            self.spec_context_wf() ==> r.wf(),
    ;

    /// A new, independent scope whose context is this one's with the
    /// given entries added, the added entries winning on collision; this
    /// scope itself is never mutated.
    fn with_context(&self, context: StructValue) -> (r: Self)
        ensures
            r.spec_context() == self.spec_context().union_prefer_right(context.model()),
            self.spec_context_wf() && context.wf() ==> r.spec_context_wf(),
    ;
}

impl<R: NetworkFlagResolver + Clone> Contextual for Confidence<R> {
    open spec fn spec_context(&self) -> Map<Seq<char>, ValueModel> {
        self.context.model()
    }

    open spec fn spec_context_wf(&self) -> bool {
        self.context.wf()
    }

    fn put_context(&mut self, key: &str, value: ConfidenceValue) {
        self.context.add_field(key, value);
    }

    fn get_context(&self) -> (r: StructValue) {
        self.context.clone()
    }

    fn with_context(&self, context: StructValue) -> (r: Self) {
        let mut merged = self.context.clone();
        let ghost base = self.context.model();
        let n = context.fields.len();
        proof {
            assert(context.fields@.subrange(0, 0) =~= Seq::<(String, ConfidenceValue)>::empty());
            assert(base.union_prefer_right(Map::empty()) =~= base);
        }
        for i in 0..n
            invariant
                n == context.fields@.len(),
                merged.model() == base.union_prefer_right(
                    fields_model(context.fields@.subrange(0, i as int)),
                ),
                base == self.context.model(),
                self.context.wf() && context.wf() ==> merged.wf(),
            decreases n - i,
        {
            let key = context.fields[i].0.clone();
            let value = context.fields[i].1.clone();
            let ghost pre = fields_model(context.fields@.subrange(0, i as int));
            let ghost post = fields_model(context.fields@.subrange(0, i + 1 as int));
            proof {
                assert(context.fields@.subrange(0, i + 1 as int).drop_last() =~= context.fields@
                    .subrange(0, i as int));
                assert(context.fields@.subrange(0, i + 1 as int).last() == context.fields@[
                    i as int]);
                assert(base.union_prefer_right(pre).insert(key@, value.model())
                    =~= base.union_prefer_right(post));
                if context.wf() {
                    lemma_fields_values_wf_index(context.fields@, i as int);
                }
            }
            merged.add_field(key.as_str(), value);
        }
        proof {
            assert(context.fields@.subrange(0, n as int) =~= context.fields@);
        }
        Confidence {
            api_config: self.api_config.clone(),
            context: merged,
            resolver: self.resolver.clone(),
        }
    }
}

} // verus!
