//! Event tracking, up to the wire: merging the client's context with an
//! event payload (the payload winning on collision) and building the
//! publish request. Dispatching the request is the caller's: delivery is
//! fire-and-forget and its outcome never reaches the tracker.
use crate::confidence_value::fields_model;
use crate::confidence_value::lemma_fields_values_wf_index;
use crate::confidence_value::StructValue;
use crate::conversion_trait::struct_to_wire_fields;
use crate::get_sdk_version;
use crate::models::SDK;
use crate::resolve::NetworkFlagResolver;
use crate::wire::wire_object_models;
use crate::wire::WireValue;
use crate::Confidence;
use crate::SDK_ID;
use vstd::prelude::*;

verus! {

broadcast use vstd::std_specs::vec::group_vec_axioms, vstd::seq::group_seq_axioms;

/// One event of a publish request, its payload already in wire form.
#[derive(Debug)]
pub struct Event {
    /// The event identifier, in the form `eventDefinitions/<name>`.
    pub event_definition: String,
    /// When the event happened, as an RFC 3339 timestamp.
    pub event_time: String,
    /// The merged context-and-payload of the event, in wire form.
    pub payload: Vec<(String, WireValue)>,
}

/// The body of an event publish request, ready for wire serialization.
#[derive(Debug)]
pub struct EventRequest {
    /// The client secret.
    pub client_secret: String,
    /// The events to publish.
    pub events: Vec<Event>,
    /// When the request was sent, as an RFC 3339 timestamp.
    pub send_time: String,
    /// The identity of this SDK.
    pub sdk: SDK,
}

/// Merge an event payload over a context: the union of both, the
/// payload winning on a key collision.
pub fn merge_context(context: &StructValue, message: &StructValue) -> (r: StructValue)
    ensures
        r.model() == context.model().union_prefer_right(message.model()),
        context.wf() && message.wf() ==> r.wf(),
{
    let mut merged = context.clone();
    let ghost base = context.model();
    let n = message.fields.len();
    proof {
        assert(message.fields@.subrange(0, 0) =~= Seq::<(
            String,
            crate::confidence_value::ConfidenceValue,
        )>::empty());
        assert(base.union_prefer_right(Map::empty()) =~= base);
    }
    for i in 0..n
        invariant
            n == message.fields@.len(),
            merged.model() == base.union_prefer_right(
                fields_model(message.fields@.subrange(0, i as int)),
            ),
            base == context.model(),
            context.wf() && message.wf() ==> merged.wf(),
        decreases n - i,
    {
        let key = message.fields[i].0.clone();
        let value = message.fields[i].1.clone();
        let ghost pre = fields_model(message.fields@.subrange(0, i as int));
        let ghost post = fields_model(message.fields@.subrange(0, i + 1 as int));
        proof {
            assert(message.fields@.subrange(0, i + 1 as int).drop_last() =~= message.fields@
                .subrange(0, i as int));
            assert(message.fields@.subrange(0, i + 1 as int).last() == message.fields@[i as int]);
            assert(base.union_prefer_right(pre).insert(key@, value.model())
                =~= base.union_prefer_right(post));
            if message.wf() {
                lemma_fields_values_wf_index(message.fields@, i as int);
            }
        }
        merged.add_field(key.as_str(), value);
    }
    proof {
        assert(message.fields@.subrange(0, n as int) =~= message.fields@);
    }
    merged
}

impl<R: NetworkFlagResolver> Confidence<R> {
    /// Build the publish request for one tracked event: the client's
    /// context merged with the payload (payload winning), rendered as
    /// wire JSON, under `eventDefinitions/<name>`, stamped with the
    /// given send time. The caller dispatches the request in the
    /// background and discards its outcome.
    pub fn prepare_track_event(&self, name: &str, message: &StructValue, send_time: &str) -> (r:
        EventRequest)
        requires
            self.context.wf(),
            message.wf(),
        ensures
            r.client_secret@ == self.api_config.api_key@,
            r.send_time@ == send_time@,
            r.sdk.id@ == SDK_ID@,
            r.sdk.version@ == "&root.version"@,
            r.events@.len() == 1,
            r.events@[0].event_definition@ == "eventDefinitions/"@ + name@,
            r.events@[0].event_time@ == send_time@,
            wire_object_models(
                r.events@[0].payload@,
                self.context.model().union_prefer_right(message.model()),
            ),
    {
        let merged = merge_context(&self.context, message);
        let payload = struct_to_wire_fields(&merged);
        let event = Event {
            event_definition: String::from_str("eventDefinitions/").concat(name),
            event_time: send_time.to_owned(),
            payload,
        };
        let sdk = SDK { id: SDK_ID.to_owned(), version: get_sdk_version() };
        EventRequest {
            client_secret: self.api_config.api_key.clone(),
            events: vec![event],
            send_time: send_time.to_owned(),
            sdk,
        }
    }
}

} // verus!
