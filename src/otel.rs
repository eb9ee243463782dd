use vstd::prelude::*;
use vstd::string::*;
use crate::attributes::{SpanAttributes, span_type_of, text_at};
use crate::indexed::{
    completion_output, input_chat_messages_from_prompt_content, messages_to_json, opt_model,
    output_from_completion_content, prompt_content_key, prompt_messages,
};
use crate::json::{
    Json, JsonModel, entries_model, lemma_entries_model_index, lemma_lookup_prefix, lemma_lookup_push,
    items_model, lemma_items_model_index, lookup, map_of, object_get, object_map,
};
use crate::keys::{AI_PROMPT_MESSAGES, AI_RESPONSE_TEXT, INPUT_ATTRIBUTE_NAME, OUTPUT_ATTRIBUTE_NAME};
use crate::outside::{parse_json, parsed_json, regex_is_match, regex_matches};
use crate::span::{DEFAULT_VERSION, Span, SpanType};
use crate::text::same_text;

verus! {

/// Keys of indexed prompt and completion content, which the span's input and
/// output take up.
pub const INDEXED_CONTENT_PATTERN: &'static str = r"gen_ai\.(prompt|completion)\.\d+\.(content|role)";

/// A decoded wire span.
pub struct OtelSpan {
    pub trace_id: Vec<u8>,
    pub span_id: Vec<u8>,
    pub parent_span_id: Vec<u8>,
    pub name: String,
    pub attributes: Vec<(String, Json)>,
    pub start_time_unix_nano: u64,
    pub end_time_unix_nano: u64,
}

/// The bytes read as a big-endian unsigned number.
pub open spec fn be_value(b: Seq<u8>) -> nat
    decreases b.len(),
{
    if b.len() == 0 {
        0
    } else {
        (be_value(b.drop_last()) * 256 + b.last()) as nat
    }
}

/// The identifier that a byte string stands for: sixteen bytes read
/// big-endian; a shorter string is zero-extended on the left, and of a longer
/// one the last sixteen bytes count.
pub open spec fn id_of_bytes(b: Seq<u8>) -> u128 {
    (be_value(b) % (u128::MAX as nat + 1)) as u128
}

/// The identifier that a byte string stands for.
pub fn id_from_bytes(bytes: &Vec<u8>) -> (r: u128)
    ensures
        r == id_of_bytes(bytes@),
{
    let ghost m: int = u128::MAX as int + 1;
    let mut acc: u128 = 0;
    let mut i: usize = 0;
    while i < bytes.len()
        invariant
            i <= bytes.len(),
            m == u128::MAX as int + 1,
            acc as int == be_value(bytes@.subrange(0, i as int)) as int % m,
        decreases bytes.len() - i,
    {
        let ghost prev = be_value(bytes@.subrange(0, i as int)) as int;
        let b = bytes[i];
        proof {
            assert(bytes@.subrange(0, i + 1).drop_last() =~= bytes@.subrange(0, i as int));
            vstd::arithmetic::div_mod::lemma_mul_mod_noop_left(prev, 256, m);
            vstd::arithmetic::div_mod::lemma_add_mod_noop(prev * 256, b as int, m);
            vstd::arithmetic::div_mod::lemma_small_mod(b as nat, m as nat);
            vstd::arithmetic::div_mod::lemma_mod_twice(prev * 256, m);
        }
        acc = acc.wrapping_mul(256).wrapping_add(b as u128);
        i = i + 1;
    }
    assert(bytes@.subrange(0, bytes.len() as int) =~= bytes@);
    acc
}

/// A wire timestamp as signed nanoseconds; one beyond the signed range
/// degrades to the epoch.
pub open spec fn time_of_nanos(n: u64) -> i64 {
    if n <= i64::MAX as u64 {
        n as i64
    } else {
        0
    }
}

pub fn nanos_to_time(n: u64) -> (r: i64)
    ensures
        r == time_of_nanos(n),
{
    if n <= i64::MAX as u64 {
        n as i64
    } else {
        0
    }
}

/// Whether an attribute is stored with the span: the generic input and output
/// keys, and indexed prompt and completion content keys, are not.
pub open spec fn attribute_kept(k: Seq<char>) -> bool {
    k != INPUT_ATTRIBUTE_NAME@ && k != OUTPUT_ATTRIBUTE_NAME@ && regex_matches(INDEXED_CONTENT_PATTERN@, k)
        != Some(true)
}

/// The attributes that a span keeps of the wire attributes.
pub open spec fn kept_attributes(m: Map<Seq<char>, JsonModel>) -> Map<Seq<char>, JsonModel> {
    Map::new(|k: Seq<char>| m.contains_key(k) && attribute_kept(k), |k: Seq<char>| m[k])
}

pub fn should_keep_attribute(attribute: &str) -> (r: bool)
    ensures
        r == attribute_kept(attribute@),
{
    if same_text(attribute, INPUT_ATTRIBUTE_NAME) || same_text(attribute, OUTPUT_ATTRIBUTE_NAME) {
        return false;
    }
    match regex_is_match(INDEXED_CONTENT_PATTERN, attribute) {
        Some(matched) => !matched,
        None => true,
    }
}

fn keep_attributes(all: &Vec<(String, Json)>) -> (r: Vec<(String, Json)>)
    ensures
        object_map(r@) == kept_attributes(object_map(all@)),
{
    let ghost full = entries_model(all@);
    proof {
        lemma_entries_model_index(all@);
    }
    let mut out: Vec<(String, Json)> = Vec::new();
    let mut i: usize = 0;
    while i < all.len()
        invariant
            i <= all.len(),
            full == entries_model(all@),
            full.len() == all.len(),
            forall|j: int| 0 <= j < all.len() ==> #[trigger] full[j] == (all@[j].0@, all@[j].1@),
            forall|k: Seq<char>| #[trigger]
                lookup(entries_model(out@), k) == if attribute_kept(k) {
                    lookup(full.subrange(0, i as int), k)
                } else {
                    None
                },
        decreases all.len() - i,
    {
        let keep = should_keep_attribute(all[i].0.as_str());
        let ghost e = full[i as int];
        assert forall|k: Seq<char>| #[trigger]
            lookup(full.subrange(0, i + 1), k) == if e.0 == k {
                Some(e.1)
            } else {
                lookup(full.subrange(0, i as int), k)
            } by {
            lemma_lookup_prefix(full, i + 1, k);
        }
        if keep {
            let entry = (all[i].0.clone(), all[i].1.deep_copy());
            let ghost before = entries_model(out@);
            let ghost before_out = out@;
            out.push(entry);
            proof {
                assert(out@.drop_last() =~= before_out);
                assert(entries_model(out@) == before.push(e));
                assert forall|k: Seq<char>| #[trigger]
                    lookup(entries_model(out@), k) == if e.0 == k {
                        Some(e.1)
                    } else {
                        lookup(before, k)
                    } by {
                    lemma_lookup_push(before, e, k);
                }
            }
        }
        i = i + 1;
    }
    proof {
        assert(full.subrange(0, all.len() as int) =~= full);
        assert(object_map(out@) =~= kept_attributes(object_map(all@)));
    }
    out
}

/// A generic payload: the text under `k`, parsed as JSON where it is JSON and
/// kept as a string where it is not.
pub open spec fn generic_payload(m: Map<Seq<char>, JsonModel>, k: Seq<char>) -> Option<JsonModel> {
    match text_at(m, k) {
        Some(s) => match parsed_json(s) {
            Some(v) => Some(v),
            None => Some(JsonModel::Str(s)),
        },
        None => None,
    }
}

/// A chat message: an object with a string `role` and a `content` that is a
/// string or a list of content parts.
pub open spec fn is_chat_message(v: JsonModel) -> bool {
    &&& v is Object
    &&& text_at(map_of(v->Object_0), "role"@) is Some
    &&& map_of(v->Object_0).contains_key("content"@)
    &&& (map_of(v->Object_0)["content"@] is Str || map_of(v->Object_0)["content"@] is Array)
}

/// A list of chat messages.
pub open spec fn is_message_list(v: JsonModel) -> bool {
    v is Array && forall|i: int| 0 <= i < v->Array_0.len() ==> is_chat_message(#[trigger] v->Array_0[i])
}

fn is_chat_message_value(v: &Json) -> (r: bool)
    ensures
        r == is_chat_message(v@),
{
    match v {
        Json::Object(entries) => {
            let role_ok = match object_get(entries, "role") {
                Some(Json::Str(_)) => true,
                _ => false,
            };
            let content_ok = match object_get(entries, "content") {
                Some(Json::Str(_)) => true,
                Some(Json::Array(_)) => true,
                _ => false,
            };
            role_ok && content_ok
        },
        _ => false,
    }
}

fn is_message_list_value(items: &Vec<Json>) -> (r: bool)
    ensures
        r == is_message_list(JsonModel::Array(items_model(items@))),
{
    proof {
        lemma_items_model_index(items@);
    }
    let mut i: usize = 0;
    while i < items.len()
        invariant
            i <= items.len(),
            items_model(items@).len() == items.len(),
            forall|j: int| 0 <= j < items.len() ==> #[trigger] items_model(items@)[j] == items@[j]@,
            forall|j: int| 0 <= j < i ==> is_chat_message(#[trigger] items_model(items@)[j]),
        decreases items.len() - i,
    {
        if !is_chat_message_value(&items[i]) {
            let ghost v = JsonModel::Array(items_model(items@));
            assert(v->Array_0[i as int] == items_model(items@)[i as int]);
            assert(!is_chat_message(v->Array_0[i as int]));
            return false;
        }
        i = i + 1;
    }
    let ghost v = JsonModel::Array(items_model(items@));
    assert forall|j: int| 0 <= j < v->Array_0.len() implies is_chat_message(#[trigger] v->Array_0[j]) by {
        assert(v->Array_0[j] == items_model(items@)[j]);
    }
    true
}

/// Chat messages of the serialized convention: the list of chat messages
/// that the messages attribute holds as JSON text; nothing where it holds
/// anything else.
pub open spec fn serialized_messages(m: Map<Seq<char>, JsonModel>) -> Option<JsonModel> {
    match text_at(m, AI_PROMPT_MESSAGES@) {
        Some(s) => match parsed_json(s) {
            Some(v) => if is_message_list(v) {
                Some(v)
            } else {
                None
            },
            _ => None,
        },
        None => None,
    }
}

/// Input and output of a span of type `t` with wire attributes `m`, by the
/// first convention that applies: indexed, serialized, generic.
pub open spec fn span_payload(m: Map<Seq<char>, JsonModel>, bound: nat, t: SpanType) -> (
    Option<JsonModel>,
    Option<JsonModel>,
) {
    if t == SpanType::LLM && m.contains_key(prompt_content_key(0)) {
        (Some(JsonModel::Array(prompt_messages(m, bound))), completion_output(m, bound))
    } else if t == SpanType::LLM && m.contains_key(AI_PROMPT_MESSAGES@) {
        (
            serialized_messages(m),
            match text_at(m, AI_RESPONSE_TEXT@) {
                Some(s) => Some(JsonModel::Str(s)),
                None => None,
            },
        )
    } else {
        (generic_payload(m, INPUT_ATTRIBUTE_NAME@), generic_payload(m, OUTPUT_ATTRIBUTE_NAME@))
    }
}

fn generic_payload_of(attributes: &SpanAttributes, key: &str) -> (r: Option<Json>)
    ensures
        opt_model(r) == generic_payload(attributes@, key@),
{
    match object_get(&attributes.attributes, key) {
        Some(Json::Str(s)) => match parse_json(s.as_str()) {
            Some(v) => Some(v),
            None => Some(Json::Str(s.clone())),
        },
        _ => None,
    }
}

/// Whether a span of type `span_type` whose wire attributes are `attributes`
/// follows the indexed convention: an LLM span with prompt content at position 0.
pub fn uses_indexed_prompt(span_type: SpanType, attributes: &SpanAttributes) -> (r: bool)
    ensures
        r == (span_type == SpanType::LLM && attributes@.contains_key(prompt_content_key(0))),
{
    proof {
        reveal_strlit("gen_ai.prompt.0.content");
        reveal_strlit("gen_ai.prompt.");
        reveal_strlit(".content");
        reveal_strlit("0");
        assert(prompt_content_key(0) =~= "gen_ai.prompt.0.content"@);
    }
    span_type == SpanType::LLM && object_get(&attributes.attributes, "gen_ai.prompt.0.content").is_some()
}

impl Span {
    /// Converts a decoded wire span into a span.
    pub fn from_otel_span(otel_span: OtelSpan) -> (r: Span)
        ensures
            r.version@ == DEFAULT_VERSION@,
            r.trace_id == id_of_bytes(otel_span.trace_id@),
            r.span_id == id_of_bytes(otel_span.span_id@),
            r.parent_span_id == if otel_span.parent_span_id@.len() == 0 {
                None
            } else {
                Some(id_of_bytes(otel_span.parent_span_id@))
            },
            r.name == otel_span.name,
            r.attributes is Object,
            object_map(r.attributes->Object_0@) == kept_attributes(object_map(otel_span.attributes@)),
            r.start_time == time_of_nanos(otel_span.start_time_unix_nano),
            r.end_time == time_of_nanos(otel_span.end_time_unix_nano),
            r.span_type == span_type_of(kept_attributes(object_map(otel_span.attributes@))),
            (opt_model(r.input), opt_model(r.output)) == span_payload(
                object_map(otel_span.attributes@),
                otel_span.attributes@.len() as nat,
                r.span_type,
            ),
            r.events is None,
            r.labels is None,
    {
        let trace_id = id_from_bytes(&otel_span.trace_id);
        let span_id = id_from_bytes(&otel_span.span_id);
        let parent_span_id = if otel_span.parent_span_id.len() == 0 {
            None
        } else {
            Some(id_from_bytes(&otel_span.parent_span_id))
        };
        let all = SpanAttributes::new(otel_span.attributes);
        let kept = SpanAttributes::new(keep_attributes(&all.attributes));
        let span_type = kept.span_type();
        proof {
            reveal_strlit("gen_ai.prompt.0.content");
            reveal_strlit("gen_ai.prompt.");
            reveal_strlit(".content");
            reveal_strlit("0");
            assert(prompt_content_key(0) =~= "gen_ai.prompt.0.content"@);
        }
        let (input, output) = if uses_indexed_prompt(span_type, &all) {
            let messages = input_chat_messages_from_prompt_content(&all);
            let input = messages_to_json(messages);
            (Some(input), output_from_completion_content(&all))
        } else if span_type == SpanType::LLM && object_get(&all.attributes, AI_PROMPT_MESSAGES).is_some() {
            let input = match object_get(&all.attributes, AI_PROMPT_MESSAGES) {
                Some(Json::Str(s)) => match parse_json(s.as_str()) {
                    Some(Json::Array(items)) => if is_message_list_value(&items) {
                        Some(Json::Array(items))
                    } else {
                        None
                    },
                    _ => None,
                },
                _ => None,
            };
            let output = match object_get(&all.attributes, AI_RESPONSE_TEXT) {
                Some(Json::Str(s)) => Some(Json::Str(s.clone())),
                _ => None,
            };
            (input, output)
        } else {
            (
                generic_payload_of(&all, INPUT_ATTRIBUTE_NAME),
                generic_payload_of(&all, OUTPUT_ATTRIBUTE_NAME),
            )
        };
        Span {
            version: String::from_str(DEFAULT_VERSION),
            span_id,
            trace_id,
            parent_span_id,
            name: otel_span.name,
            attributes: Json::Object(kept.attributes),
            start_time: nanos_to_time(otel_span.start_time_unix_nano),
            end_time: nanos_to_time(otel_span.end_time_unix_nano),
            input,
            output,
            span_type,
            events: None,
            labels: None,
        }
    }
}

} // verus!
