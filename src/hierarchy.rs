use vstd::prelude::*;
use vstd::string::*;
use crate::attributes::{
    lemma_extend_span_path_idempotent, lemma_extend_span_path_no_duplicate, path_extended, text_at,
};
use crate::json::{Json, JsonModel, entries_model, lemma_entries_model_index, lookup, object_insert, object_map};
use crate::text::has_suffix;
use crate::keys::{
    GEN_AI_INPUT_TOKENS, GEN_AI_OUTPUT_TOKENS, GEN_AI_RESPONSE_MODEL, GEN_AI_SYSTEM, GEN_AI_TOTAL_COST,
    GEN_AI_TOTAL_TOKENS, LLM_NODE_RENDERED_PROMPT, SPAN_PATH, TRACE_TYPE,
};
use crate::outside::new_random_id;
use crate::span::{DEFAULT_VERSION, Span, SpanType, TraceType, trace_type_name};
use crate::text::{join3, same_text};

verus! {

/// Usage record of a workflow LLM node.
pub struct LlmLog {
    pub input_token_count: i64,
    pub output_token_count: i64,
    pub total_token_count: i64,
    pub model: String,
    pub provider: String,
    /// A JSON number, or `Null` where the cost is not a finite number.
    pub approximate_cost: Json,
    pub prompt: String,
}

/// Metadata that a node may carry.
pub enum MetaLog {
    LLM(LlmLog),
}

/// One executed node of a workflow run. The nodes of one run have distinct
/// identifiers (see [`ids_unique`]).
pub struct Message {
    pub id: u128,
    pub node_name: String,
    pub node_type: String,
    pub value: Json,
    pub start_time: i64,
    pub end_time: i64,
    pub meta_log: Option<MetaLog>,
    pub input_message_ids: Vec<u128>,
}

/// The trace and span that are active when a run starts.
pub struct CurrentTraceAndSpan {
    pub trace_id: u128,
    pub parent_span_id: u128,
    pub parent_span_path: Option<String>,
}

/// Start and end of a run.
pub struct RunTraceStats {
    pub start_time: i64,
    pub end_time: i64,
}

/// The values of the nodes of type `node_type`, by node name; of two nodes
/// with one name, the later counts.
pub open spec fn named_values(msgs: Seq<Message>, node_type: Seq<char>) -> Map<Seq<char>, JsonModel>
    decreases msgs.len(),
{
    if msgs.len() == 0 {
        Map::empty()
    } else {
        let prev = named_values(msgs.drop_last(), node_type);
        if msgs.last().node_type@ == node_type {
            prev.insert(msgs.last().node_name@, msgs.last().value@)
        } else {
            prev
        }
    }
}

/// The path of a run's root span.
pub open spec fn root_path(current: Option<CurrentTraceAndSpan>, name: Seq<char>) -> Seq<char> {
    match current {
        Some(c) => match c.parent_span_path {
            Some(p) => p@ + "."@ + name,
            None => name,
        },
        None => name,
    }
}

fn collect_named_values(messages: &Vec<Message>, node_type: &str) -> (r: Json)
    ensures
        r is Object,
        object_map(r->Object_0@) == named_values(messages@, node_type@),
{
    let mut entries: Vec<(String, Json)> = Vec::new();
    let mut i: usize = 0;
    proof {
        assert(object_map(entries@) =~= Map::empty());
        assert(messages@.subrange(0, 0) =~= Seq::<Message>::empty());
    }
    while i < messages.len()
        invariant
            i <= messages.len(),
            object_map(entries@) == named_values(messages@.subrange(0, i as int), node_type@),
        decreases messages.len() - i,
    {
        proof {
            assert(messages@.subrange(0, i + 1).drop_last() =~= messages@.subrange(0, i as int));
        }
        if same_text(messages[i].node_type.as_str(), node_type) {
            object_insert(&mut entries, messages[i].node_name.clone(), messages[i].value.deep_copy());
        }
        i = i + 1;
    }
    assert(messages@.subrange(0, messages.len() as int) =~= messages@);
    Json::Object(entries)
}

/// Node types that become spans.
pub open spec fn is_traced(node_type: Seq<char>) -> bool {
    node_type == "LLM"@ || node_type == "SemanticSearch"@
}

impl Span {
    /// The root span of a run, given its identifier and the trace identifier
    /// to use where no trace is active.
    pub fn parent_span_with_ids(
        current_trace_and_span: Option<CurrentTraceAndSpan>,
        run_stats: &RunTraceStats,
        name: &String,
        messages: &Vec<Message>,
        trace_type: TraceType,
        span_id: u128,
        fresh_trace_id: u128,
    ) -> (r: Span)
        ensures
            r.span_id == span_id,
            r.trace_id == match current_trace_and_span {
                Some(c) => c.trace_id,
                None => fresh_trace_id,
            },
            r.parent_span_id == match current_trace_and_span {
                Some(c) => Some(c.parent_span_id),
                None => None,
            },
            r.name@ == name@,
            r.version@ == DEFAULT_VERSION@,
            r.start_time == run_stats.start_time,
            r.end_time == run_stats.end_time,
            r.span_type == SpanType::PIPELINE,
            r.attributes@ == JsonModel::Object(
                seq![
                    (TRACE_TYPE@, JsonModel::Str(trace_type_name(trace_type))),
                    (SPAN_PATH@, JsonModel::Str(root_path(current_trace_and_span, name@))),
                ],
            ),
            r.input matches Some(i) && i is Object && object_map(i->Object_0@) == named_values(messages@, "Input"@),
            r.output matches Some(o) && o is Object && object_map(o->Object_0@) == named_values(messages@, "Output"@),
            r.events is None,
            r.labels is None,
    {
        let inputs = collect_named_values(messages, "Input");
        let outputs = collect_named_values(messages, "Output");
        let (trace_id, parent_span_id, path) = match current_trace_and_span {
            Some(c) => {
                let path = match c.parent_span_path {
                    Some(p) => join3(p.as_str(), ".", name.as_str()),
                    None => name.clone(),
                };
                (c.trace_id, Some(c.parent_span_id), path)
            },
            None => (fresh_trace_id, None, name.clone()),
        };
        let entries = vec![
            (String::from_str(TRACE_TYPE), trace_type.to_json()),
            (String::from_str(SPAN_PATH), Json::Str(path)),
        ];
        proof {
            lemma_entries_model_index(entries@);
            assert(entries_model(entries@) =~= seq![
                (TRACE_TYPE@, JsonModel::Str(trace_type_name(trace_type))),
                (SPAN_PATH@, JsonModel::Str(root_path(current_trace_and_span, name@))),
            ]);
        }
        Span {
            span_id,
            start_time: run_stats.start_time,
            end_time: run_stats.end_time,
            version: String::from_str(DEFAULT_VERSION),
            trace_id,
            parent_span_id,
            name: name.clone(),
            attributes: Json::Object(entries),
            input: Some(inputs),
            output: Some(outputs),
            span_type: SpanType::PIPELINE,
            events: None,
            labels: None,
        }
    }

    /// The root span of a run: it joins the active trace where there is one,
    /// else a new trace, and gets a new identifier.
    pub fn create_parent_span_in_run_trace(
        current_trace_and_span: Option<CurrentTraceAndSpan>,
        run_stats: &RunTraceStats,
        name: &String,
        messages: &Vec<Message>,
        trace_type: TraceType,
    ) -> (r: Span)
        ensures
            current_trace_and_span matches Some(c) ==> r.trace_id == c.trace_id && r.parent_span_id == Some(
                c.parent_span_id,
            ),
            current_trace_and_span is None ==> r.parent_span_id is None,
            r.name@ == name@,
            r.version@ == DEFAULT_VERSION@,
            r.events is None,
            r.labels is None,
            r.start_time == run_stats.start_time,
            r.end_time == run_stats.end_time,
            r.span_type == SpanType::PIPELINE,
            r.attributes@ == JsonModel::Object(
                seq![
                    (TRACE_TYPE@, JsonModel::Str(trace_type_name(trace_type))),
                    (SPAN_PATH@, JsonModel::Str(root_path(current_trace_and_span, name@))),
                ],
            ),
            r.input matches Some(i) && i is Object && object_map(i->Object_0@) == named_values(messages@, "Input"@),
            r.output matches Some(o) && o is Object && object_map(o->Object_0@) == named_values(messages@, "Output"@),
    {
        let fresh_trace_id = match &current_trace_and_span {
            Some(c) => c.trace_id,
            None => new_random_id(),
        };
        let span_id = new_random_id();
        Span::parent_span_with_ids(current_trace_and_span, run_stats, name, messages, trace_type, span_id, fresh_trace_id)
    }
}

/// The attributes of a node's span: its path, and for an LLM node the token
/// counts, response model, provider, total cost and rendered prompt.
pub open spec fn node_attributes(meta_log: Option<MetaLog>, span_path: Seq<char>) -> Seq<(Seq<char>, JsonModel)> {
    match meta_log {
        Some(MetaLog::LLM(l)) => seq![
            (GEN_AI_INPUT_TOKENS@, JsonModel::Int(l.input_token_count)),
            (GEN_AI_OUTPUT_TOKENS@, JsonModel::Int(l.output_token_count)),
            (GEN_AI_TOTAL_TOKENS@, JsonModel::Int(l.total_token_count)),
            (GEN_AI_RESPONSE_MODEL@, JsonModel::Str(l.model@)),
            (GEN_AI_SYSTEM@, JsonModel::Str(l.provider@)),
            (GEN_AI_TOTAL_COST@, l.approximate_cost@),
            (LLM_NODE_RENDERED_PROMPT@, JsonModel::Str(l.prompt@)),
            (SPAN_PATH@, JsonModel::Str(span_path)),
        ],
        None => seq![(SPAN_PATH@, JsonModel::Str(span_path))],
    }
}

pub fn span_attributes_from_meta_log(meta_log: &Option<MetaLog>, span_path: String) -> (r: Json)
    ensures
        r is Object,
        entries_model(r->Object_0@) == node_attributes(*meta_log, span_path@),
{
    let mut entries: Vec<(String, Json)> = Vec::new();
    match meta_log {
        Some(MetaLog::LLM(l)) => {
            entries.push((String::from_str(GEN_AI_INPUT_TOKENS), Json::Int(l.input_token_count)));
            entries.push((String::from_str(GEN_AI_OUTPUT_TOKENS), Json::Int(l.output_token_count)));
            entries.push((String::from_str(GEN_AI_TOTAL_TOKENS), Json::Int(l.total_token_count)));
            entries.push((String::from_str(GEN_AI_RESPONSE_MODEL), Json::Str(l.model.clone())));
            entries.push((String::from_str(GEN_AI_SYSTEM), Json::Str(l.provider.clone())));
            entries.push((String::from_str(GEN_AI_TOTAL_COST), l.approximate_cost.deep_copy()));
            entries.push((String::from_str(LLM_NODE_RENDERED_PROMPT), Json::Str(l.prompt.clone())));
        },
        None => {},
    }
    entries.push((String::from_str(SPAN_PATH), Json::Str(span_path)));
    proof {
        lemma_entries_model_index(entries@);
        assert(entries_model(entries@) =~= node_attributes(*meta_log, span_path@));
    }
    Json::Object(entries)
}

/// The nodes of a run are keyed by identifier: no two share one.
pub open spec fn ids_unique(msgs: Seq<Message>) -> bool {
    forall|i: int, j: int| 0 <= i < j < msgs.len() ==> msgs[i].id != msgs[j].id
}

/// Where node identifiers are unique, the node found for an identifier is
/// the node that has it.
pub proof fn lemma_node_with_unique_id(msgs: Seq<Message>, i: int)
    requires
        ids_unique(msgs),
        0 <= i < msgs.len(),
    ensures
        node_with_id(msgs, msgs[i].id) == Some(msgs[i]),
{
    lemma_node_with_id(msgs, msgs[i].id, i);
}

/// The last node with identifier `id`.
pub open spec fn node_with_id(msgs: Seq<Message>, id: u128) -> Option<Message>
    decreases msgs.len(),
{
    if msgs.len() == 0 {
        None
    } else if msgs.last().id == id {
        Some(msgs.last())
    } else {
        node_with_id(msgs.drop_last(), id)
    }
}

proof fn lemma_node_with_id(msgs: Seq<Message>, id: u128, i: int)
    requires
        -1 <= i < msgs.len(),
        forall|j: int| i < j < msgs.len() ==> msgs[j].id != id,
        i >= 0 ==> msgs[i].id == id,
    ensures
        node_with_id(msgs, id) == if i >= 0 {
            Some(msgs[i])
        } else {
            None
        },
    decreases msgs.len(),
{
    if msgs.len() > 0 && i < msgs.len() - 1 {
        lemma_node_with_id(msgs.drop_last(), id, i);
    }
}

fn find_node(messages: &Vec<Message>, id: u128) -> (r: Option<usize>)
    ensures
        match r {
            Some(i) => i < messages.len() && node_with_id(messages@, id) == Some(messages@[i as int]),
            None => node_with_id(messages@, id) is None,
        },
{
    let mut i: usize = messages.len();
    while i > 0
        invariant
            i <= messages.len(),
            forall|j: int| i <= j < messages.len() ==> messages@[j].id != id,
        decreases i,
    {
        if messages[i - 1].id == id {
            proof {
                lemma_node_with_id(messages@, id, i - 1);
            }
            return Some(i - 1);
        }
        i = i - 1;
    }
    proof {
        lemma_node_with_id(messages@, id, -1);
    }
    None
}

/// The values of the upstream nodes named by `ids`, by node name; an
/// identifier of no node is passed over.
pub open spec fn upstream_values(msgs: Seq<Message>, ids: Seq<u128>) -> Map<Seq<char>, JsonModel>
    decreases ids.len(),
{
    if ids.len() == 0 {
        Map::empty()
    } else {
        let prev = upstream_values(msgs, ids.drop_last());
        match node_with_id(msgs, ids.last()) {
            Some(n) => prev.insert(n.node_name@, n.value@),
            None => prev,
        }
    }
}

fn collect_upstream_values(messages: &Vec<Message>, ids: &Vec<u128>) -> (r: Json)
    ensures
        r is Object,
        object_map(r->Object_0@) == upstream_values(messages@, ids@),
{
    let mut entries: Vec<(String, Json)> = Vec::new();
    let mut i: usize = 0;
    proof {
        assert(object_map(entries@) =~= Map::empty());
    }
    while i < ids.len()
        invariant
            i <= ids.len(),
            object_map(entries@) == upstream_values(messages@, ids@.subrange(0, i as int)),
        decreases ids.len() - i,
    {
        proof {
            assert(ids@.subrange(0, i + 1).drop_last() =~= ids@.subrange(0, i as int));
        }
        match find_node(messages, ids[i]) {
            Some(k) => {
                object_insert(&mut entries, messages[k].node_name.clone(), messages[k].value.deep_copy());
            },
            None => {},
        }
        i = i + 1;
    }
    assert(ids@.subrange(0, ids.len() as int) =~= ids@);
    Json::Object(entries)
}

/// The path of a node's span: the parent path itself for an LLM node (the
/// consumer of its telemetry appends the operation name), else the parent
/// path and the node name.
pub open spec fn node_path(node: Message, parent_path: Seq<char>) -> Seq<char> {
    if node.node_type@ == "LLM"@ {
        parent_path
    } else {
        parent_path + "."@ + node.node_name@
    }
}

/// The nodes that become spans, in order.
pub open spec fn traced_nodes(msgs: Seq<Message>) -> Seq<Message>
    decreases msgs.len(),
{
    if msgs.len() == 0 {
        Seq::empty()
    } else if is_traced(msgs.last().node_type@) {
        traced_nodes(msgs.drop_last()).push(msgs.last())
    } else {
        traced_nodes(msgs.drop_last())
    }
}

/// Whether `s` is the span of `node` in a run with the given root.
pub open spec fn is_node_span(
    s: Span,
    node: Message,
    msgs: Seq<Message>,
    trace_id: u128,
    parent_span_id: u128,
    parent_path: Seq<char>,
) -> bool {
    &&& s.span_id == node.id
    &&& s.trace_id == trace_id
    &&& s.parent_span_id == Some(parent_span_id)
    &&& s.name@ == node.node_name@
    &&& s.version@ == DEFAULT_VERSION@
    &&& s.start_time == node.start_time
    &&& s.end_time == node.end_time
    &&& s.attributes is Object
    &&& entries_model(s.attributes->Object_0@) == node_attributes(node.meta_log, node_path(node, parent_path))
    &&& s.input matches Some(i) && i is Object && object_map(i->Object_0@) == upstream_values(msgs, node.input_message_ids@)
    &&& s.output matches Some(o) && o@ == node.value@
    &&& s.span_type == if node.node_type@ == "LLM"@ {
        SpanType::LLM
    } else {
        SpanType::DEFAULT
    }
    &&& s.events is None
    &&& s.labels is None
}

impl Span {
    /// The spans of the LLM and SemanticSearch nodes of a run, in node order,
    /// as children of the run's root span. An upstream identifier names the
    /// node that has it where identifiers are unique ([`ids_unique`],
    /// [`lemma_node_with_unique_id`]); one that names no node is passed over.
    pub fn from_messages(messages: &Vec<Message>, trace_id: u128, parent_span_id: u128, parent_span_path: String) -> (r: Vec<Span>)
        ensures
            r.len() == traced_nodes(messages@).len(),
            forall|j: int|
                0 <= j < r.len() ==> is_node_span(
                    #[trigger] r@[j],
                    traced_nodes(messages@)[j],
                    messages@,
                    trace_id,
                    parent_span_id,
                    parent_span_path@,
                ),
    {
        let mut out: Vec<Span> = Vec::new();
        let mut i: usize = 0;
        while i < messages.len()
            invariant
                i <= messages.len(),
                out.len() == traced_nodes(messages@.subrange(0, i as int)).len(),
                forall|j: int|
                    0 <= j < out.len() ==> is_node_span(
                        #[trigger] out@[j],
                        traced_nodes(messages@.subrange(0, i as int))[j],
                        messages@,
                        trace_id,
                        parent_span_id,
                        parent_span_path@,
                    ),
            decreases messages.len() - i,
        {
            let ghost prefix = messages@.subrange(0, i as int);
            proof {
                assert(messages@.subrange(0, i + 1).drop_last() =~= prefix);
            }
            let message = &messages[i];
            let is_llm = same_text(message.node_type.as_str(), "LLM");
            if is_llm || same_text(message.node_type.as_str(), "SemanticSearch") {
                let span_path = if is_llm {
                    parent_span_path.clone()
                } else {
                    join3(parent_span_path.as_str(), ".", message.node_name.as_str())
                };
                let span = Span {
                    span_id: message.id,
                    start_time: message.start_time,
                    end_time: message.end_time,
                    version: String::from_str(DEFAULT_VERSION),
                    trace_id,
                    parent_span_id: Some(parent_span_id),
                    name: message.node_name.clone(),
                    attributes: span_attributes_from_meta_log(&message.meta_log, span_path),
                    input: Some(collect_upstream_values(messages, &message.input_message_ids)),
                    output: Some(message.value.deep_copy()),
                    span_type: if is_llm {
                        SpanType::LLM
                    } else {
                        SpanType::DEFAULT
                    },
                    events: None,
                    labels: None,
                };
                out.push(span);
            }
            i = i + 1;
        }
        assert(messages@.subrange(0, messages.len() as int) =~= messages@);
        out
    }
}

/// The attribute map of a span whose attributes are an object.
pub open spec fn span_attribute_map(s: Span) -> Map<Seq<char>, JsonModel> {
    object_map(s.attributes->Object_0@)
}

/// The span of an LLM node carries the parent path; when a downstream
/// consumer extends it by the node's name (once or more), the path ends with
/// exactly one segment of that name: the parent path and the name, or the
/// parent path unchanged where it already ends with that segment or is it.
pub proof fn lemma_llm_child_path_extension(
    s: Span,
    node: Message,
    msgs: Seq<Message>,
    trace_id: u128,
    parent_span_id: u128,
    parent_path: Seq<char>,
)
    requires
        is_node_span(s, node, msgs, trace_id, parent_span_id, parent_path),
        node.node_type@ == "LLM"@,
    ensures
        text_at(span_attribute_map(s), SPAN_PATH@) == Some(parent_path),
        !(has_suffix(parent_path, "."@ + node.node_name@) || parent_path == node.node_name@) ==> text_at(
            path_extended(span_attribute_map(s), node.node_name@),
            SPAN_PATH@,
        ) == Some(parent_path + "."@ + node.node_name@),
        has_suffix(parent_path, "."@ + node.node_name@) || parent_path == node.node_name@ ==> path_extended(
            span_attribute_map(s),
            node.node_name@,
        ) == span_attribute_map(s),
        path_extended(path_extended(span_attribute_map(s), node.node_name@), node.node_name@)
            == path_extended(span_attribute_map(s), node.node_name@),
{
    let seq_model = node_attributes(node.meta_log, parent_path);
    assert(seq_model.last() == (SPAN_PATH@, JsonModel::Str(parent_path)));
    assert(lookup(seq_model, SPAN_PATH@) == Some(JsonModel::Str(parent_path)));
    lemma_extend_span_path_no_duplicate(span_attribute_map(s), node.node_name@, parent_path);
    lemma_extend_span_path_idempotent(span_attribute_map(s), node.node_name@);
}

} // verus!
