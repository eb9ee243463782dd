use lmnr_spans::attributes::{SpanAttributes, SpanUsage};
use lmnr_spans::hierarchy::{CurrentTraceAndSpan, LlmLog, Message, MetaLog, RunTraceStats};
use lmnr_spans::indexed::{
    input_chat_messages_from_prompt_content, output_from_completion_content, resolve_content,
    ChatMessageContent,
};
use lmnr_spans::json::Json;
use lmnr_spans::otel::{id_from_bytes, nanos_to_time, should_keep_attribute, uses_indexed_prompt, OtelSpan};
use lmnr_spans::span::{Span, SpanType, TraceType};

fn s(x: &str) -> String {
    x.to_string()
}

fn text(x: &str) -> Json {
    Json::Str(s(x))
}

fn attrs(pairs: Vec<(&str, Json)>) -> SpanAttributes {
    SpanAttributes::new(pairs.into_iter().map(|(k, v)| (s(k), v)).collect())
}

fn get<'a>(entries: &'a [(String, Json)], key: &str) -> Option<&'a Json> {
    entries.iter().rev().find(|(k, _)| k == key).map(|(_, v)| v)
}

fn field<'a>(v: &'a Json, key: &str) -> Option<&'a Json> {
    match v {
        Json::Object(e) => get(e, key),
        _ => None,
    }
}

fn as_text(v: Option<&Json>) -> Option<&str> {
    match v {
        Some(Json::Str(t)) => Some(t.as_str()),
        _ => None,
    }
}

#[test]
fn extend_span_path_twice_is_once() {
    let mut a = attrs(vec![("lmnr.span.path", text("root.child"))]);
    a.extend_span_path("llm");
    assert_eq!(a.path(), Some(s("root.child.llm")));
    a.extend_span_path("llm");
    assert_eq!(a.path(), Some(s("root.child.llm")));
}

#[test]
fn extend_span_path_without_path_sets_name() {
    let mut a = attrs(vec![]);
    a.extend_span_path("openai.chat");
    assert_eq!(a.path(), Some(s("openai.chat")));
    a.extend_span_path("openai.chat");
    assert_eq!(a.path(), Some(s("openai.chat")));
}

#[test]
fn extend_span_path_keeps_identical_trailing_segment() {
    let mut a = attrs(vec![("lmnr.span.path", text("run.llm"))]);
    a.extend_span_path("llm");
    assert_eq!(a.path(), Some(s("run.llm")));
    a.extend_span_path("m");
    assert_eq!(a.path(), Some(s("run.llm.m")));
}

#[test]
fn input_tokens_migrate_on_first_read() {
    let mut a = attrs(vec![("gen_ai.usage.prompt_tokens", Json::Int(42))]);
    assert_eq!(a.input_tokens(), 42);
    assert!(matches!(get(&a.attributes, "gen_ai.usage.input_tokens"), Some(Json::Int(42))));
    assert_eq!(a.input_tokens(), 42);
    assert!(matches!(get(&a.attributes, "gen_ai.usage.prompt_tokens"), Some(Json::Int(42))));
}

#[test]
fn completion_tokens_prefer_canonical() {
    let mut a = attrs(vec![
        ("gen_ai.usage.output_tokens", Json::Int(7)),
        ("gen_ai.usage.completion_tokens", Json::Int(9)),
    ]);
    assert_eq!(a.completion_tokens(), 7);
    assert_eq!(a.completion_tokens(), 7);
    assert!(matches!(get(&a.attributes, "gen_ai.usage.completion_tokens"), Some(Json::Int(9))));
    let mut none = attrs(vec![]);
    assert_eq!(none.completion_tokens(), 0);
    assert!(none.attributes.is_empty());
}

#[test]
fn provider_langchain_uses_underlying() {
    let a = attrs(vec![
        ("gen_ai.system", text("Langchain")),
        ("lmnr.association.properties.ls_provider", text("openai")),
    ]);
    assert_eq!(a.provider_name(), Some(s("openai")));
    let b = attrs(vec![("gen_ai.system", text("Langchain"))]);
    assert_eq!(b.provider_name(), Some(s("Langchain")));
}

#[test]
fn provider_compound_name_is_cut_at_dot() {
    let a = attrs(vec![("gen_ai.system", text("anthropic.messages"))]);
    assert_eq!(a.provider_name(), Some(s("anthropic")));
    let b = attrs(vec![("gen_ai.system", text("openai"))]);
    assert_eq!(b.provider_name(), Some(s("openai")));
    let c = attrs(vec![("gen_ai.system", Json::Int(3))]);
    assert_eq!(c.provider_name(), None);
}

#[test]
fn string_reads_and_trace_type() {
    let a = attrs(vec![
        ("lmnr.association.properties.session_id", text("s1")),
        ("lmnr.association.properties.user_id", Json::Int(5)),
        ("lmnr.association.properties.trace_type", text("EVENT")),
        ("gen_ai.request.model", text("gpt-4")),
    ]);
    assert_eq!(a.session_id(), Some(s("s1")));
    assert_eq!(a.user_id(), None);
    assert_eq!(a.trace_type(), Some(TraceType::EVENT));
    assert_eq!(a.request_model(), Some(s("gpt-4")));
    assert_eq!(a.response_model(), None);
}

#[test]
fn span_type_rules() {
    assert_eq!(attrs(vec![]).span_type(), SpanType::DEFAULT);
    assert_eq!(attrs(vec![("gen_ai.system", text("openai"))]).span_type(), SpanType::LLM);
    assert_eq!(attrs(vec![("lmnr.span.type", text("PIPELINE"))]).span_type(), SpanType::PIPELINE);
    assert_eq!(
        attrs(vec![("lmnr.span.type", text("nonsense")), ("gen_ai.system", text("x"))]).span_type(),
        SpanType::DEFAULT
    );
}

#[test]
fn set_usage_writes_present_fields_only() {
    let mut a = attrs(vec![("gen_ai.request.model", text("kept"))]);
    let usage = SpanUsage {
        input_tokens: 10,
        output_tokens: 20,
        total_tokens: 30,
        input_cost: Json::Num(s("0.5")),
        output_cost: Json::Num(s("1.5")),
        total_cost: Json::Num(s("2")),
        request_model: None,
        response_model: Some(s("gpt-4o")),
        provider_name: Some(s("openai")),
    };
    a.set_usage(&usage);
    assert_eq!(a.input_tokens(), 10);
    assert_eq!(a.completion_tokens(), 20);
    assert_eq!(a.request_model(), Some(s("kept")));
    assert_eq!(a.response_model(), Some(s("gpt-4o")));
    assert_eq!(a.provider_name(), Some(s("openai")));
    assert!(matches!(get(&a.attributes, "gen_ai.usage.cost"), Some(Json::Num(t)) if t == "2"));
}

#[test]
fn indexed_reconstruction_stops_at_first_gap() {
    let a = attrs(vec![
        ("gen_ai.prompt.0.content", text("hello")),
        ("gen_ai.prompt.2.content", text("unreached")),
        ("gen_ai.prompt.2.role", text("assistant")),
    ]);
    let msgs = input_chat_messages_from_prompt_content(&a);
    assert_eq!(msgs.len(), 1);
    assert_eq!(msgs[0].role, "user");
    assert!(matches!(&msgs[0].content, ChatMessageContent::Text(t) if t == "hello"));
}

#[test]
fn indexed_reconstruction_reads_fragment_lists() {
    let a = attrs(vec![
        ("gen_ai.prompt.0.content", text(r#"[{"type":"text","text":"hi"}]"#)),
        ("gen_ai.prompt.0.role", text("system")),
        ("gen_ai.prompt.1.content", text("[1, 2]")),
    ]);
    let msgs = input_chat_messages_from_prompt_content(&a);
    assert_eq!(msgs.len(), 2);
    assert_eq!(msgs[0].role, "system");
    match &msgs[0].content {
        ChatMessageContent::ContentPartList(parts) => {
            assert_eq!(parts.len(), 1);
            assert_eq!(as_text(field(&parts[0], "text")), Some("hi"));
        }
        _ => panic!("expected a fragment list"),
    }
    assert!(matches!(&msgs[1].content, ChatMessageContent::Text(t) if t == "[1, 2]"));
}

#[test]
fn tool_calls_follow_text_block() {
    let a = attrs(vec![
        ("gen_ai.completion.0.content", text("thinking")),
        ("gen_ai.completion.0.tool_calls.0.name", text("search")),
        ("gen_ai.completion.0.tool_calls.0.id", text("c1")),
        ("gen_ai.completion.0.tool_calls.0.arguments", text(r#"{"q":"x"}"#)),
        ("gen_ai.completion.0.tool_calls.1.name", text("lookup")),
        ("gen_ai.completion.0.tool_calls.1.arguments", text("not json")),
    ]);
    let out = output_from_completion_content(&a).unwrap();
    let items = match &out {
        Json::Array(items) => items,
        _ => panic!("expected a list"),
    };
    assert_eq!(items.len(), 3);
    assert_eq!(as_text(field(&items[0], "type")), Some("text"));
    assert_eq!(as_text(field(&items[0], "content")), Some("thinking"));
    assert_eq!(as_text(field(&items[1], "type")), Some("tool_call"));
    assert_eq!(as_text(field(&items[2], "type")), Some("tool_call"));
    assert_eq!(as_text(field(&items[1], "name")), Some("search"));
    assert_eq!(as_text(field(&items[1], "id")), Some("c1"));
    let args = field(&items[1], "arguments").unwrap();
    assert_eq!(as_text(field(args, "q")), Some("x"));
    assert!(matches!(field(&items[2], "id"), Some(Json::Null)));
    assert_eq!(as_text(field(&items[2], "arguments")), Some("not json"));
}

#[test]
fn completion_without_text_or_calls_is_none() {
    assert!(output_from_completion_content(&attrs(vec![])).is_none());
    let only_text = output_from_completion_content(&attrs(vec![("gen_ai.completion.0.content", text("hi"))]));
    assert!(matches!(only_text, Some(Json::Str(t)) if t == "hi"));
}

fn otel(attributes: Vec<(&str, Json)>) -> OtelSpan {
    OtelSpan {
        trace_id: (1u8..=16).collect(),
        span_id: vec![0, 0, 0, 0, 0, 0, 1, 2],
        parent_span_id: vec![],
        name: s("op"),
        attributes: attributes.into_iter().map(|(k, v)| (s(k), v)).collect(),
        start_time_unix_nano: 1_000,
        end_time_unix_nano: u64::MAX,
    }
}

#[test]
fn ids_are_read_big_endian() {
    let sixteen: Vec<u8> = (1u8..=16).collect();
    assert_eq!(id_from_bytes(&sixteen), 0x0102030405060708090a0b0c0d0e0f10u128);
    assert_eq!(id_from_bytes(&vec![0, 0, 0, 0, 0, 0, 1, 2]), 0x0102u128);
    assert_eq!(id_from_bytes(&vec![]), 0);
    let mut long = vec![0xffu8];
    long.extend(sixteen.iter());
    assert_eq!(id_from_bytes(&long), 0x0102030405060708090a0b0c0d0e0f10u128);
}

#[test]
fn timestamps_beyond_range_degrade() {
    assert_eq!(nanos_to_time(5), 5);
    assert_eq!(nanos_to_time(u64::MAX), 0);
}

#[test]
fn indexed_content_keys_are_not_kept() {
    assert!(!should_keep_attribute("gen_ai.prompt.0.content"));
    assert!(!should_keep_attribute("gen_ai.completion.12.role"));
    assert!(!should_keep_attribute("lmnr.span.input"));
    assert!(should_keep_attribute("gen_ai.completion.0.tool_calls.0.name"));
    assert!(should_keep_attribute("gen_ai.system"));
}

#[test]
fn generic_span_parses_payloads() {
    let span = Span::from_otel_span(otel(vec![
        ("lmnr.span.input", text(r#"{"a": 1}"#)),
        ("lmnr.span.output", text("plain words")),
        ("lmnr.span.path", text("p")),
    ]));
    assert_eq!(span.span_type, SpanType::DEFAULT);
    assert_eq!(span.trace_id, 0x0102030405060708090a0b0c0d0e0f10u128);
    assert_eq!(span.span_id, 0x0102u128);
    assert_eq!(span.parent_span_id, None);
    assert_eq!(span.start_time, 1_000);
    assert_eq!(span.end_time, 0);
    assert_eq!(span.version, "0.1.0");
    assert!(matches!(field(span.input.as_ref().unwrap(), "a"), Some(Json::Int(1))));
    assert!(matches!(&span.output, Some(Json::Str(t)) if t == "plain words"));
    match &span.attributes {
        Json::Object(e) => {
            assert_eq!(e.len(), 1);
            assert_eq!(e[0].0, "lmnr.span.path");
        }
        _ => panic!("attributes must be an object"),
    }
}

#[test]
fn indexed_llm_span_builds_messages() {
    let span = Span::from_otel_span(otel(vec![
        ("gen_ai.system", text("openai")),
        ("gen_ai.prompt.0.content", text("hi")),
        ("gen_ai.prompt.0.role", text("user")),
        ("gen_ai.completion.0.content", text("hello")),
        ("gen_ai.completion.0.role", text("assistant")),
    ]));
    assert_eq!(span.span_type, SpanType::LLM);
    let input = span.input.unwrap();
    match &input {
        Json::Array(items) => {
            assert_eq!(items.len(), 1);
            assert_eq!(as_text(field(&items[0], "role")), Some("user"));
            assert_eq!(as_text(field(&items[0], "content")), Some("hi"));
        }
        _ => panic!("expected messages"),
    }
    assert!(matches!(&span.output, Some(Json::Str(t)) if t == "hello"));
    match &span.attributes {
        Json::Object(e) => assert_eq!(e.len(), 1),
        _ => panic!("attributes must be an object"),
    }
}

#[test]
fn serialized_llm_span_reads_messages() {
    let span = Span::from_otel_span(otel(vec![
        ("gen_ai.system", text("openai")),
        ("ai.prompt.messages", text(r#"[{"role":"user","content":"q"}]"#)),
        ("ai.response.text", text("a")),
    ]));
    assert!(matches!(&span.input, Some(Json::Array(items)) if items.len() == 1));
    assert!(matches!(&span.output, Some(Json::Str(t)) if t == "a"));
}

fn node(id: u128, node_type: &str, name: &str, value: Json, inputs: Vec<u128>) -> Message {
    Message {
        id,
        node_name: s(name),
        node_type: s(node_type),
        value,
        start_time: 10,
        end_time: 20,
        meta_log: None,
        input_message_ids: inputs,
    }
}

#[test]
fn run_hierarchy_root_and_llm_child() {
    let messages = vec![
        node(1, "Input", "a", Json::Int(1), vec![]),
        node(2, "Output", "b", Json::Int(2), vec![3]),
        node(3, "LLM", "c", text("answer"), vec![1]),
    ];
    let stats = RunTraceStats { start_time: 5, end_time: 50 };
    let root = Span::create_parent_span_in_run_trace(None, &stats, &s("run"), &messages, TraceType::DEFAULT);
    assert_eq!(root.span_type, SpanType::PIPELINE);
    assert_eq!(root.parent_span_id, None);
    let input = root.input.as_ref().unwrap();
    assert!(matches!(input, Json::Object(e) if e.len() == 1));
    assert!(matches!(field(input, "a"), Some(Json::Int(1))));
    let output = root.output.as_ref().unwrap();
    assert!(matches!(output, Json::Object(e) if e.len() == 1));
    assert!(matches!(field(output, "b"), Some(Json::Int(2))));
    assert_eq!(as_text(field(&root.attributes, "lmnr.span.path")), Some("run"));
    assert_eq!(as_text(field(&root.attributes, "lmnr.association.properties.trace_type")), Some("DEFAULT"));

    let children = Span::from_messages(&messages, root.trace_id, root.span_id, s("run"));
    assert_eq!(children.len(), 1);
    let c = &children[0];
    assert_eq!(c.span_id, 3);
    assert_eq!(c.parent_span_id, Some(root.span_id));
    assert_eq!(c.trace_id, root.trace_id);
    assert_eq!(c.span_type, SpanType::LLM);
    assert_eq!(as_text(field(&c.attributes, "lmnr.span.path")), Some("run"));
    assert!(matches!(field(c.input.as_ref().unwrap(), "a"), Some(Json::Int(1))));
    assert!(matches!(&c.output, Some(Json::Str(t)) if t == "answer"));
}

#[test]
fn run_inside_active_trace() {
    let current = CurrentTraceAndSpan { trace_id: 77, parent_span_id: 88, parent_span_path: Some(s("outer")) };
    let stats = RunTraceStats { start_time: 0, end_time: 1 };
    let root = Span::create_parent_span_in_run_trace(Some(current), &stats, &s("inner"), &vec![], TraceType::EVENT);
    assert_eq!(root.trace_id, 77);
    assert_eq!(root.parent_span_id, Some(88));
    assert_eq!(as_text(field(&root.attributes, "lmnr.span.path")), Some("outer.inner"));
    assert!(matches!(root.input, Some(Json::Object(e)) if e.is_empty()));
}

#[test]
fn fresh_runs_get_distinct_ids() {
    let stats = RunTraceStats { start_time: 0, end_time: 1 };
    let a = Span::create_parent_span_in_run_trace(None, &stats, &s("r"), &vec![], TraceType::DEFAULT);
    let b = Span::create_parent_span_in_run_trace(None, &stats, &s("r"), &vec![], TraceType::DEFAULT);
    assert_ne!(a.span_id, b.span_id);
    assert_ne!(a.trace_id, b.trace_id);
}

#[test]
fn semantic_search_child_appends_name_and_meta_log() {
    let mut llm = node(4, "LLM", "gen", text("out"), vec![]);
    llm.meta_log = Some(MetaLog::LLM(LlmLog {
        input_token_count: 3,
        output_token_count: 4,
        total_token_count: 7,
        model: s("gpt"),
        provider: s("openai"),
        approximate_cost: Json::Num(s("0.01")),
        prompt: s("rendered"),
    }));
    let messages = vec![node(5, "SemanticSearch", "search", Json::Null, vec![9]), llm, node(6, "Code", "x", Json::Null, vec![])];
    let spans = Span::from_messages(&messages, 1, 2, s("root"));
    assert_eq!(spans.len(), 2);
    assert_eq!(as_text(field(&spans[0].attributes, "lmnr.span.path")), Some("root.search"));
    assert_eq!(spans[0].span_type, SpanType::DEFAULT);
    assert!(matches!(spans[0].input.as_ref().unwrap(), Json::Object(e) if e.is_empty()));
    assert!(matches!(field(&spans[1].attributes, "gen_ai.usage.input_tokens"), Some(Json::Int(3))));
    assert_eq!(as_text(field(&spans[1].attributes, "gen_ai.system")), Some("openai"));
    assert_eq!(as_text(field(&spans[1].attributes, "lmnr.span.prompt")), Some("rendered"));
}

#[test]
fn span_attributes_round_trip_through_span() {
    let mut span = Span::from_otel_span(otel(vec![("gen_ai.system", text("openai"))]));
    let mut a = span.get_attributes().unwrap();
    a.extend_span_path("op");
    span.set_attributes(&a);
    let b = span.get_attributes().unwrap();
    assert_eq!(b.path(), Some(s("op")));
    assert_eq!(b.provider_name(), Some(s("openai")));
    span.attributes = Json::Null;
    assert!(span.get_attributes().is_none());
}

#[test]
fn provider_langchain_with_null_underlying_keeps_wrapper() {
    let a = attrs(vec![
        ("gen_ai.system", text("Langchain")),
        ("lmnr.association.properties.ls_provider", Json::Null),
    ]);
    assert_eq!(a.provider_name(), Some(s("Langchain")));
    let b = attrs(vec![
        ("gen_ai.system", text("Langchain")),
        ("lmnr.association.properties.ls_provider", Json::Int(1)),
    ]);
    assert_eq!(b.provider_name(), Some(s("Langchain")));
}

#[test]
fn serialized_llm_span_rejects_non_messages() {
    let span = Span::from_otel_span(otel(vec![
        ("gen_ai.system", text("openai")),
        ("ai.prompt.messages", text("[1, 2]")),
    ]));
    assert!(span.input.is_none());
    let no_role = Span::from_otel_span(otel(vec![
        ("gen_ai.system", text("openai")),
        ("ai.prompt.messages", text(r#"[{"content":"q"}]"#)),
    ]));
    assert!(no_role.input.is_none());
}

#[test]
fn resolved_fragments_keep_order_and_fall_back() {
    let fragments = vec![text("f0"), text("f1"), text("f2")];
    let outcomes = vec![Some(text("p0")), None];
    let r = resolve_content(ChatMessageContent::ContentPartList(fragments), outcomes);
    match r {
        ChatMessageContent::ContentPartList(parts) => {
            assert_eq!(parts.len(), 3);
            assert!(matches!(&parts[0], Json::Str(t) if t == "p0"));
            assert!(matches!(&parts[1], Json::Str(t) if t == "f1"));
            assert!(matches!(&parts[2], Json::Str(t) if t == "f2"));
        }
        _ => panic!("expected parts"),
    }
    let t = resolve_content(ChatMessageContent::Text(s("plain")), vec![Some(text("x"))]);
    assert!(matches!(t, ChatMessageContent::Text(x) if x == "plain"));
}

#[test]
fn indexed_convention_needs_llm_and_position_zero() {
    let a = attrs(vec![("gen_ai.prompt.0.content", text("hi"))]);
    assert!(uses_indexed_prompt(SpanType::LLM, &a));
    assert!(!uses_indexed_prompt(SpanType::DEFAULT, &a));
    let b = attrs(vec![("gen_ai.prompt.1.content", text("hi"))]);
    assert!(!uses_indexed_prompt(SpanType::LLM, &b));
}

#[test]
fn root_span_defaults() {
    let stats = RunTraceStats { start_time: 0, end_time: 1 };
    let root = Span::create_parent_span_in_run_trace(None, &stats, &s("r"), &vec![], TraceType::DEFAULT);
    assert_eq!(root.version, "0.1.0");
    assert!(root.events.is_none());
    assert!(root.labels.is_none());
}
