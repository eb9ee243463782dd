use vstd::prelude::*;

verus! {

/// Session tag of a span.
pub const SESSION_ID: &'static str = "lmnr.association.properties.session_id";
/// User tag of a span.
pub const USER_ID: &'static str = "lmnr.association.properties.user_id";
/// Trace type tag of a span.
pub const TRACE_TYPE: &'static str = "lmnr.association.properties.trace_type";
/// The model provider that a wrapping instrumentation stands for.
pub const LS_PROVIDER: &'static str = "lmnr.association.properties.ls_provider";
/// Provider (model system) of an LLM call.
pub const GEN_AI_SYSTEM: &'static str = "gen_ai.system";
pub const GEN_AI_REQUEST_MODEL: &'static str = "gen_ai.request.model";
pub const GEN_AI_RESPONSE_MODEL: &'static str = "gen_ai.response.model";
pub const GEN_AI_TOTAL_TOKENS: &'static str = "llm.usage.total_tokens";
/// Legacy name of the input token count.
pub const GEN_AI_PROMPT_TOKENS: &'static str = "gen_ai.usage.prompt_tokens";
/// Legacy name of the output token count.
pub const GEN_AI_COMPLETION_TOKENS: &'static str = "gen_ai.usage.completion_tokens";
pub const GEN_AI_INPUT_TOKENS: &'static str = "gen_ai.usage.input_tokens";
pub const GEN_AI_OUTPUT_TOKENS: &'static str = "gen_ai.usage.output_tokens";
pub const GEN_AI_INPUT_COST: &'static str = "gen_ai.usage.input_cost";
pub const GEN_AI_OUTPUT_COST: &'static str = "gen_ai.usage.output_cost";
pub const GEN_AI_TOTAL_COST: &'static str = "gen_ai.usage.cost";
/// The dot-joined ancestry path of a span.
pub const SPAN_PATH: &'static str = "lmnr.span.path";
/// The declared type of a span.
pub const SPAN_TYPE: &'static str = "lmnr.span.type";
/// The rendered prompt of a workflow LLM node.
pub const LLM_NODE_RENDERED_PROMPT: &'static str = "lmnr.span.prompt";
/// Generic input payload, as JSON text.
pub const INPUT_ATTRIBUTE_NAME: &'static str = "lmnr.span.input";
/// Generic output payload, as JSON text.
pub const OUTPUT_ATTRIBUTE_NAME: &'static str = "lmnr.span.output";
/// Serialized chat messages of the serialized convention.
pub const AI_PROMPT_MESSAGES: &'static str = "ai.prompt.messages";
/// Response text of the serialized convention.
pub const AI_RESPONSE_TEXT: &'static str = "ai.response.text";
/// The provider name under which a wrapping instrumentation reports.
pub const LANGCHAIN: &'static str = "Langchain";

} // verus!
