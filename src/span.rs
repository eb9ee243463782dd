use vstd::prelude::*;
use vstd::string::*;
use crate::attributes::SpanAttributes;
use crate::json::{Json, JsonModel, copy_entries, entries_model};
use crate::text::same_text;

verus! {

/// Schema version written on every span.
pub const DEFAULT_VERSION: &'static str = "0.1.0";

/// How a span is interpreted downstream.
#[allow(non_camel_case_types)]
#[derive(Clone, Copy, Debug, PartialEq, Eq, Structural)]
pub enum SpanType {
    DEFAULT,
    LLM,
    PIPELINE,
    EXECUTOR,
    EVALUATOR,
    EVALUATION,
}

/// Kind of trace a run belongs to.
#[allow(non_camel_case_types)]
#[derive(Clone, Copy, Debug, PartialEq, Eq, Structural)]
pub enum TraceType {
    DEFAULT,
    EVENT,
    EVALUATION,
}

/// The span type that a stored value names, if it names one.
pub open spec fn span_type_named(m: JsonModel) -> Option<SpanType> {
    match m {
        JsonModel::Str(s) => if s == "DEFAULT"@ {
            Some(SpanType::DEFAULT)
        } else if s == "LLM"@ {
            Some(SpanType::LLM)
        } else if s == "PIPELINE"@ {
            Some(SpanType::PIPELINE)
        } else if s == "EXECUTOR"@ {
            Some(SpanType::EXECUTOR)
        } else if s == "EVALUATOR"@ {
            Some(SpanType::EVALUATOR)
        } else if s == "EVALUATION"@ {
            Some(SpanType::EVALUATION)
        } else {
            None
        },
        _ => None,
    }
}

/// The trace type that a stored value names, if it names one.
pub open spec fn trace_type_named(m: JsonModel) -> Option<TraceType> {
    match m {
        JsonModel::Str(s) => if s == "DEFAULT"@ {
            Some(TraceType::DEFAULT)
        } else if s == "EVENT"@ {
            Some(TraceType::EVENT)
        } else if s == "EVALUATION"@ {
            Some(TraceType::EVALUATION)
        } else {
            None
        },
        _ => None,
    }
}

/// The name under which a trace type is stored.
pub open spec fn trace_type_name(t: TraceType) -> Seq<char> {
    match t {
        TraceType::DEFAULT => "DEFAULT"@,
        TraceType::EVENT => "EVENT"@,
        TraceType::EVALUATION => "EVALUATION"@,
    }
}

impl SpanType {
    /// Decodes a stored span type.
    pub fn from_json(v: &Json) -> (r: Option<SpanType>)
        ensures
            r == span_type_named(v@),
    {
        match v {
            Json::Str(s) => if same_text(s.as_str(), "DEFAULT") {
                Some(SpanType::DEFAULT)
            } else if same_text(s.as_str(), "LLM") {
                Some(SpanType::LLM)
            } else if same_text(s.as_str(), "PIPELINE") {
                Some(SpanType::PIPELINE)
            } else if same_text(s.as_str(), "EXECUTOR") {
                Some(SpanType::EXECUTOR)
            } else if same_text(s.as_str(), "EVALUATOR") {
                Some(SpanType::EVALUATOR)
            } else if same_text(s.as_str(), "EVALUATION") {
                Some(SpanType::EVALUATION)
            } else {
                None
            },
            _ => None,
        }
    }
}

impl TraceType {
    /// Decodes a stored trace type.
    pub fn from_json(v: &Json) -> (r: Option<TraceType>)
        ensures
            r == trace_type_named(v@),
    {
        match v {
            Json::Str(s) => if same_text(s.as_str(), "DEFAULT") {
                Some(TraceType::DEFAULT)
            } else if same_text(s.as_str(), "EVENT") {
                Some(TraceType::EVENT)
            } else if same_text(s.as_str(), "EVALUATION") {
                Some(TraceType::EVALUATION)
            } else {
                None
            },
            _ => None,
        }
    }

    /// The stored form of this trace type.
    pub fn to_json(&self) -> (r: Json)
        ensures
            r@ == JsonModel::Str(trace_type_name(*self)),
    {
        match self {
            TraceType::DEFAULT => Json::Str(String::from_str("DEFAULT")),
            TraceType::EVENT => Json::Str(String::from_str("EVENT")),
            TraceType::EVALUATION => Json::Str(String::from_str("EVALUATION")),
        }
    }
}

/// A timed, attributed unit of execution within a trace.
///
/// Identifiers are 128-bit integers; times are nanoseconds since the Unix
/// epoch, UTC.
pub struct Span {
    pub version: String,
    pub span_id: u128,
    pub trace_id: u128,
    pub parent_span_id: Option<u128>,
    pub name: String,
    pub attributes: Json,
    pub start_time: i64,
    pub end_time: i64,
    pub input: Option<Json>,
    pub output: Option<Json>,
    pub span_type: SpanType,
    pub events: Option<Json>,
    pub labels: Option<Json>,
}

impl Span {
    /// The attribute map of the span; nothing where the stored attributes
    /// are not an object.
    pub fn get_attributes(&self) -> (r: Option<SpanAttributes>)
        ensures
            match r {
                Some(a) => self.attributes is Object && entries_model(a.attributes@) == entries_model(
                    self.attributes->Object_0@,
                ),
                None => !(self.attributes is Object),
            },
    {
        match &self.attributes {
            Json::Object(entries) => Some(SpanAttributes::new(copy_entries(entries))),
            _ => None,
        }
    }

    /// Stores the attribute map in the span; nothing else changes.
    pub fn set_attributes(&mut self, attributes: &SpanAttributes)
        ensures
            final(self).attributes@ == JsonModel::Object(entries_model(attributes.attributes@)),
            final(self).version == old(self).version,
            final(self).events == old(self).events,
            final(self).labels == old(self).labels,
            final(self).span_id == old(self).span_id,
            final(self).trace_id == old(self).trace_id,
            final(self).parent_span_id == old(self).parent_span_id,
            final(self).name == old(self).name,
            final(self).input == old(self).input,
            final(self).output == old(self).output,
            final(self).span_type == old(self).span_type,
            final(self).start_time == old(self).start_time,
            final(self).end_time == old(self).end_time,
    {
        self.attributes = Json::Object(copy_entries(&attributes.attributes));
    }
}

} // verus!
