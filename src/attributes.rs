use vstd::prelude::*;
use vstd::string::*;
use crate::json::{Json, JsonModel, object_get, object_insert, object_map};
use crate::keys::{
    GEN_AI_COMPLETION_TOKENS, GEN_AI_INPUT_COST, GEN_AI_INPUT_TOKENS, GEN_AI_OUTPUT_COST,
    GEN_AI_OUTPUT_TOKENS, GEN_AI_PROMPT_TOKENS, GEN_AI_REQUEST_MODEL, GEN_AI_RESPONSE_MODEL,
    GEN_AI_SYSTEM, GEN_AI_TOTAL_COST, LANGCHAIN, LS_PROVIDER, SESSION_ID, SPAN_PATH, SPAN_TYPE,
    TRACE_TYPE, USER_ID,
};
use crate::span::{SpanType, TraceType, span_type_named, trace_type_named};
use crate::text::{ends_with_text, has_suffix, join3, same_text};

verus! {

/// The text stored under `k`, if the value there is a string.
pub open spec fn text_at(m: Map<Seq<char>, JsonModel>, k: Seq<char>) -> Option<Seq<char>> {
    if m.contains_key(k) && m[k] is Str {
        Some(m[k]->Str_0)
    } else {
        None
    }
}

/// The text of an optional string.
pub open spec fn text_of(o: Option<String>) -> Option<Seq<char>> {
    match o {
        Some(s) => Some(s@),
        None => None,
    }
}

pub open spec fn is_number(v: JsonModel) -> bool {
    v is Int || v is Num
}

/// A number read as an `i64`; a number that is not one reads as zero.
pub open spec fn as_i64_or_zero(v: JsonModel) -> i64 {
    match v {
        JsonModel::Int(n) => n,
        _ => 0,
    }
}

/// A token count read under its canonical key, else under its legacy key, else zero.
pub open spec fn tokens_read(m: Map<Seq<char>, JsonModel>, canonical: Seq<char>, legacy: Seq<char>) -> i64 {
    if m.contains_key(canonical) && is_number(m[canonical]) {
        as_i64_or_zero(m[canonical])
    } else if m.contains_key(legacy) && is_number(m[legacy]) {
        as_i64_or_zero(m[legacy])
    } else {
        0
    }
}

/// The map after a token count is read: a count found only under the legacy
/// key is written under the canonical key.
pub open spec fn tokens_migrated(
    m: Map<Seq<char>, JsonModel>,
    canonical: Seq<char>,
    legacy: Seq<char>,
) -> Map<Seq<char>, JsonModel> {
    if m.contains_key(canonical) && is_number(m[canonical]) {
        m
    } else if m.contains_key(legacy) && is_number(m[legacy]) {
        m.insert(canonical, JsonModel::Int(as_i64_or_zero(m[legacy])))
    } else {
        m
    }
}

/// The text before the first `.` of `p` (all of `p` where it has none).
pub open spec fn first_segment(p: Seq<char>) -> Seq<char>
    decreases p.len(),
{
    if p.len() == 0 {
        p
    } else if p[0] == '.' {
        Seq::empty()
    } else {
        seq![p[0]] + first_segment(p.drop_first())
    }
}

/// The normalised provider name of a span.
pub open spec fn provider_of(m: Map<Seq<char>, JsonModel>) -> Option<Seq<char>> {
    match text_at(m, GEN_AI_SYSTEM@) {
        None => None,
        Some(p) => if p == LANGCHAIN@ {
            if !m.contains_key(LS_PROVIDER@) {
                Some(p)
            } else {
                match m[LS_PROVIDER@] {
                    JsonModel::Str(s) => Some(s),
                    _ => Some(p),
                }
            }
        } else {
            Some(first_segment(p))
        },
    }
}

/// The type of a span: the declared one (DEFAULT where it names none), else
/// LLM where a model system is recorded, else DEFAULT.
pub open spec fn span_type_of(m: Map<Seq<char>, JsonModel>) -> SpanType {
    if m.contains_key(SPAN_TYPE@) {
        match span_type_named(m[SPAN_TYPE@]) {
            Some(t) => t,
            None => SpanType::DEFAULT,
        }
    } else if m.contains_key(GEN_AI_SYSTEM@) {
        SpanType::LLM
    } else {
        SpanType::DEFAULT
    }
}

/// The map after the span path is extended by `seg`.
pub open spec fn path_extended(m: Map<Seq<char>, JsonModel>, seg: Seq<char>) -> Map<Seq<char>, JsonModel> {
    match text_at(m, SPAN_PATH@) {
        Some(p) => if has_suffix(p, "."@ + seg) || p == seg {
            m
        } else {
            m.insert(SPAN_PATH@, JsonModel::Str(p + "."@ + seg))
        },
        None => m.insert(SPAN_PATH@, JsonModel::Str(seg)),
    }
}

/// Token counts, costs and model identifiers of one model call.
///
/// Costs are JSON numbers (or `Null` where a cost is not a finite number).
pub struct SpanUsage {
    pub input_tokens: i64,
    pub output_tokens: i64,
    pub total_tokens: i64,
    pub input_cost: Json,
    pub output_cost: Json,
    pub total_cost: Json,
    pub request_model: Option<String>,
    pub response_model: Option<String>,
    pub provider_name: Option<String>,
}

pub open spec fn insert_text_if_some(
    m: Map<Seq<char>, JsonModel>,
    k: Seq<char>,
    v: Option<String>,
) -> Map<Seq<char>, JsonModel> {
    match v {
        Some(s) => m.insert(k, JsonModel::Str(s@)),
        None => m,
    }
}

/// The map after a usage summary is written into it.
pub open spec fn usage_applied(m: Map<Seq<char>, JsonModel>, u: SpanUsage) -> Map<Seq<char>, JsonModel> {
    let m1 = m.insert(GEN_AI_INPUT_TOKENS@, JsonModel::Int(u.input_tokens)).insert(
        GEN_AI_OUTPUT_TOKENS@,
        JsonModel::Int(u.output_tokens),
    ).insert(GEN_AI_TOTAL_COST@, u.total_cost@).insert(GEN_AI_INPUT_COST@, u.input_cost@).insert(
        GEN_AI_OUTPUT_COST@,
        u.output_cost@,
    );
    let m2 = insert_text_if_some(m1, GEN_AI_REQUEST_MODEL@, u.request_model);
    let m3 = insert_text_if_some(m2, GEN_AI_RESPONSE_MODEL@, u.response_model);
    insert_text_if_some(m3, GEN_AI_SYSTEM@, u.provider_name)
}

proof fn lemma_first_segment(p: Seq<char>, i: int)
    requires
        0 <= i <= p.len(),
        forall|j: int| 0 <= j < i ==> p[j] != '.',
        i == p.len() || p[i] == '.',
    ensures
        first_segment(p) == p.subrange(0, i),
    decreases p.len(),
{
    if p.len() == 0 {
        assert(p.subrange(0, i) =~= p);
    } else if p[0] == '.' {
        assert(p.subrange(0, i) =~= Seq::<char>::empty());
    } else {
        lemma_first_segment(p.drop_first(), i - 1);
        assert(p.subrange(0, i) =~= seq![p[0]] + p.drop_first().subrange(0, i - 1));
    }
}

/// The text of `p` before its first `.`.
fn first_segment_of(p: &str) -> (r: String)
    ensures
        r@ == first_segment(p@),
{
    let n = p.unicode_len();
    let mut i: usize = 0;
    while i < n && p.get_char(i) != '.'
        invariant
            i <= n,
            n == p@.len(),
            forall|j: int| 0 <= j < i ==> p@[j] != '.',
        decreases n - i,
    {
        i = i + 1;
    }
    proof {
        lemma_first_segment(p@, i as int);
    }
    String::from_str(p.substring_char(0, i))
}

/// The attribute map of a span, with typed, convention-aware access.
pub struct SpanAttributes {
    pub attributes: Vec<(String, Json)>,
}

impl SpanAttributes {
    /// The attributes as a map from key to value.
    pub open spec fn view(&self) -> Map<Seq<char>, JsonModel> {
        object_map(self.attributes@)
    }

    pub fn new(attributes: Vec<(String, Json)>) -> (r: Self)
        ensures
            r.attributes == attributes,
    {
        SpanAttributes { attributes }
    }

    fn text_value(&self, key: &str) -> (r: Option<String>)
        ensures
            text_of(r) == text_at(self@, key@),
    {
        match object_get(&self.attributes, key) {
            Some(Json::Str(s)) => Some(s.clone()),
            _ => None,
        }
    }

    pub fn session_id(&self) -> (r: Option<String>)
        ensures
            text_of(r) == text_at(self@, SESSION_ID@),
    {
        self.text_value(SESSION_ID)
    }

    pub fn user_id(&self) -> (r: Option<String>)
        ensures
            text_of(r) == text_at(self@, USER_ID@),
    {
        self.text_value(USER_ID)
    }

    pub fn trace_type(&self) -> (r: Option<TraceType>)
        ensures
            r == (if self@.contains_key(TRACE_TYPE@) {
                trace_type_named(self@[TRACE_TYPE@])
            } else {
                None
            }),
    {
        match object_get(&self.attributes, TRACE_TYPE) {
            Some(v) => TraceType::from_json(v),
            None => None,
        }
    }

    fn number_value(&self, key: &str) -> (r: Option<i64>)
        ensures
            r == (if self@.contains_key(key@) && is_number(self@[key@]) {
                Some(as_i64_or_zero(self@[key@]))
            } else {
                None
            }),
    {
        match object_get(&self.attributes, key) {
            Some(Json::Int(n)) => Some(*n),
            Some(Json::Num(_)) => Some(0),
            _ => None,
        }
    }

    fn migrating_read(&mut self, canonical: &str, legacy: &str) -> (r: i64)
        ensures
            r == tokens_read(old(self)@, canonical@, legacy@),
            final(self)@ == tokens_migrated(old(self)@, canonical@, legacy@),
    {
        match self.number_value(canonical) {
            Some(n) => n,
            None => match self.number_value(legacy) {
                Some(n) => {
                    object_insert(&mut self.attributes, String::from_str(canonical), Json::Int(n));
                    n
                },
                None => 0,
            },
        }
    }

    /// The input token count; a count stored only under the legacy key is
    /// copied to the canonical key.
    pub fn input_tokens(&mut self) -> (r: i64)
        ensures
            r == tokens_read(old(self)@, GEN_AI_INPUT_TOKENS@, GEN_AI_PROMPT_TOKENS@),
            final(self)@ == tokens_migrated(old(self)@, GEN_AI_INPUT_TOKENS@, GEN_AI_PROMPT_TOKENS@),
    {
        self.migrating_read(GEN_AI_INPUT_TOKENS, GEN_AI_PROMPT_TOKENS)
    }

    /// The output token count; a count stored only under the legacy key is
    /// copied to the canonical key.
    pub fn completion_tokens(&mut self) -> (r: i64)
        ensures
            r == tokens_read(old(self)@, GEN_AI_OUTPUT_TOKENS@, GEN_AI_COMPLETION_TOKENS@),
            final(self)@ == tokens_migrated(
                old(self)@,
                GEN_AI_OUTPUT_TOKENS@,
                GEN_AI_COMPLETION_TOKENS@,
            ),
    {
        self.migrating_read(GEN_AI_OUTPUT_TOKENS, GEN_AI_COMPLETION_TOKENS)
    }

    pub fn request_model(&self) -> (r: Option<String>)
        ensures
            text_of(r) == text_at(self@, GEN_AI_REQUEST_MODEL@),
    {
        self.text_value(GEN_AI_REQUEST_MODEL)
    }

    pub fn response_model(&self) -> (r: Option<String>)
        ensures
            text_of(r) == text_at(self@, GEN_AI_RESPONSE_MODEL@),
    {
        self.text_value(GEN_AI_RESPONSE_MODEL)
    }

    /// The provider name: for a wrapping instrumentation, the provider it
    /// stands for where one is recorded as a string, else the wrapper's own
    /// name; for any other provider, the text before the first `.`.
    pub fn provider_name(&self) -> (r: Option<String>)
        ensures
            text_of(r) == provider_of(self@),
    {
        match object_get(&self.attributes, GEN_AI_SYSTEM) {
            Some(Json::Str(provider)) => {
                if same_text(provider.as_str(), LANGCHAIN) {
                    match object_get(&self.attributes, LS_PROVIDER) {
                        None => Some(provider.clone()),
                        Some(Json::Str(s)) => Some(s.clone()),
                        Some(_) => Some(provider.clone()),
                    }
                } else {
                    Some(first_segment_of(provider.as_str()))
                }
            },
            _ => None,
        }
    }

    pub fn span_type(&self) -> (r: SpanType)
        ensures
            r == span_type_of(self@),
    {
        match object_get(&self.attributes, SPAN_TYPE) {
            Some(v) => match SpanType::from_json(v) {
                Some(t) => t,
                None => SpanType::DEFAULT,
            },
            None => match object_get(&self.attributes, GEN_AI_SYSTEM) {
                Some(_) => SpanType::LLM,
                None => SpanType::DEFAULT,
            },
        }
    }

    pub fn path(&self) -> (r: Option<String>)
        ensures
            text_of(r) == text_at(self@, SPAN_PATH@),
    {
        self.text_value(SPAN_PATH)
    }

    fn insert_text_if_some(&mut self, key: &str, value: &Option<String>)
        ensures
            final(self)@ == insert_text_if_some(old(self)@, key@, *value),
    {
        match value {
            Some(s) => object_insert(&mut self.attributes, String::from_str(key), Json::Str(s.clone())),
            None => {},
        }
    }

    /// Writes token counts and costs, and each model identifier that the usage holds.
    pub fn set_usage(&mut self, usage: &SpanUsage)
        ensures
            final(self)@ == usage_applied(old(self)@, *usage),
    {
        object_insert(&mut self.attributes, String::from_str(GEN_AI_INPUT_TOKENS), Json::Int(usage.input_tokens));
        object_insert(&mut self.attributes, String::from_str(GEN_AI_OUTPUT_TOKENS), Json::Int(usage.output_tokens));
        object_insert(&mut self.attributes, String::from_str(GEN_AI_TOTAL_COST), usage.total_cost.deep_copy());
        object_insert(&mut self.attributes, String::from_str(GEN_AI_INPUT_COST), usage.input_cost.deep_copy());
        object_insert(&mut self.attributes, String::from_str(GEN_AI_OUTPUT_COST), usage.output_cost.deep_copy());
        self.insert_text_if_some(GEN_AI_REQUEST_MODEL, &usage.request_model);
        self.insert_text_if_some(GEN_AI_RESPONSE_MODEL, &usage.response_model);
        self.insert_text_if_some(GEN_AI_SYSTEM, &usage.provider_name);
    }

    /// Appends `span_name` to the span path, unless the path already ends
    /// with that segment or is that name.
    pub fn extend_span_path(&mut self, span_name: &str)
        ensures
            final(self)@ == path_extended(old(self)@, span_name@),
    {
        match self.path() {
            Some(path) => {
                let mut dotted = String::from_str(".");
                dotted.append(span_name);
                if !(ends_with_text(path.as_str(), dotted.as_str()) || same_text(path.as_str(), span_name)) {
                    let extended = join3(path.as_str(), ".", span_name);
                    object_insert(&mut self.attributes, String::from_str(SPAN_PATH), Json::Str(extended));
                }
            },
            None => {
                object_insert(&mut self.attributes, String::from_str(SPAN_PATH), Json::Str(String::from_str(span_name)));
            },
        }
    }
}

/// Extending the span path twice by the same segment leaves the same map as
/// extending it once.
pub proof fn lemma_extend_span_path_idempotent(m: Map<Seq<char>, JsonModel>, seg: Seq<char>)
    ensures
        path_extended(path_extended(m, seg), seg) == path_extended(m, seg),
{
    let m1 = path_extended(m, seg);
    match text_at(m, SPAN_PATH@) {
        Some(p) => {
            if !(has_suffix(p, "."@ + seg) || p == seg) {
                let q = p + "."@ + seg;
                assert(text_at(m1, SPAN_PATH@) == Some(q));
                assert(q.subrange(q.len() - ("."@ + seg).len(), q.len() as int) =~= "."@ + seg);
                assert(has_suffix(q, "."@ + seg));
            }
        },
        None => {
            assert(text_at(m1, SPAN_PATH@) == Some(seg));
        },
    }
}

/// A path that already ends with the segment `seg` (or is `seg`) is left as
/// it is when extended by `seg`; any other path gains that one segment.
pub proof fn lemma_extend_span_path_no_duplicate(
    m: Map<Seq<char>, JsonModel>,
    seg: Seq<char>,
    p: Seq<char>,
)
    requires
        text_at(m, SPAN_PATH@) == Some(p),
    ensures
        has_suffix(p, "."@ + seg) || p == seg ==> path_extended(m, seg) == m,
        !(has_suffix(p, "."@ + seg) || p == seg) ==> text_at(path_extended(m, seg), SPAN_PATH@)
            == Some(p + "."@ + seg),
{
}

/// Reading a token count twice gives the same count, and the second read
/// leaves the map as the first left it; a legacy integer count not shadowed
/// by a canonical number is found under the canonical key after the first read.
pub proof fn lemma_token_read_settles(m: Map<Seq<char>, JsonModel>, canonical: Seq<char>, legacy: Seq<char>)
    requires
        canonical != legacy,
    ensures
        tokens_read(tokens_migrated(m, canonical, legacy), canonical, legacy) == tokens_read(m, canonical, legacy),
        tokens_migrated(tokens_migrated(m, canonical, legacy), canonical, legacy) == tokens_migrated(m, canonical, legacy),
        !(m.contains_key(canonical) && is_number(m[canonical])) && m.contains_key(legacy) && m[legacy] is Int
            ==> tokens_migrated(m, canonical, legacy)[canonical] == m[legacy],
{
}

/// Migration of the input and output token counts settles after one read.
pub proof fn lemma_token_migration_idempotent(m: Map<Seq<char>, JsonModel>)
    ensures
        tokens_read(tokens_migrated(m, GEN_AI_INPUT_TOKENS@, GEN_AI_PROMPT_TOKENS@), GEN_AI_INPUT_TOKENS@, GEN_AI_PROMPT_TOKENS@)
            == tokens_read(m, GEN_AI_INPUT_TOKENS@, GEN_AI_PROMPT_TOKENS@),
        tokens_migrated(tokens_migrated(m, GEN_AI_INPUT_TOKENS@, GEN_AI_PROMPT_TOKENS@), GEN_AI_INPUT_TOKENS@, GEN_AI_PROMPT_TOKENS@)
            == tokens_migrated(m, GEN_AI_INPUT_TOKENS@, GEN_AI_PROMPT_TOKENS@),
        tokens_read(tokens_migrated(m, GEN_AI_OUTPUT_TOKENS@, GEN_AI_COMPLETION_TOKENS@), GEN_AI_OUTPUT_TOKENS@, GEN_AI_COMPLETION_TOKENS@)
            == tokens_read(m, GEN_AI_OUTPUT_TOKENS@, GEN_AI_COMPLETION_TOKENS@),
        tokens_migrated(tokens_migrated(m, GEN_AI_OUTPUT_TOKENS@, GEN_AI_COMPLETION_TOKENS@), GEN_AI_OUTPUT_TOKENS@, GEN_AI_COMPLETION_TOKENS@)
            == tokens_migrated(m, GEN_AI_OUTPUT_TOKENS@, GEN_AI_COMPLETION_TOKENS@),
{
    reveal_strlit("gen_ai.usage.input_tokens");
    reveal_strlit("gen_ai.usage.prompt_tokens");
    reveal_strlit("gen_ai.usage.output_tokens");
    reveal_strlit("gen_ai.usage.completion_tokens");
    assert(GEN_AI_INPUT_TOKENS@.len() != GEN_AI_PROMPT_TOKENS@.len());
    assert(GEN_AI_OUTPUT_TOKENS@.len() != GEN_AI_COMPLETION_TOKENS@.len());
    lemma_token_read_settles(m, GEN_AI_INPUT_TOKENS@, GEN_AI_PROMPT_TOKENS@);
    lemma_token_read_settles(m, GEN_AI_OUTPUT_TOKENS@, GEN_AI_COMPLETION_TOKENS@);
}

} // verus!
