use vstd::prelude::*;
use vstd::string::*;
use crate::attributes::{SpanAttributes, text_at, text_of};
use crate::json::{
    Json, JsonModel, entries_model, items_model, lemma_entries_model_index, lemma_items_model_index, lookup,
    object_get, object_map,
};
use crate::outside::{parse_json, parsed_json};
use crate::text::{decimal, digit_char, push_decimal};

verus! {

/// The key `prefix`, then the decimal position, then `suffix`.
pub open spec fn indexed_key(prefix: Seq<char>, i: nat, suffix: Seq<char>) -> Seq<char> {
    prefix + decimal(i) + suffix
}

/// The first position from `from` on (below `bound`) where `present` fails,
/// or `bound` where it holds throughout.
pub open spec fn first_gap(present: spec_fn(nat) -> bool, from: nat, bound: nat) -> nat
    decreases bound - from,
{
    if from >= bound || !present(from) {
        from
    } else {
        first_gap(present, from + 1, bound)
    }
}

pub proof fn lemma_first_gap(present: spec_fn(nat) -> bool, from: nat, i: nat, bound: nat)
    requires
        from <= i <= bound,
        forall|j: nat| from <= j < i ==> #[trigger] present(j),
        i == bound || !present(i),
    ensures
        first_gap(present, from, bound) == i,
    decreases i - from,
{
    if from < i {
        lemma_first_gap(present, from + 1, i, bound);
    }
}

/// What the first gap is: every position before it is present, and one
/// below the bound is absent.
pub proof fn lemma_first_gap_facts(present: spec_fn(nat) -> bool, from: nat, bound: nat)
    requires
        from <= bound,
    ensures
        from <= first_gap(present, from, bound) <= bound,
        forall|j: nat| from <= j < first_gap(present, from, bound) ==> #[trigger] present(j),
        first_gap(present, from, bound) < bound ==> !present(first_gap(present, from, bound)),
    decreases bound - from,
{
    if from < bound && present(from) {
        lemma_first_gap_facts(present, from + 1, bound);
    }
}

proof fn lemma_decimal_nonempty(n: nat)
    ensures
        decimal(n).len() >= 1,
    decreases n,
{
    if n >= 10 {
        lemma_decimal_nonempty(n / 10);
    }
}

proof fn lemma_decimal_injective(a: nat, b: nat)
    requires
        decimal(a) == decimal(b),
    ensures
        a == b,
    decreases a,
{
    if a < 10 && b < 10 {
        assert(decimal(a)[0] == digit_char(a));
        assert(decimal(b)[0] == digit_char(b));
    } else if a < 10 {
        lemma_decimal_nonempty(b / 10);
        assert(decimal(b).len() >= 2);
    } else if b < 10 {
        lemma_decimal_nonempty(a / 10);
        assert(decimal(a).len() >= 2);
    } else {
        assert(decimal(a).last() == digit_char(a % 10));
        assert(decimal(b).last() == digit_char(b % 10));
        assert(decimal(a / 10) =~= decimal(a).drop_last());
        assert(decimal(b / 10) =~= decimal(b).drop_last());
        lemma_decimal_injective(a / 10, b / 10);
    }
}

proof fn lemma_indexed_key_injective(prefix: Seq<char>, suffix: Seq<char>, a: nat, b: nat)
    requires
        indexed_key(prefix, a, suffix) == indexed_key(prefix, b, suffix),
    ensures
        a == b,
{
    let ka = indexed_key(prefix, a, suffix);
    let kb = indexed_key(prefix, b, suffix);
    assert(decimal(a) =~= ka.subrange(prefix.len() as int, ka.len() - suffix.len()));
    assert(decimal(b) =~= kb.subrange(prefix.len() as int, kb.len() - suffix.len()));
    lemma_decimal_injective(a, b);
}

proof fn lemma_lookup_some_has_key(m: Seq<(Seq<char>, JsonModel)>, k: Seq<char>)
    requires
        lookup(m, k) is Some,
    ensures
        exists|j: int| 0 <= j < m.len() && m[j].0 == k,
    decreases m.len(),
{
    if m.last().0 == k {
        assert(m[m.len() - 1].0 == k);
    } else {
        lemma_lookup_some_has_key(m.drop_last(), k);
        let j = choose|j: int| 0 <= j < m.drop_last().len() && m.drop_last()[j].0 == k;
        assert(m[j].0 == k);
    }
}

/// An attribute map holds no more indexed keys than it has entries, so a
/// probe bounded by the number of entries stops where the key is really
/// absent: the bounded first gap is the first gap.
pub proof fn lemma_probe_stops_at_gap(
    entries: Seq<(String, Json)>,
    present: spec_fn(nat) -> bool,
    prefix: Seq<char>,
    suffix: Seq<char>,
)
    requires
        forall|i: nat| #[trigger] present(i) ==> object_map(entries).contains_key(indexed_key(prefix, i, suffix)),
    ensures
        !present(first_gap(present, 0, entries.len() as nat)),
        forall|j: nat| j < first_gap(present, 0, entries.len() as nat) ==> #[trigger] present(j),
{
    let n = entries.len() as nat;
    let g = first_gap(present, 0, n);
    lemma_first_gap_facts(present, 0, n);
    if present(g) {
        let model = entries_model(entries);
        lemma_entries_model_index(entries);
        let keys = model.map_values(|e: (Seq<char>, JsonModel)| e.0);
        let t = keys.to_set();
        keys.lemma_cardinality_of_set();
        let f = |i: int| indexed_key(prefix, i as nat, suffix);
        let dom = vstd::set_lib::set_int_range(0, n + 1 as int);
        vstd::set_lib::lemma_int_range(0, n + 1 as int);
        let sk = dom.map(f);
        assert(vstd::relations::injective_on(f, dom)) by {
            assert forall|x: int, y: int| dom.contains(x) && dom.contains(y) && #[trigger] f(x) == #[trigger] f(y) implies x == y by {
                lemma_indexed_key_injective(prefix, suffix, x as nat, y as nat);
            }
        }
        vstd::set_lib::lemma_map_size(dom, sk, f);
        assert forall|k: Seq<char>| sk.contains(k) implies t.contains(k) by {
            let i = choose|i: int| dom.contains(i) && f(i) == k;
            assert(present(i as nat));
            assert(object_map(entries).contains_key(k));
            lemma_lookup_some_has_key(model, k);
            let j = choose|j: int| 0 <= j < model.len() && model[j].0 == k;
            assert(keys[j] == k);
            assert(keys.contains(k));
        }
        vstd::set_lib::lemma_len_subset(sk, t);
    }
}

/// Builds `prefix`, the decimal position, then `suffix`.
pub fn indexed_key_text(prefix: &str, i: u64, suffix: &str) -> (r: String)
    ensures
        r@ == indexed_key(prefix@, i as nat, suffix@),
{
    let mut r = String::from_str(prefix);
    push_decimal(&mut r, i);
    r.append(suffix);
    r
}

pub open spec fn prompt_content_key(i: nat) -> Seq<char> {
    indexed_key("gen_ai.prompt."@, i, ".content"@)
}

pub open spec fn prompt_role_key(i: nat) -> Seq<char> {
    indexed_key("gen_ai.prompt."@, i, ".role"@)
}

pub open spec fn tool_call_key(i: nat, field: Seq<char>) -> Seq<char> {
    indexed_key("gen_ai.completion.0.tool_calls."@, i, field)
}

/// The content of a chat message.
pub enum ChatMessageContent {
    /// Plain text.
    Text(String),
    /// Content fragments, as instrumentation sent them.
    ContentPartList(Vec<Json>),
}

/// One chat message.
pub struct ChatMessage {
    pub role: String,
    pub content: ChatMessageContent,
}

/// Whether a parsed value is a list of content fragments. Each fragment is an
/// object (inline text, or a reference to stored bytes) that the content
/// resolver turns into a content part; no finer shape is asked of it here.
pub open spec fn is_fragment_list(v: JsonModel) -> bool {
    v is Array && forall|i: int| 0 <= i < v->Array_0.len() ==> (#[trigger] v->Array_0[i]) is Object
}

/// The message content that a content text stands for.
pub open spec fn content_model(text: Seq<char>) -> JsonModel {
    match parsed_json(text) {
        Some(v) => if is_fragment_list(v) {
            v
        } else {
            JsonModel::Str(text)
        },
        None => JsonModel::Str(text),
    }
}

/// The message at position `i` of the indexed prompt.
pub open spec fn prompt_message(m: Map<Seq<char>, JsonModel>, i: nat) -> JsonModel {
    let text = match text_at(m, prompt_content_key(i)) {
        Some(s) => s,
        None => Seq::empty(),
    };
    let role = match text_at(m, prompt_role_key(i)) {
        Some(s) => s,
        None => "user"@,
    };
    JsonModel::Object(seq![("role"@, JsonModel::Str(role)), ("content"@, content_model(text))])
}

/// The prompt messages of an indexed prompt, up to the first gap.
pub open spec fn prompt_messages(m: Map<Seq<char>, JsonModel>, bound: nat) -> Seq<JsonModel> {
    let n = first_gap(|i: nat| m.contains_key(prompt_content_key(i)), 0, bound);
    Seq::new(n, |j: int| prompt_message(m, j as nat))
}

impl ChatMessageContent {
    pub open spec fn view(&self) -> JsonModel {
        match self {
            ChatMessageContent::Text(s) => JsonModel::Str(s@),
            ChatMessageContent::ContentPartList(parts) => JsonModel::Array(items_model(parts@)),
        }
    }
}

impl ChatMessage {
    pub open spec fn view(&self) -> JsonModel {
        JsonModel::Object(seq![("role"@, JsonModel::Str(self.role@)), ("content"@, self.content@)])
    }

    /// The stored form of the message: an object with `role` and `content`.
    pub fn to_json(self) -> (r: Json)
        ensures
            r@ == self@,
    {
        let content = match self.content {
            ChatMessageContent::Text(s) => Json::Str(s),
            ChatMessageContent::ContentPartList(parts) => Json::Array(parts),
        };
        assert(content@ == self.content@);
        let role = Json::Str(self.role);
        let entries = vec![(String::from_str("role"), role), (String::from_str("content"), content)];
        proof {
            reveal_strlit("role");
            reveal_strlit("content");
            crate::json::lemma_entries_model_index(entries@);
            assert(crate::json::entries_model(entries@) =~= seq![("role"@, JsonModel::Str(self.role@)), ("content"@, content@)]);
        }
        let r = Json::Object(entries);
        assert(r@ == JsonModel::Object(crate::json::entries_model(entries@)));
        r
    }
}

fn chat_content(text: String) -> (r: ChatMessageContent)
    ensures
        r@ == content_model(text@),
{
    match parse_json(text.as_str()) {
        Some(Json::Array(items)) => {
            proof {
                lemma_items_model_index(items@);
            }
            let mut all_objects = true;
            let mut i: usize = 0;
            while i < items.len()
                invariant
                    i <= items.len(),
                    items_model(items@).len() == items.len(),
                    forall|j: int| 0 <= j < items.len() ==> #[trigger] items_model(items@)[j] == items@[j]@,
                    all_objects == forall|j: int| 0 <= j < i ==> (#[trigger] items_model(items@)[j]) is Object,
                decreases items.len() - i,
            {
                assert(items_model(items@)[i as int] == items@[i as int]@);
                match &items[i] {
                    Json::Object(_) => {},
                    _ => {
                        all_objects = false;
                    },
                }
                i = i + 1;
            }
            if all_objects {
                ChatMessageContent::ContentPartList(items)
            } else {
                ChatMessageContent::Text(text)
            }
        },
        _ => ChatMessageContent::Text(text),
    }
}

/// Rebuilds the prompt messages from `gen_ai.prompt.<i>.content` and
/// `gen_ai.prompt.<i>.role`, probing positions 0, 1, 2, ... and stopping at
/// the first position without content (at most as many positions as there
/// are attributes). A missing role is `user`; a content that is a list of
/// fragments is kept as that list.
pub fn input_chat_messages_from_prompt_content(attributes: &SpanAttributes) -> (r: Vec<ChatMessage>)
    ensures
        r@.map_values(|c: ChatMessage| c@) == prompt_messages(attributes@, attributes.attributes@.len()),
{
    let ghost m = attributes@;
    let ghost present = |i: nat| m.contains_key(prompt_content_key(i));
    let bound = attributes.attributes.len();
    let mut out: Vec<ChatMessage> = Vec::new();
    let mut i: usize = 0;
    loop
        invariant
            i <= bound,
            m == attributes@,
            present == (|i: nat| m.contains_key(prompt_content_key(i))),
            bound == attributes.attributes@.len(),
            out@.len() == i,
            forall|j: nat| j < i ==> #[trigger] present(j),
            forall|j: int| 0 <= j < i ==> (#[trigger] out@[j])@ == prompt_message(m, j as nat),
        ensures
            i == bound || !present(i as nat),
        decreases bound - i,
    {
        if i >= bound {
            break;
        }
        let content_key = indexed_key_text("gen_ai.prompt.", i as u64, ".content");
        let found = object_get(&attributes.attributes, content_key.as_str());
        if found.is_none() {
            assert(!present(i as nat));
            break;
        }
        assert(present(i as nat));
        let text = match found {
            Some(Json::Str(s)) => s.clone(),
            _ => String::new(),
        };
        let role_key = indexed_key_text("gen_ai.prompt.", i as u64, ".role");
        let role = match object_get(&attributes.attributes, role_key.as_str()) {
            Some(Json::Str(s)) => s.clone(),
            _ => String::from_str("user"),
        };
        assert(text@ == match text_at(m, prompt_content_key(i as nat)) {
            Some(s) => s,
            None => Seq::empty(),
        });
        assert(role@ == match text_at(m, prompt_role_key(i as nat)) {
            Some(s) => s,
            None => "user"@,
        });
        let ghost text_view = text@;
        let content = chat_content(text);
        let msg = ChatMessage { role, content };
        proof {
            assert(msg.content@ == content_model(text_view));
            assert(msg@ == prompt_message(m, i as nat));
        }
        out.push(msg);
        i = i + 1;
    }
    proof {
        lemma_first_gap(present, 0, i as nat, bound as nat);
        assert(out@.map_values(|c: ChatMessage| c@) =~= prompt_messages(m, bound as nat));
    }
    out
}

/// The arguments of the tool call at position `i`: a string that parses as
/// a JSON object becomes that object; any other string stays as it is; a
/// value of another kind is kept; none is `Null`.
pub open spec fn tool_call_arguments(m: Map<Seq<char>, JsonModel>, i: nat) -> JsonModel {
    let k = tool_call_key(i, ".arguments"@);
    if !m.contains_key(k) {
        JsonModel::Null
    } else {
        match m[k] {
            JsonModel::Str(s) => match parsed_json(s) {
                Some(JsonModel::Object(e)) => JsonModel::Object(e),
                _ => JsonModel::Str(s),
            },
            v => v,
        }
    }
}

/// The tool-call block at position `i`.
pub open spec fn tool_call(m: Map<Seq<char>, JsonModel>, i: nat) -> JsonModel {
    let name = match text_at(m, tool_call_key(i, ".name"@)) {
        Some(s) => s,
        None => Seq::empty(),
    };
    let id = match text_at(m, tool_call_key(i, ".id"@)) {
        Some(s) => JsonModel::Str(s),
        None => JsonModel::Null,
    };
    JsonModel::Object(
        seq![
            ("name"@, JsonModel::Str(name)),
            ("id"@, id),
            ("arguments"@, tool_call_arguments(m, i)),
            ("type"@, JsonModel::Str("tool_call"@)),
        ],
    )
}

/// The tool calls of the completion, up to the first position without a name.
pub open spec fn tool_calls(m: Map<Seq<char>, JsonModel>, bound: nat) -> Seq<JsonModel> {
    let n = first_gap(|i: nat| text_at(m, tool_call_key(i, ".name"@)) is Some, 0, bound);
    Seq::new(n, |j: int| tool_call(m, j as nat))
}

/// A text block of a mixed completion.
pub open spec fn text_block(s: Seq<char>) -> JsonModel {
    JsonModel::Object(seq![("content"@, JsonModel::Str(s)), ("type"@, JsonModel::Str("text"@))])
}

/// The output of a completion: its text alone where there are no tool calls;
/// else a list of the text block (where there is text) and the tool calls.
pub open spec fn completion_output(m: Map<Seq<char>, JsonModel>, bound: nat) -> Option<JsonModel> {
    let calls = tool_calls(m, bound);
    let text = text_at(m, "gen_ai.completion.0.content"@);
    if calls.len() == 0 {
        match text {
            Some(s) => Some(JsonModel::Str(s)),
            None => None,
        }
    } else {
        Some(
            JsonModel::Array(
                match text {
                    Some(s) => seq![text_block(s)],
                    None => Seq::empty(),
                } + calls,
            ),
        )
    }
}

/// Shape of a completion's output: with neither text nor tool calls there is
/// none; with text and `n` tool calls it is a list of `n + 1` blocks, the text
/// block first and tool-call blocks after it, each tagged by its `type`.
pub proof fn lemma_completion_output_shape(m: Map<Seq<char>, JsonModel>, bound: nat)
    ensures
        tool_calls(m, bound).len() == 0 && text_at(m, "gen_ai.completion.0.content"@) is None
            ==> completion_output(m, bound) is None,
        tool_calls(m, bound).len() > 0 && text_at(m, "gen_ai.completion.0.content"@) is Some ==> {
            let out = completion_output(m, bound)->0->Array_0;
            &&& completion_output(m, bound) matches Some(JsonModel::Array(_))
            &&& out.len() == tool_calls(m, bound).len() + 1
            &&& out[0]->Object_0[1] == ("type"@, JsonModel::Str("text"@))
            &&& forall|j: int| 1 <= j < out.len() ==> (#[trigger] out[j])->Object_0[3] == ("type"@, JsonModel::Str("tool_call"@))
        },
{
    let calls = tool_calls(m, bound);
    if calls.len() > 0 {
        if let Some(t) = text_at(m, "gen_ai.completion.0.content"@) {
            let out = seq![text_block(t)] + calls;
            assert forall|j: int| 1 <= j < out.len() implies (#[trigger] out[j])->Object_0[3] == ("type"@, JsonModel::Str("tool_call"@)) by {
                assert(out[j] == calls[j - 1]);
            }
        }
    }
}

/// The content part at position `i` of a fragment list: the resolver's part
/// where resolution succeeded, else the fragment as it was sent.
pub open spec fn resolved_part(fragment: JsonModel, outcomes: Seq<Option<Json>>, i: int) -> JsonModel {
    if i < outcomes.len() && outcomes[i] is Some {
        outcomes[i]->0@
    } else {
        fragment
    }
}

/// Content after resolution of its fragments, in the order they were sent.
pub open spec fn resolved_content(content: JsonModel, outcomes: Seq<Option<Json>>) -> JsonModel {
    match content {
        JsonModel::Array(parts) => JsonModel::Array(
            Seq::new(parts.len(), |i: int| resolved_part(parts[i], outcomes, i)),
        ),
        other => other,
    }
}

/// Puts the resolver's outcome for each fragment of a fragment list in its
/// place, position by position; a fragment whose resolution failed (or has no
/// outcome) stays as it was sent. Text content is left as it is.
pub fn resolve_content(content: ChatMessageContent, outcomes: Vec<Option<Json>>) -> (r: ChatMessageContent)
    ensures
        r@ == resolved_content(content@, outcomes@),
{
    match content {
        ChatMessageContent::Text(t) => ChatMessageContent::Text(t),
        ChatMessageContent::ContentPartList(parts) => {
            let ghost orig = items_model(parts@);
            proof {
                lemma_items_model_index(parts@);
            }
            let ghost outs = outcomes@;
            let mut out: Vec<Json> = Vec::new();
            while out.len() < parts.len()
                invariant
                    orig == items_model(parts@),
                    orig.len() == parts.len(),
                    forall|j: int| 0 <= j < parts.len() ==> #[trigger] orig[j] == parts@[j]@,
                    outs == outcomes@,
                    out.len() <= parts.len(),
                    items_model(out@) =~= Seq::new(out.len() as nat, |i: int| resolved_part(orig[i], outs, i)),
                decreases parts.len() - out.len(),
            {
                let k = out.len();
                let part = if k < outcomes.len() {
                    match &outcomes[k] {
                        Some(p) => p.deep_copy(),
                        None => parts[k].deep_copy(),
                    }
                } else {
                    parts[k].deep_copy()
                };
                proof {
                    assert(part@ == resolved_part(orig[k as int], outs, k as int));
                    assert(out@.push(part).drop_last() =~= out@);
                }
                out.push(part);
                proof {
                    assert(items_model(out@) =~= Seq::new(out.len() as nat, |i: int| resolved_part(orig[i], outs, i)));
                }
            }
            ChatMessageContent::ContentPartList(out)
        },
    }
}

/// The prompt messages run to the first position without content.
pub proof fn lemma_prompt_messages_reach_gap(a: SpanAttributes)
    ensures
        !a@.contains_key(prompt_content_key(prompt_messages(a@, a.attributes@.len() as nat).len())),
        forall|j: nat|
            j < prompt_messages(a@, a.attributes@.len() as nat).len() ==> a@.contains_key(
                #[trigger] prompt_content_key(j),
            ),
{
    let present = |i: nat| a@.contains_key(prompt_content_key(i));
    lemma_probe_stops_at_gap(a.attributes@, present, "gen_ai.prompt."@, ".content"@);
    assert forall|j: nat| j < prompt_messages(a@, a.attributes@.len() as nat).len() implies a@.contains_key(
        #[trigger] prompt_content_key(j),
    ) by {
        assert(present(j));
    }
}

/// The tool calls run to the first position without a name.
pub proof fn lemma_tool_calls_reach_gap(a: SpanAttributes)
    ensures
        text_at(a@, tool_call_key(tool_calls(a@, a.attributes@.len() as nat).len(), ".name"@)) is None,
        forall|j: nat|
            j < tool_calls(a@, a.attributes@.len() as nat).len() ==> text_at(
                a@,
                #[trigger] tool_call_key(j, ".name"@),
            ) is Some,
{
    let present = |i: nat| text_at(a@, tool_call_key(i, ".name"@)) is Some;
    lemma_probe_stops_at_gap(a.attributes@, present, "gen_ai.completion.0.tool_calls."@, ".name"@);
    assert forall|j: nat| j < tool_calls(a@, a.attributes@.len() as nat).len() implies text_at(
        a@,
        #[trigger] tool_call_key(j, ".name"@),
    ) is Some by {
        assert(present(j));
    }
}

/// The view of an optional value.
pub open spec fn opt_model(o: Option<Json>) -> Option<JsonModel> {
    match o {
        Some(v) => Some(v@),
        None => None,
    }
}

fn tool_call_arguments_of(attributes: &SpanAttributes, i: u64) -> (r: Json)
    ensures
        r@ == tool_call_arguments(attributes@, i as nat),
{
    let key = indexed_key_text("gen_ai.completion.0.tool_calls.", i, ".arguments");
    match object_get(&attributes.attributes, key.as_str()) {
        None => Json::Null,
        Some(Json::Str(s)) => match parse_json(s.as_str()) {
            Some(Json::Object(e)) => Json::Object(e),
            _ => Json::Str(s.clone()),
        },
        Some(v) => v.deep_copy(),
    }
}

fn tool_call_block(attributes: &SpanAttributes, i: u64, name: String) -> (r: Json)
    requires
        text_at(attributes@, tool_call_key(i as nat, ".name"@)) == Some(name@),
    ensures
        r@ == tool_call(attributes@, i as nat),
{
    let id_key = indexed_key_text("gen_ai.completion.0.tool_calls.", i, ".id");
    let id = match object_get(&attributes.attributes, id_key.as_str()) {
        Some(Json::Str(s)) => Json::Str(s.clone()),
        _ => Json::Null,
    };
    let arguments = tool_call_arguments_of(attributes, i);
    let entries = vec![
        (String::from_str("name"), Json::Str(name)),
        (String::from_str("id"), id),
        (String::from_str("arguments"), arguments),
        (String::from_str("type"), Json::Str(String::from_str("tool_call"))),
    ];
    proof {
        crate::json::lemma_entries_model_index(entries@);
        assert(crate::json::entries_model(entries@) =~= tool_call(attributes@, i as nat)->Object_0);
    }
    Json::Object(entries)
}

/// Builds the output of a completion from `gen_ai.completion.0.content` and
/// the tool calls `gen_ai.completion.0.tool_calls.<i>.name`, `.id` and
/// `.arguments`, probed as the prompt messages are.
pub fn output_from_completion_content(attributes: &SpanAttributes) -> (r: Option<Json>)
    ensures
        opt_model(r) == completion_output(attributes@, attributes.attributes@.len()),
{
    let ghost m = attributes@;
    let ghost present = |i: nat| text_at(m, tool_call_key(i, ".name"@)) is Some;
    let bound = attributes.attributes.len();
    let mut calls: Vec<Json> = Vec::new();
    let mut i: usize = 0;
    loop
        invariant
            i <= bound,
            m == attributes@,
            present == (|i: nat| text_at(m, tool_call_key(i, ".name"@)) is Some),
            bound == attributes.attributes@.len(),
            calls@.len() == i,
            forall|j: nat| j < i ==> #[trigger] present(j),
            forall|j: int| 0 <= j < i ==> (#[trigger] calls@[j])@ == tool_call(m, j as nat),
        ensures
            i == bound || !present(i as nat),
        decreases bound - i,
    {
        if i >= bound {
            break;
        }
        let name_key = indexed_key_text("gen_ai.completion.0.tool_calls.", i as u64, ".name");
        let name = match object_get(&attributes.attributes, name_key.as_str()) {
            Some(Json::Str(s)) => s.clone(),
            _ => {
                assert(!present(i as nat));
                break;
            },
        };
        assert(present(i as nat));
        let block = tool_call_block(attributes, i as u64, name);
        calls.push(block);
        i = i + 1;
    }
    let ghost call_models = tool_calls(m, bound as nat);
    proof {
        lemma_first_gap(present, 0, i as nat, bound as nat);
        lemma_items_model_index(calls@);
        assert(items_model(calls@) =~= call_models);
    }
    let text = match object_get(&attributes.attributes, "gen_ai.completion.0.content") {
        Some(Json::Str(s)) => Some(s.clone()),
        _ => None,
    };
    assert(text_of(text) == text_at(m, "gen_ai.completion.0.content"@));
    assert(call_models.len() == calls.len());
    if calls.len() == 0 {
        match text {
            Some(s) => Some(Json::Str(s)),
            None => None,
        }
    } else {
        let mut out: Vec<Json> = Vec::new();
        match text {
            Some(s) => {
                let entries = vec![
                    (String::from_str("content"), Json::Str(s)),
                    (String::from_str("type"), Json::Str(String::from_str("text"))),
                ];
                proof {
                    crate::json::lemma_entries_model_index(entries@);
                    assert(crate::json::entries_model(entries@) =~= text_block(s@)->Object_0);
                }
                out.push(Json::Object(entries));
            },
            None => {},
        }
        let ghost head = items_model(out@);
        proof {
            lemma_items_model_index(out@);
        }
        out.append(&mut calls);
        proof {
            lemma_items_model_index(out@);
            assert(items_model(out@) =~= head + call_models);
            assert(head == match text_at(m, "gen_ai.completion.0.content"@) {
                Some(s) => seq![text_block(s)],
                None => Seq::<JsonModel>::empty(),
            });
        }
        Some(Json::Array(out))
    }
}

/// The stored form of a list of chat messages.
pub fn messages_to_json(messages: Vec<ChatMessage>) -> (r: Json)
    ensures
        r@ == JsonModel::Array(messages@.map_values(|c: ChatMessage| c@)),
{
    let ghost orig = messages@;
    let mut rest = messages;
    let mut out: Vec<Json> = Vec::new();
    while rest.len() > 0
        invariant
            out@.len() + rest@.len() == orig.len(),
            rest@ == orig.subrange(out@.len() as int, orig.len() as int),
            items_model(out@) == orig.subrange(0, out@.len() as int).map_values(|c: ChatMessage| c@),
        decreases rest.len(),
    {
        let ghost k: int = out@.len() as int;
        let msg = rest.remove(0);
        let j = msg.to_json();
        proof {
            assert(out@.push(j).drop_last() =~= out@);
            assert(orig.subrange(0, k + 1).map_values(|c: ChatMessage| c@) =~= orig.subrange(0, k).map_values(
                |c: ChatMessage| c@,
            ).push(j@));
            assert(rest@ =~= orig.subrange(k + 1, orig.len() as int));
        }
        out.push(j);
    }
    assert(orig.subrange(0, orig.len() as int) =~= orig);
    Json::Array(out)
}

} // verus!
